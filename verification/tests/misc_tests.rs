use eve_rs::Cookie;
use eve_rs::CookieOptions;
use eve_rs::DefaultContext;
use eve_rs::EveError;
use eve_rs::HttpMethod;
use eve_rs::Request;
use eve_rs::Response;
use eve_rs::SameSite;
use eve_rs::headers::Authorization;
use eve_rs::headers::RangeUnit;
use eve_rs::static_file_server::static_server;
use eve_rs::static_file_server::StaticFileServer;
use eve_rs::uploads::is_multipart_request;
use eve_rs::uploads::DirectoryUploadDestination;
use eve_rs::uploads::S3UploadDestination;
use eve_rs::websocket::websocket_accept_key;
use eve_rs::websocket::websocket_handshake;

#[test]
fn method_tokens_round_trip() {
    assert_eq!(HttpMethod::from_str("GeT").unwrap(), HttpMethod::Get);
    assert_eq!(HttpMethod::from_str("post").unwrap(), HttpMethod::Post);
    assert_eq!(HttpMethod::from_str("TRACE").unwrap(), HttpMethod::Trace);
    assert_eq!(HttpMethod::Options.as_str(), "OPTIONS");
    let err = HttpMethod::from_str("BREW");
    assert!(matches!(err, Err(EveError::UnknownHttpMethod(_))));
}

#[test]
fn cookie_renders_options_in_order() {
    let cookie = Cookie {
        key: "sid".to_string(),
        value: "abc".to_string(),
        options: CookieOptions {
            domain: "example.com".to_string(),
            path: "/".to_string(),
            expires: 120,
            http_only: true,
            max_age: 60,
            secure: true,
            signed: false,
            same_site: Some(SameSite::Strict),
        },
    };
    assert_eq!(
        cookie.to_header_string(),
        "sid=abc; Path=/, Expires=120, Max-Age=60, Domain=example.com, Secure, HttpOnly, SameSite=Strict"
    );
}

#[test]
fn cookie_renders_defaults_minimally() {
    let cookie = Cookie {
        key: "k".to_string(),
        value: "v".to_string(),
        options: CookieOptions::default(),
    };
    assert_eq!(cookie.to_header_string(), "k=v; Path=");
}

#[test]
fn cookie_lax_same_site() {
    let mut options = CookieOptions::default();
    options.path = "/a".to_string();
    options.same_site = Some(SameSite::Lax);
    let cookie = Cookie { key: "k".to_string(), value: "v".to_string(), options };
    assert_eq!(cookie.to_header_string(), "k=v; Path=/a, SameSite=Lax");
}

#[test]
fn authorization_accessors() {
    let basic = Authorization::Basic { username: "u".to_string(), password: "p".to_string() };
    assert!(basic.is_basic());
    assert!(!basic.is_bearer());
    assert!(!basic.is_none());
    assert_eq!(basic.as_basic(), Some(("u", "p")));
    assert_eq!(basic.as_bearer(), None);

    let bearer = Authorization::Bearer { token: "t".to_string() };
    assert!(bearer.is_bearer());
    assert_eq!(bearer.as_bearer(), Some("t"));
    assert_eq!(bearer.as_basic(), None);

    let unknown = Authorization::Unknown("x".to_string());
    assert!(unknown.is_unknown());
    assert_eq!(unknown.as_unknown(), Some("x"));

    assert!(Authorization::Absent.is_none());
}

#[test]
fn range_units() {
    assert_eq!(RangeUnit::Bytes.as_str(), "bytes");
    assert!(RangeUnit::Bytes.is_bytes());
    let other = RangeUnit::Other("pages".to_string());
    assert_eq!(other.as_str(), "pages");
    assert!(!other.is_bytes());
}

#[test]
fn static_server_strips_one_trailing_slash() {
    let s = static_server("/var/www/");
    assert_eq!(s.folder_path, "/var/www");
    let t = StaticFileServer::create("/srv");
    assert_eq!(t.folder_path, "/srv");
    assert_eq!(t.file_location("/css/app.css"), "/srv/css/app.css");
}

#[test]
fn multipart_detection() {
    assert!(is_multipart_request("multipart/form-data".to_string()));
    assert!(!is_multipart_request("application/json".to_string()));
}

#[test]
fn upload_destinations() {
    let d = DirectoryUploadDestination::new("/tmp/uploads");
    assert_eq!(d.get_directory(), "/tmp/uploads");
    let s3 = S3UploadDestination {
        endpoint: "https://s3.example".to_string(),
        region: "eu-central-1".to_string(),
        bucket: "media".to_string(),
        key: "access".to_string(),
        secret: "token".to_string(),
        path_prefix: "img".to_string(),
    };
    assert_eq!(s3.object_name("a.png"), "img/a.png");
}

#[test]
fn accept_key_matches_the_protocol_example() {
    // The handshake example from the websocket protocol specification.
    assert_eq!(
        websocket_accept_key("dGhlIHNhbXBsZSBub25jZQ=="),
        "s3pPLMBiTxaQ9kYGzzhZRbK+xOo="
    );
}

fn ws_context(headers: Vec<(&str, &str)>) -> DefaultContext {
    let mut request = Request::new("127.0.0.1:80".to_string(), HttpMethod::Get, "/ws".to_string());
    for (k, v) in headers {
        request.headers.push((k.to_string(), v.to_string()));
    }
    DefaultContext::new(request, Response::new())
}

#[test]
fn handshake_upgrades_with_key() {
    let context = ws_context(vec![
        ("upgrade", "websocket"),
        ("sec-websocket-key", "dGhlIHNhbXBsZSBub25jZQ=="),
    ]);
    let (c, proceed) = websocket_handshake(context).expect("handshake");
    assert!(proceed);
    assert_eq!(c.get_status(), 101);
    assert_eq!(
        c.get_response().get_header("sec-websocket-accept"),
        Some("s3pPLMBiTxaQ9kYGzzhZRbK+xOo=".to_string())
    );
    assert_eq!(c.get_response().get_header("upgrade"), Some("websocket".to_string()));
    // The handshake freezes the headers.
    let mut c = c;
    assert!(c.header("x-late", "1").is_err());
}

#[test]
fn handshake_rejects_without_upgrade_header() {
    let context = ws_context(vec![]);
    let (c, proceed) = websocket_handshake(context).expect("handshake");
    assert!(!proceed);
    assert_eq!(c.get_status(), 400);
}

#[test]
fn handshake_rejects_without_key() {
    let context = ws_context(vec![("upgrade", "websocket")]);
    let (c, proceed) = websocket_handshake(context).expect("handshake");
    assert!(!proceed);
    assert_eq!(c.get_status(), 400);
}

#[test]
fn context_carries_request_and_response() {
    let mut c = ws_context(vec![("content-type", "text/plain")]);
    assert_eq!(c.get_path(), "/ws");
    assert_eq!(*c.get_method(), HttpMethod::Get);
    assert_eq!(c.get_header("content-type"), Some("text/plain".to_string()));
    assert!(c.status(204).is_ok());
    assert_eq!(c.get_status(), 204);
    assert!(c.content_type("text/html").is_ok());
    assert!(c.body("done").is_ok());
    assert!(c.header("late", "1").is_err());
}
