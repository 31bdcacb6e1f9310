use eve_rs::EveError;
use eve_rs::HttpMethod;
use eve_rs::Request;

fn request_with_headers(headers: Vec<(&str, &str)>) -> Request {
    let mut r = Request::new("10.0.0.1:9000".to_string(), HttpMethod::Get, "/p".to_string());
    for (k, v) in headers {
        r.headers.push((k.to_string(), v.to_string()));
    }
    r
}

#[test]
fn header_lookup_is_case_insensitive() {
    let r = request_with_headers(vec![("Content-Type", "application/json")]);
    assert_eq!(r.get_header("content-type"), Some("application/json".to_string()));
    assert_eq!(r.get_header("CONTENT-TYPE"), Some("application/json".to_string()));
    assert_eq!(r.get_header("other"), None);
}

#[test]
fn request_content_type_splits_parameters() {
    let r = request_with_headers(vec![("content-type", "application/json; charset=utf-8")]);
    assert_eq!(r.get_content_type(), "application/json");
    let bare = request_with_headers(vec![]);
    assert_eq!(bare.get_content_type(), "unknown");
}

#[test]
fn is_matches_mime_types() {
    let r = request_with_headers(vec![("content-type", "application/json")]);
    assert!(r.is(&["text/html", "application/json"]));
    assert!(!r.is(&["text/html"]));
}

#[test]
fn protocol_prefers_scheme_then_header() {
    let mut r = request_with_headers(vec![("x-forwarded-proto", "https")]);
    assert_eq!(r.get_protocol(), "https");
    assert!(r.is_secure());
    r.scheme = Some("http".to_string());
    assert_eq!(r.get_protocol(), "http");
    assert!(!r.is_secure());
    let bare = request_with_headers(vec![]);
    assert_eq!(bare.get_protocol(), "http");
}

#[test]
fn host_and_port() {
    let mut r = request_with_headers(vec![("host", "fallback.example")]);
    assert_eq!(r.get_host(), "fallback.example");
    r.uri_host = Some("example.com".to_string());
    assert_eq!(r.get_host(), "example.com");
    assert_eq!(r.get_host_and_port(), "example.com");
    r.port = Some(8080);
    assert_eq!(r.get_host_and_port(), "example.com:8080");
}

#[test]
fn origin_needs_scheme_and_authority() {
    let mut r = request_with_headers(vec![]);
    assert_eq!(r.get_origin(), None);
    r.scheme = Some("https".to_string());
    r.authority = Some("example.com:8443".to_string());
    assert_eq!(r.get_origin(), Some("https://example.com:8443".to_string()));
}

#[test]
fn version_text() {
    let mut r = request_with_headers(vec![]);
    assert_eq!(r.get_version(), "1.1");
    assert_eq!(r.get_version_major(), 1);
    assert_eq!(r.get_version_minor(), 1);
    r.http_version = (2, 0);
    assert_eq!(r.get_version(), "2.0");
}

#[test]
fn body_buffering_enforces_the_limit() {
    let mut r = request_with_headers(vec![]);
    r.begin_body();
    assert!(r.check_body_limit(8).is_ok());
    r.extend_body(b"12345678");
    assert_eq!(r.buffered_len(), 8);
    let over = r.check_body_limit(8);
    assert!(matches!(over, Err(EveError::RequestPayloadTooLarge { max_length: 8 })));
    assert!(r.check_body_limit(9).is_ok());
}

#[test]
fn body_decodes_as_utf8() {
    let mut r = request_with_headers(vec![]);
    r.extend_body("caf\u{e9}".as_bytes());
    assert_eq!(r.get_body().expect("valid utf8"), "caf\u{e9}");
    let mut bad = request_with_headers(vec![]);
    bad.extend_body(&[0xff, 0xfe]);
    assert!(matches!(bad.get_body(), Err(EveError::RequestBodyInvalidUtf8)));
}

#[test]
fn params_lookup() {
    let mut r = request_with_headers(vec![]);
    r.params.push(("id".to_string(), "42".to_string()));
    assert_eq!(r.get_param("id"), Some("42".to_string()));
    assert_eq!(r.get_param("other"), None);
    assert_eq!(r.get_params().len(), 1);
}

#[test]
fn simple_getters() {
    let r = request_with_headers(vec![]);
    assert_eq!(*r.get_method(), HttpMethod::Get);
    assert_eq!(r.get_path(), "/p");
    assert_eq!(r.get_query(), "");
    assert_eq!(r.get_ip(), "10.0.0.1:9000");
}

#[test]
fn full_url_combines_the_parts() {
    let mut r = request_with_headers(vec![]);
    assert_eq!(r.get_full_url(), "/p");
    r.query = "a=1&b=2".to_string();
    assert_eq!(r.get_full_url(), "/p?a=1&b=2");
    r.scheme = Some("https".to_string());
    r.authority = Some("example.com".to_string());
    assert_eq!(r.get_full_url(), "https://example.com/p?a=1&b=2");
}

#[test]
fn charset_is_read_from_the_content_type() {
    let r = request_with_headers(vec![("content-type", "text/html; charset=utf-8")]);
    assert_eq!(r.get_charset(), Some("utf-8".to_string()));
    let trailing = request_with_headers(vec![(
        "content-type",
        "text/html; charset=iso-8859-1; boundary=x",
    )]);
    assert_eq!(trailing.get_charset(), Some("iso-8859-1".to_string()));
    let plain = request_with_headers(vec![("content-type", "text/html")]);
    assert_eq!(plain.get_charset(), None);
    let bare = request_with_headers(vec![]);
    assert_eq!(bare.get_charset(), None);
}

#[test]
fn length_prefers_the_content_length_header() {
    let mut r = request_with_headers(vec![("content-length", "1234")]);
    r.body_size_hint = 9;
    assert_eq!(r.get_length(), 1234);
    let mut plus = request_with_headers(vec![("content-length", "+7")]);
    plus.body_size_hint = 9;
    assert_eq!(plus.get_length(), 7);
    let mut bad = request_with_headers(vec![("content-length", "many")]);
    bad.body_size_hint = 9;
    assert_eq!(bad.get_length(), 9);
    let mut none = request_with_headers(vec![]);
    none.body_size_hint = 5;
    assert_eq!(none.get_length(), 5);
}
