use eve_rs::EveError;
use eve_rs::Response;
use eve_rs::dispatch::assemble_response_head;

#[test]
fn headers_freeze_after_body() {
    let mut r = Response::new();
    assert!(r.set_header("X-Test", "1").is_ok());
    assert!(r.append_body_bytes(b"hi").is_ok());
    let late = r.set_header("X-Late", "2");
    assert!(matches!(late, Err(EveError::HeaderSetAfterBody)));
    assert_eq!(r.get_header("X-Test"), Some("1".to_string()));
    assert_eq!(r.get_header("X-Late"), None);
}

#[test]
fn status_freezes_after_body() {
    let mut r = Response::new();
    assert!(r.set_status(204).is_ok());
    assert!(r.append_body_bytes(b"").is_ok());
    assert!(matches!(r.set_status(500), Err(EveError::StatusSetAfterBody)));
    assert_eq!(r.get_status(), 204);
}

#[test]
fn empty_chunk_closes_header_phase() {
    let mut r = Response::new();
    assert!(r.append_body_bytes(b"").is_ok());
    assert!(matches!(r.remove_header("a"), Err(EveError::HeaderSetAfterBody)));
    assert!(matches!(r.clear_headers(), Err(EveError::HeaderSetAfterBody)));
}

#[test]
fn header_names_are_lowercased() {
    let mut r = Response::new();
    assert!(r.set_header("Content-Type", "text/html").is_ok());
    assert_eq!(r.headers[0].0, "content-type");
    assert_eq!(r.get_header("CONTENT-TYPE"), Some("text/html".to_string()));
}

#[test]
fn invalid_header_names_and_values_are_rejected() {
    let mut r = Response::new();
    assert!(matches!(
        r.set_header("bad name", "v"),
        Err(EveError::InvalidResponseHeaderName(_))
    ));
    assert!(matches!(
        r.set_header("", "v"),
        Err(EveError::InvalidResponseHeaderName(_))
    ));
    assert!(matches!(
        r.set_header("name", "bad\nvalue"),
        Err(EveError::InvalidResponseHeaderValue(_))
    ));
    assert_eq!(r.headers.len(), 0);
}

#[test]
fn remove_header_drops_every_value() {
    let mut r = Response::new();
    assert!(r.set_header("a", "1").is_ok());
    assert!(r.set_header("a", "2").is_ok());
    assert!(r.set_header("b", "3").is_ok());
    assert!(r.remove_header("A").is_ok());
    assert_eq!(r.get_header("a"), None);
    assert_eq!(r.get_header("b"), Some("3".to_string()));
    assert_eq!(r.headers.len(), 1);
}

#[test]
fn duplicate_headers_are_kept_in_order() {
    let mut r = Response::new();
    assert!(r.set_header("set-cookie", "a=1").is_ok());
    assert!(r.set_header("set-cookie", "b=2").is_ok());
    assert_eq!(r.headers.len(), 2);
    assert_eq!(r.get_header("set-cookie"), Some("a=1".to_string()));
}

#[test]
fn content_length_is_decimal() {
    let mut r = Response::new();
    assert!(r.set_content_length(1234).is_ok());
    assert_eq!(r.get_header("content-length"), Some("1234".to_string()));
}

#[test]
fn content_type_splits_parameters() {
    let mut r = Response::new();
    assert!(r.set_content_type("text/html; charset=utf-8").is_ok());
    assert_eq!(r.get_content_type(), "text/html");
    let fresh = Response::new();
    assert_eq!(fresh.get_content_type(), "text/plain");
}

#[test]
fn redirect_sets_status_and_location() {
    let mut r = Response::new();
    assert!(r.redirect("/there").is_ok());
    assert_eq!(r.get_status(), 302);
    assert_eq!(r.get_header("location"), Some("/there".to_string()));
}

#[test]
fn attachment_header_values() {
    let mut r = Response::new();
    assert!(r.attachment(Some("report.pdf")).is_ok());
    assert_eq!(
        r.get_header("content-disposition"),
        Some("attachment; filename=\"report.pdf\"".to_string())
    );
    let mut plain = Response::new();
    assert!(plain.attachment(None).is_ok());
    assert_eq!(plain.get_header("content-disposition"), Some("attachment".to_string()));
}

#[test]
fn set_body_records_length_and_date() {
    let mut r = Response::new();
    assert!(r.set_body("hello").is_ok());
    assert_eq!(r.get_header("content-length"), Some("5".to_string()));
    assert!(r.get_header("date").is_some());
    assert!(matches!(r.set_body("again"), Err(EveError::HeaderSetAfterBody)));
}

#[test]
fn status_messages() {
    let mut r = Response::new();
    assert_eq!(r.get_status_message(), "ok");
    assert!(r.set_status(404).is_ok());
    assert_eq!(r.get_status_message(), "not found");
    assert!(r.set_status(418).is_ok());
    assert_eq!(r.get_status_message(), "I'm a teapot");
    assert!(r.set_status(999).is_ok());
    assert_eq!(r.get_status_message(), "unknown");
}

#[test]
fn events_replay_into_the_outbound_head() {
    let mut r = Response::new();
    assert!(r.set_status(201).is_ok());
    assert!(r.set_header("a", "1").is_ok());
    assert!(r.set_header("b", "2").is_ok());
    assert!(r.remove_header("a").is_ok());
    assert!(r.append_body_bytes(b"payload").is_ok());
    let events = r.take_events();
    let (status, headers, first_chunk) = assemble_response_head(&events);
    assert_eq!(status, Some(201));
    assert_eq!(headers.len(), 1);
    assert_eq!(headers[0].0, "b");
    assert_eq!(headers[0].1, "2");
    assert_eq!(first_chunk, Some(b"payload".to_vec()));
    assert_eq!(r.events.len(), 0);
}

#[test]
fn clear_headers_empties_the_head() {
    let mut r = Response::new();
    assert!(r.set_header("a", "1").is_ok());
    assert!(r.clear_headers().is_ok());
    let events = r.take_events();
    let (_status, headers, _chunk) = assemble_response_head(&events);
    assert_eq!(headers.len(), 0);
}

#[test]
fn header_values_may_hold_text_above_ascii()
{
    let mut r = Response::new();
    assert!(r.set_header("x-greeting", "gr\u{fc}\u{df} dich").is_ok());
    assert_eq!(r.get_header("x-greeting"), Some("gr\u{fc}\u{df} dich".to_string()));
    assert!(matches!(
        r.set_header("x-bad", "a\u{7f}b"),
        Err(EveError::InvalidResponseHeaderValue(_))
    ));
}
