use eve_rs::DefaultError;
use eve_rs::EveError;
use eve_rs::dispatch::default_missing_body;
use eve_rs::dispatch::finalize_error;
use eve_rs::HttpMethod;

#[test]
fn messages_name_the_condition() {
    assert_eq!(
        EveError::StatusSetAfterBody.message(),
        "status cannot be set after body as been sent"
    );
    assert_eq!(
        EveError::HeaderSetAfterBody.message(),
        "headers cannot be set after body as been sent"
    );
    assert_eq!(
        EveError::UnknownHttpMethod("BREW".to_string()).message(),
        "unknown HTTP method `BREW`"
    );
    assert_eq!(
        EveError::RequestPayloadTooLarge { max_length: 1024 }.message(),
        "cannot parse request body as it exceeded the max length of 1024"
    );
    assert_eq!(
        EveError::RequestBodyInvalidUtf8.message(),
        "unable to parse request body bytes as utf8"
    );
    assert_eq!(
        EveError::InvalidResponseHeaderName("Bad Name".to_string()).message(),
        "invalid header name `Bad Name`. Please try to keep your header names to lowercase ASCII characters"
    );
    assert_eq!(EveError::UnknownError("boom".to_string()).message(), "unknown error: boom");
}

#[test]
fn finalize_error_defaults() {
    let err = DefaultError::empty();
    let out = finalize_error(&err);
    assert_eq!(out.status, 500);
    assert_eq!(out.body, b"Internal server error".to_vec());
    assert_eq!(out.headers.len(), 0);
}

#[test]
fn finalize_error_uses_overrides() {
    let err = DefaultError::empty()
        .status(418)
        .body(b"teapot".to_vec())
        .header("x-kind".to_string(), "teapot".to_string());
    let out = finalize_error(&err);
    assert_eq!(out.status, 418);
    assert_eq!(out.body, b"teapot".to_vec());
    assert_eq!(out.headers.len(), 1);
    assert_eq!(out.headers[0].0, "x-kind");
    assert_eq!(out.headers[0].1, "teapot");
}

#[test]
fn error_carrier_builders() {
    let err = DefaultError::from_msg("it broke");
    assert_eq!(err.status_code(), 500);
    assert_eq!(err.body_bytes(), Vec::<u8>::new());
    let err = err.status(400);
    assert_eq!(err.status_code(), 400);
    let err = err.body(b"details".to_vec());
    assert_eq!(err.body_bytes(), b"details".to_vec());
    assert!(matches!(err.error, EveError::UnknownError(_)));
}

#[test]
fn as_result_is_an_error() {
    let r: Result<u32, DefaultError> = DefaultError::as_result();
    assert!(r.is_err());
}

#[test]
fn from_eve_error_keeps_the_condition() {
    let err = DefaultError::from_eve_error(EveError::RequestBodyInvalidFormat);
    assert!(matches!(err.error, EveError::RequestBodyInvalidFormat));
    assert!(err.status.is_none());
}

#[test]
fn missing_body_names_method_and_path() {
    assert_eq!(
        default_missing_body(&HttpMethod::Delete, "/gone"),
        "Could not DELETE route /gone"
    );
}
