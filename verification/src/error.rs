//! Error values of the dispatch core: the concrete error conditions the
//! core itself can raise, and the error carrier handlers use to report a
//! failure together with an optional status, body override and headers.

use vstd::prelude::*;

verus! {

use vstd::string::StringExecFns;
use crate::strutil::{spec_dec, usize_to_string};

/// The error conditions raised by the core itself.
#[derive(Debug)]
pub enum EveError {
    /// Reading the request body from the socket failed.
    RequestIo(String),
    /// The request body exceeded the configured maximum length.
    RequestPayloadTooLarge { max_length: usize },
    /// The query string could not be parsed in the requested format.
    QueryStringParse(String),
    /// The request body was in no known format.
    RequestBodyInvalidFormat,
    /// The request body was not valid UTF-8.
    RequestBodyInvalidUtf8,
    /// The method token was not one of the nine known methods.
    UnknownHttpMethod(String),
    /// Writing the response to the socket failed.
    ResponseIo(String),
    /// The status was set after body emission began.
    StatusSetAfterBody,
    /// A header was set after body emission began.
    HeaderSetAfterBody,
    /// A response header name held a character that is not allowed on the
    /// wire.
    InvalidResponseHeaderName(String),
    /// A response header value held a character that is not allowed on the
    /// wire.
    InvalidResponseHeaderValue(String),
    /// Any other error, described by a message.
    UnknownError(String),
    /// An internal error reported by the surrounding server machinery.
    ServerError(String),
}

/// Specification-level form of an `EveError`.
#[verifier::ext_equal]
pub enum ErrView {
    RequestIo(Seq<char>),
    RequestPayloadTooLarge { max_length: int },
    QueryStringParse(Seq<char>),
    RequestBodyInvalidFormat,
    RequestBodyInvalidUtf8,
    UnknownHttpMethod(Seq<char>),
    ResponseIo(Seq<char>),
    StatusSetAfterBody,
    HeaderSetAfterBody,
    InvalidResponseHeaderName(Seq<char>),
    InvalidResponseHeaderValue(Seq<char>),
    UnknownError(Seq<char>),
    ServerError(Seq<char>),
}

impl View for EveError {
    type V = ErrView;

    open spec fn view(&self) -> ErrView {
        match self {
            EveError::RequestIo(m) => ErrView::RequestIo(m@),
            EveError::RequestPayloadTooLarge { max_length } => ErrView::RequestPayloadTooLarge {
                max_length: *max_length as int,
            },
            EveError::QueryStringParse(m) => ErrView::QueryStringParse(m@),
            EveError::RequestBodyInvalidFormat => ErrView::RequestBodyInvalidFormat,
            EveError::RequestBodyInvalidUtf8 => ErrView::RequestBodyInvalidUtf8,
            EveError::UnknownHttpMethod(m) => ErrView::UnknownHttpMethod(m@),
            EveError::ResponseIo(m) => ErrView::ResponseIo(m@),
            EveError::StatusSetAfterBody => ErrView::StatusSetAfterBody,
            EveError::HeaderSetAfterBody => ErrView::HeaderSetAfterBody,
            EveError::InvalidResponseHeaderName(m) => ErrView::InvalidResponseHeaderName(m@),
            EveError::InvalidResponseHeaderValue(m) => ErrView::InvalidResponseHeaderValue(m@),
            EveError::UnknownError(m) => ErrView::UnknownError(m@),
            EveError::ServerError(m) => ErrView::ServerError(m@),
        }
    }
}

/// The human-readable description of each error condition.
pub open spec fn spec_error_message(e: ErrView) -> Seq<char> {
    match e {
        ErrView::RequestIo(m) => "error occured while reading from the socket: "@ + m,
        ErrView::RequestPayloadTooLarge { max_length } => "cannot parse request body as it exceeded the max length of "@
            + spec_dec(max_length),
        ErrView::QueryStringParse(_) => "unable to parse query string in the requested format"@,
        ErrView::RequestBodyInvalidFormat => "unable to parse request body. Unknown format"@,
        ErrView::RequestBodyInvalidUtf8 => "unable to parse request body bytes as utf8"@,
        ErrView::UnknownHttpMethod(m) => "unknown HTTP method `"@ + m + "`"@,
        ErrView::ResponseIo(m) => "error occured while writing to the socket: "@ + m,
        ErrView::StatusSetAfterBody => "status cannot be set after body as been sent"@,
        ErrView::HeaderSetAfterBody => "headers cannot be set after body as been sent"@,
        ErrView::InvalidResponseHeaderName(m) => "invalid header name `"@ + m
            + "`. Please try to keep your header names to lowercase ASCII characters"@,
        ErrView::InvalidResponseHeaderValue(m) => "invalid value for header name `"@ + m
            + "`. Please try to keep your headers to printable ASCII characters"@,
        ErrView::UnknownError(m) => "unknown error: "@ + m,
        ErrView::ServerError(m) => "unknown internal server error: "@ + m,
    }
}

impl EveError {
    /// The human-readable description of the error.
    pub fn message(&self) -> (r: String)
        ensures
            r@ == spec_error_message(self@),
    {
        match self {
            EveError::RequestIo(m) => {
                let mut s = String::from_str("error occured while reading from the socket: ");
                s.append(m.as_str());
                s
            },
            EveError::RequestPayloadTooLarge { max_length } => {
                let mut s = String::from_str(
                    "cannot parse request body as it exceeded the max length of ",
                );
                let digits = usize_to_string(*max_length);
                s.append(digits.as_str());
                s
            },
            EveError::QueryStringParse(_) => String::from_str(
                "unable to parse query string in the requested format",
            ),
            EveError::RequestBodyInvalidFormat => String::from_str(
                "unable to parse request body. Unknown format",
            ),
            EveError::RequestBodyInvalidUtf8 => String::from_str(
                "unable to parse request body bytes as utf8",
            ),
            EveError::UnknownHttpMethod(m) => {
                let mut s = String::from_str("unknown HTTP method `");
                s.append(m.as_str());
                s.append("`");
                s
            },
            EveError::ResponseIo(m) => {
                let mut s = String::from_str("error occured while writing to the socket: ");
                s.append(m.as_str());
                s
            },
            EveError::StatusSetAfterBody => String::from_str(
                "status cannot be set after body as been sent",
            ),
            EveError::HeaderSetAfterBody => String::from_str(
                "headers cannot be set after body as been sent",
            ),
            EveError::InvalidResponseHeaderName(m) => {
                let mut s = String::from_str("invalid header name `");
                s.append(m.as_str());
                s.append("`. Please try to keep your header names to lowercase ASCII characters");
                s
            },
            EveError::InvalidResponseHeaderValue(m) => {
                let mut s = String::from_str("invalid value for header name `");
                s.append(m.as_str());
                s.append("`. Please try to keep your headers to printable ASCII characters");
                s
            },
            EveError::UnknownError(m) => {
                let mut s = String::from_str("unknown error: ");
                s.append(m.as_str());
                s
            },
            EveError::ServerError(m) => {
                let mut s = String::from_str("unknown internal server error: ");
                s.append(m.as_str());
                s
            },
        }
    }
}

/// The error carrier handlers return: an optional status and body override
/// for the outbound response, extra headers, and the underlying condition.
#[derive(Debug)]
pub struct DefaultError {
    pub status: Option<u16>,
    pub body: Option<Vec<u8>>,
    pub headers: Vec<(String, String)>,
    pub error: EveError,
}

impl DefaultError {
    /// A fresh carrier with no overrides and an unknown underlying error.
    pub fn empty() -> (r: Self)
        ensures
            r.status is None,
            r.body is None,
            r.headers@.len() == 0,
            r.error@ == ErrView::UnknownError("unknown error"@),
    {
        DefaultError {
            status: None,
            body: None,
            headers: Vec::new(),
            error: EveError::UnknownError(String::from_str("unknown error")),
        }
    }

    /// An `Err` result holding a fresh carrier.
    pub fn as_result<TSuccess>() -> (r: Result<TSuccess, Self>)
        ensures
            r matches Err(e) && e.status is None && e.body is None && e.headers@.len() == 0
                && e.error@ == ErrView::UnknownError("unknown error"@),
    {
        Err(Self::empty())
    }

    /// A carrier for an error described only by a message.
    pub fn from_msg(message: &str) -> (r: Self)
        ensures
            r.status is None,
            r.body is None,
            r.headers@.len() == 0,
            r.error@ == ErrView::UnknownError(message@),
    {
        DefaultError {
            status: None,
            body: None,
            headers: Vec::new(),
            error: EveError::UnknownError(String::from_str(message)),
        }
    }

    /// A carrier wrapping one of the core's own error conditions.
    pub fn from_eve_error(error: EveError) -> (r: Self)
        ensures
            r.status is None,
            r.body is None,
            r.headers@.len() == 0,
            r.error@ == error@,
    {
        DefaultError { status: None, body: None, headers: Vec::new(), error }
    }

    /// Overrides the outbound status.
    pub fn status(self, status: u16) -> (r: Self)
        ensures
            r.status == Some(status),
            r.body == self.body,
            r.headers == self.headers,
            r.error == self.error,
    {
        DefaultError { status: Some(status), ..self }
    }

    /// Overrides the outbound body.
    pub fn body(self, body: Vec<u8>) -> (r: Self)
        ensures
            r.status == self.status,
            r.body matches Some(b) && b@ == body@,
            r.headers == self.headers,
            r.error == self.error,
    {
        DefaultError { body: Some(body), ..self }
    }

    /// Appends an outbound header.
    pub fn header(self, key: String, value: String) -> (r: Self)
        ensures
            r.status == self.status,
            r.body == self.body,
            r.headers@ == self.headers@ + seq![(key, value)],
            r.error == self.error,
    {
        let mut headers = self.headers;
        let ghost old_headers = headers@;
        headers.push((key, value));
        proof {
            assert(headers@ =~= old_headers + seq![(key, value)]);
        }
        DefaultError { headers, ..self }
    }

    /// The outbound status: the override, or 500.
    pub fn status_code(&self) -> (r: u16)
        ensures
            r == (match self.status {
                Some(s) => s,
                None => 500u16,
            }),
    {
        match self.status {
            Some(s) => s,
            None => 500,
        }
    }

    /// The outbound body override, or empty.
    pub fn body_bytes(&self) -> (r: Vec<u8>)
        ensures
            r@ == (match self.body {
                Some(b) => b@,
                None => Seq::<u8>::empty(),
            }),
    {
        match &self.body {
            Some(b) => {
                let mut out: Vec<u8> = Vec::new();
                let mut i: usize = 0;
                let n = b.len();
                while i < n
                    invariant
                        i <= n,
                        n == b@.len(),
                        out@ =~= b@.take(i as int),
                    decreases n - i,
                {
                    out.push(b[i]);
                    i += 1;
                }
                proof {
                    assert(out@ =~= b@);
                }
                out
            },
            None => Vec::new(),
        }
    }

    /// The extra outbound headers.
    pub fn headers(&self) -> (r: &Vec<(String, String)>)
        ensures
            r == &self.headers,
    {
        &self.headers
    }
}

} // verus!
