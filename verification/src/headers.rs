//! Typed values for a few request headers: the `Authorization` schemes,
//! range units, content encodings and related header shapes.

use vstd::prelude::*;

verus! {

/// A parsed `Authorization` header.
#[derive(Debug)]
pub enum Authorization {
    Basic { username: String, password: String },
    Bearer { token: String },
    Unknown(String),
    /// No authorization header was present.
    Absent,
}

impl Authorization {
    pub fn is_none(&self) -> (r: bool)
        ensures
            r == (self is Absent),
    {
        match self {
            Self::Absent => true,
            _ => false,
        }
    }

    pub fn is_basic(&self) -> (r: bool)
        ensures
            r == (self is Basic),
    {
        match self {
            Self::Basic { .. } => true,
            _ => false,
        }
    }

    /// The username and password of a basic authorization.
    pub fn as_basic(&self) -> (r: Option<(&str, &str)>)
        ensures
            match *self {
                Authorization::Basic { username, password } => r matches Some((u, p)) && u@
                    == username@ && p@ == password@,
                _ => r is None,
            },
    {
        match self {
            Self::Basic { username, password } => Some((username.as_str(), password.as_str())),
            _ => None,
        }
    }

    pub fn is_bearer(&self) -> (r: bool)
        ensures
            r == (self is Bearer),
    {
        match self {
            Self::Bearer { .. } => true,
            _ => false,
        }
    }

    /// The token of a bearer authorization.
    pub fn as_bearer(&self) -> (r: Option<&str>)
        ensures
            match *self {
                Authorization::Bearer { token } => r matches Some(t) && t@ == token@,
                _ => r is None,
            },
    {
        match self {
            Self::Bearer { token } => Some(token.as_str()),
            _ => None,
        }
    }

    pub fn is_unknown(&self) -> (r: bool)
        ensures
            r == (self is Unknown),
    {
        match self {
            Self::Unknown(_) => true,
            _ => false,
        }
    }

    /// The raw value of an unrecognized authorization scheme.
    pub fn as_unknown(&self) -> (r: Option<&str>)
        ensures
            match *self {
                Authorization::Unknown(token) => r matches Some(t) && t@ == token@,
                _ => r is None,
            },
    {
        match self {
            Self::Unknown(token) => Some(token.as_str()),
            _ => None,
        }
    }
}

/// The unit of a `Range` header.
#[derive(Debug)]
pub enum RangeUnit {
    Bytes,
    Other(String),
}

impl RangeUnit {
    /// The unit's wire token.
    pub fn as_str(&self) -> (r: &str)
        ensures
            match *self {
                RangeUnit::Bytes => r@ == "bytes"@,
                RangeUnit::Other(unit) => r@ == unit@,
            },
    {
        match self {
            Self::Bytes => "bytes",
            Self::Other(unit) => unit.as_str(),
        }
    }

    pub fn is_bytes(&self) -> (r: bool)
        ensures
            r == (self is Bytes),
    {
        match self {
            Self::Bytes => true,
            _ => false,
        }
    }
}

/// A parsed `Range` header: the unit and the requested ranges, each a
/// start and end offset.
#[derive(Debug)]
pub struct RangeHeader {
    pub unit: RangeUnit,
    pub ranges: Vec<(u64, u64)>,
}

/// A content or transfer encoding.
#[derive(Debug)]
pub enum Encoding {
    Gzip,
    Compress,
    Deflate,
    Identity,
    Brotli,
    Any,
    Other(String),
}

/// A parsed `Content-Disposition` header.
#[derive(Debug)]
pub enum ContentDisposition {
    Inline,
    Attachment { file_name: String },
    FormData { name: String, file_name: Option<String> },
}

/// A parsed `Connection` header.
#[derive(Debug)]
pub enum ConnectionDirective {
    Close,
    Headers(Vec<String>),
}

} // verus!
