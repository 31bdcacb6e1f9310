//! The request, modeled as plain values: the transport collaborator parses
//! the wire format and fills these fields; the core reads them.  The body
//! arrives lazily as chunks that the transport hands to the buffering
//! operations here, which enforce the configured maximum length.

use vstd::prelude::*;

verus! {

use vstd::string::StrSliceExecFns;
use vstd::string::StringExecFns;
use crate::error::{ErrView, EveError};
use crate::http_method::HttpMethod;
use crate::strutil::{spec_dec, spec_lower, str_eq, str_to_lowercase, u64_to_string};

/// The default cap on a buffered request body: 10 MiB.
pub const MAX_REQUEST_LENGTH: usize = 10 * 1024 * 1024;

/// The first header value stored under the name, compared
/// case-insensitively against the already lower-cased `k`.
pub open spec fn spec_find_header_ci(headers: Seq<(Seq<char>, Seq<char>)>, k: Seq<char>) -> Option<
    Seq<char>,
>
    decreases headers.len(),
{
    if headers.len() == 0 {
        None
    } else if spec_lower(headers[0].0) == k {
        Some(headers[0].1)
    } else {
        spec_find_header_ci(headers.drop_first(), k)
    }
}

/// The view of a header or parameter list.
pub open spec fn pairs_view(pairs: Seq<(String, String)>) -> Seq<(Seq<char>, Seq<char>)> {
    pairs.map_values(|p: (String, String)| (p.0@, p.1@))
}

/// How a `content-length` value parses: an optional leading `+`, then one
/// or more decimal digits whose value fits in a `u128`.
pub open spec fn spec_parse_content_length(v: Seq<char>) -> Option<int> {
    let t = if v.len() >= 1 && v[0] == '+' {
        v.drop_first()
    } else {
        v
    };
    if crate::strutil::spec_all_digits(t) && crate::strutil::spec_digits_val(t) <= u128::MAX as int {
        Some(crate::strutil::spec_digits_val(t))
    } else {
        None
    }
}

#[derive(Debug)]
pub struct Request {
    /// The peer address, rendered as text.
    pub remote_addr: String,
    pub method: HttpMethod,
    pub path: String,
    /// The raw query string, without the `?`.
    pub query: String,
    pub scheme: Option<String>,
    pub uri_host: Option<String>,
    pub port: Option<u16>,
    pub authority: Option<String>,
    /// HTTP version as (major, minor).
    pub http_version: (u8, u8),
    /// The header multimap: names and values in wire order, duplicates
    /// kept.
    pub headers: Vec<(String, String)>,
    /// Path captures of the route entry currently running, replaced before
    /// each handler.
    pub params: Vec<(String, String)>,
    /// The body, once buffered.
    pub buffered_body: Option<Vec<u8>>,
    /// The transport's estimate of the body length, used when no parseable
    /// `content-length` header is present.
    pub body_size_hint: u64,
}

impl Request {
    /// A fresh request with no headers, parameters or body.
    pub fn new(remote_addr: String, method: HttpMethod, path: String) -> (r: Request)
        ensures
            r.remote_addr@ == remote_addr@,
            r.method == method,
            r.path@ == path@,
            r.query@.len() == 0,
            r.scheme is None,
            r.uri_host is None,
            r.port is None,
            r.authority is None,
            r.http_version == (1u8, 1u8),
            r.headers@.len() == 0,
            r.params@.len() == 0,
            r.buffered_body is None,
            r.body_size_hint == 0,
    {
        Request {
            remote_addr,
            method,
            path,
            query: String::new(),
            scheme: None,
            uri_host: None,
            port: None,
            authority: None,
            http_version: (1, 1),
            headers: Vec::new(),
            params: Vec::new(),
            buffered_body: None,
            body_size_hint: 0,
        }
    }

    pub fn get_method(&self) -> (r: &HttpMethod)
        ensures
            *r == self.method,
    {
        &self.method
    }

    pub fn get_path(&self) -> (r: String)
        ensures
            r@ == self.path@,
    {
        self.path.clone()
    }

    pub fn get_query(&self) -> (r: &str)
        ensures
            r@ == self.query@,
    {
        self.query.as_str()
    }

    /// The peer address as text.
    pub fn get_ip(&self) -> (r: String)
        ensures
            r@ == self.remote_addr@,
    {
        self.remote_addr.clone()
    }

    pub fn get_version_major(&self) -> (r: u8)
        ensures
            r == self.http_version.0,
    {
        self.http_version.0
    }

    pub fn get_version_minor(&self) -> (r: u8)
        ensures
            r == self.http_version.1,
    {
        self.http_version.1
    }

    /// The version as `major.minor` text.
    pub fn get_version(&self) -> (r: String)
        ensures
            r@ == spec_dec(self.http_version.0 as int) + "."@ + spec_dec(self.http_version.1 as int),
    {
        let mut s = u64_to_string(self.http_version.0 as u64);
        s.append(".");
        let minor = u64_to_string(self.http_version.1 as u64);
        s.append(minor.as_str());
        s
    }

    /// The first header value under the name, compared case-insensitively.
    pub fn get_header(&self, field: &str) -> (r: Option<String>)
        ensures
            match r {
                Some(v) => spec_find_header_ci(pairs_view(self.headers@), spec_lower(field@))
                    == Some(v@),
                None => spec_find_header_ci(pairs_view(self.headers@), spec_lower(field@)) is None,
            },
    {
        let k = str_to_lowercase(field);
        let n = self.headers.len();
        let mut i: usize = 0;
        proof {
            assert(pairs_view(self.headers@).skip(0) =~= pairs_view(self.headers@));
        }
        while i < n
            invariant
                i <= n,
                n == self.headers@.len(),
                k@ == spec_lower(field@),
                spec_find_header_ci(pairs_view(self.headers@).skip(i as int), k@)
                    == spec_find_header_ci(pairs_view(self.headers@), k@),
            decreases n - i,
        {
            let ghost rest = pairs_view(self.headers@).skip(i as int);
            proof {
                assert(rest[0] == pairs_view(self.headers@)[i as int]);
                assert(rest.drop_first() =~= pairs_view(self.headers@).skip(i as int + 1));
            }
            let low = str_to_lowercase(self.headers[i].0.as_str());
            if str_eq(low.as_str(), k.as_str()) {
                return Some(self.headers[i].1.clone());
            }
            i += 1;
        }
        proof {
            assert(pairs_view(self.headers@).skip(n as int).len() == 0);
        }
        None
    }

    /// The whole header multimap.
    pub fn get_headers(&self) -> (r: &Vec<(String, String)>)
        ensures
            r == &self.headers,
    {
        &self.headers
    }

    /// The path captures of the route entry currently running.
    pub fn get_params(&self) -> (r: &Vec<(String, String)>)
        ensures
            r == &self.params,
    {
        &self.params
    }

    /// The first capture value stored under the name.
    pub fn get_param(&self, name: &str) -> (r: Option<String>)
        ensures
            match r {
                Some(v) => crate::response::spec_find_header(pairs_view(self.params@), name@)
                    == Some(v@),
                None => crate::response::spec_find_header(pairs_view(self.params@), name@) is None,
            },
    {
        let n = self.params.len();
        let mut i: usize = 0;
        proof {
            assert(pairs_view(self.params@).skip(0) =~= pairs_view(self.params@));
        }
        while i < n
            invariant
                i <= n,
                n == self.params@.len(),
                crate::response::spec_find_header(pairs_view(self.params@).skip(i as int), name@)
                    == crate::response::spec_find_header(pairs_view(self.params@), name@),
            decreases n - i,
        {
            let ghost rest = pairs_view(self.params@).skip(i as int);
            proof {
                assert(rest[0] == pairs_view(self.params@)[i as int]);
                assert(rest.drop_first() =~= pairs_view(self.params@).skip(i as int + 1));
            }
            if str_eq(self.params[i].0.as_str(), name) {
                return Some(self.params[i].1.clone());
            }
            i += 1;
        }
        proof {
            assert(pairs_view(self.params@).skip(n as int).len() == 0);
        }
        None
    }

    /// The protocol: the URI scheme, else the `x-forwarded-proto` header,
    /// else `http`.
    pub fn get_protocol(&self) -> (r: String)
        ensures
            r@ == (match self.scheme {
                Some(s) => s@,
                None => (match spec_find_header_ci(
                    pairs_view(self.headers@),
                    "x-forwarded-proto"@,
                ) {
                    Some(v) => v,
                    None => "http"@,
                }),
            }),
    {
        proof {
            reveal_strlit("x-forwarded-proto");
            assert(spec_lower("x-forwarded-proto"@) =~= "x-forwarded-proto"@);
        }
        match &self.scheme {
            Some(s) => s.clone(),
            None => {
                match self.get_header("x-forwarded-proto") {
                    Some(v) => v,
                    None => String::from_str("http"),
                }
            },
        }
    }

    /// Whether the protocol is `https`.
    pub fn is_secure(&self) -> (r: bool)
        ensures
            r == ((match self.scheme {
                Some(s) => s@,
                None => (match spec_find_header_ci(
                    pairs_view(self.headers@),
                    "x-forwarded-proto"@,
                ) {
                    Some(v) => v,
                    None => "http"@,
                }),
            }) == "https"@),
    {
        let p = self.get_protocol();
        str_eq(p.as_str(), "https")
    }

    /// The URI host, else the `host` header, else empty.
    pub fn get_host(&self) -> (r: String)
        ensures
            r@ == (match self.uri_host {
                Some(h) => h@,
                None => (match spec_find_header_ci(pairs_view(self.headers@), "host"@) {
                    Some(v) => v,
                    None => Seq::<char>::empty(),
                }),
            }),
    {
        proof {
            reveal_strlit("host");
            assert(spec_lower("host"@) =~= "host"@);
        }
        match &self.uri_host {
            Some(h) => h.clone(),
            None => {
                match self.get_header("host") {
                    Some(v) => v,
                    None => {
                        let empty = String::new();
                        proof {
                            assert(empty@ =~= Seq::<char>::empty());
                        }
                        empty
                    },
                }
            },
        }
    }

    /// The URI host with the port, when one is present.  The request must
    /// carry a URI host.
    pub fn get_host_and_port(&self) -> (r: String)
        requires
            self.uri_host is Some,
        ensures
            r@ == (match self.port {
                Some(p) => self.uri_host.unwrap()@ + ":"@ + spec_dec(p as int),
                None => self.uri_host.unwrap()@,
            }),
    {
        let mut s = match &self.uri_host {
            Some(h) => h.clone(),
            None => String::new(),
        };
        match self.port {
            Some(p) => {
                s.append(":");
                let digits = u64_to_string(p as u64);
                s.append(digits.as_str());
                s
            },
            None => s,
        }
    }

    /// The full URL: scheme and authority when both are present, the
    /// path, and the query string after a `?` when one is present.
    pub fn get_full_url(&self) -> (r: String)
        ensures
            r@ == (match (self.scheme, self.authority) {
                (Some(s), Some(a)) => s@ + "://"@ + a@,
                _ => Seq::<char>::empty(),
            }) + self.path@ + (if self.query@.len() > 0 {
                "?"@ + self.query@
            } else {
                Seq::<char>::empty()
            }),
    {
        let mut out = match (&self.scheme, &self.authority) {
            (Some(s), Some(a)) => {
                let mut o = s.clone();
                o.append("://");
                o.append(a.as_str());
                o
            },
            _ => String::new(),
        };
        out.append(self.path.as_str());
        if self.query.as_str().unicode_len() > 0 {
            out.append("?");
            out.append(self.query.as_str());
        }
        proof {
            assert(out@ =~= (match (self.scheme, self.authority) {
                (Some(s), Some(a)) => s@ + "://"@ + a@,
                _ => Seq::<char>::empty(),
            }) + self.path@ + (if self.query@.len() > 0 {
                "?"@ + self.query@
            } else {
                Seq::<char>::empty()
            }));
        }
        out
    }

    /// The charset named in the content-type header: the text after the
    /// first `charset=` up to the next `;`, when both the header and the
    /// marker are present.
    pub fn get_charset(&self) -> (r: Option<String>)
        ensures
            ({
                let h = spec_find_header_ci(pairs_view(self.headers@), "content-type"@);
                match h {
                    Some(v) => (match crate::strutil::spec_find_sub_from(v, "charset="@, 0) {
                        Some(i) => r matches Some(cs) && cs@ == v.skip(i + 8).take(
                            crate::response::spec_semi_index(v.skip(i + 8)),
                        ),
                        None => r is None,
                    }),
                    None => r is None,
                }
            }),
    {
        proof {
            reveal_strlit("content-type");
            reveal_strlit("charset=");
            assert(spec_lower("content-type"@) =~= "content-type"@);
            assert("charset="@.len() == 8);
        }
        let header = match self.get_header("content-type") {
            Some(v) => v,
            None => {
                return None;
            },
        };
        let start = match crate::strutil::find_sub(header.as_str(), "charset=") {
            Some(i) => i,
            None => {
                return None;
            },
        };
        proof {
            crate::strutil::lemma_find_sub_some(header@, "charset="@, 0, start as int);
        }
        let vlen = header.as_str().unicode_len();
        let rest = header.as_str().substring_char(start + 8, vlen);
        proof {
            assert(rest@ =~= header@.skip(start as int + 8));
        }
        Some(crate::response::before_semi(rest))
    }

    /// The request's length: the `content-length` header when it parses
    /// as a decimal number, the transport's size hint otherwise.
    pub fn get_length(&self) -> (r: u128)
        ensures
            r as int == (match spec_find_header_ci(pairs_view(self.headers@), "content-length"@) {
                Some(v) => (match spec_parse_content_length(v) {
                    Some(n) => n,
                    None => self.body_size_hint as int,
                }),
                None => self.body_size_hint as int,
            }),
    {
        proof {
            reveal_strlit("content-length");
            assert(spec_lower("content-length"@) =~= "content-length"@);
        }
        let header = match self.get_header("content-length") {
            Some(v) => v,
            None => {
                return self.body_size_hint as u128;
            },
        };
        let vlen = header.as_str().unicode_len();
        let digits = if vlen >= 1 && header.as_str().get_char(0) == '+' {
            header.as_str().substring_char(1, vlen)
        } else {
            header.as_str()
        };
        proof {
            if header@.len() >= 1 && header@[0] == '+' {
                assert(digits@ =~= header@.drop_first());
            }
        }
        match crate::strutil::parse_decimal(digits) {
            Some(n) => n,
            None => self.body_size_hint as u128,
        }
    }

    /// Scheme and authority, when both are present.
    pub fn get_origin(&self) -> (r: Option<String>)
        ensures
            match (self.scheme, self.authority) {
                (Some(s), Some(a)) => r matches Some(o) && o@ == s@ + "://"@ + a@,
                _ => r is None,
            },
    {
        match (&self.scheme, &self.authority) {
            (Some(s), Some(a)) => {
                let mut o = s.clone();
                o.append("://");
                o.append(a.as_str());
                Some(o)
            },
            _ => None,
        }
    }

    /// The request's content type up to a `;`, or `unknown` when unset.
    pub fn get_content_type(&self) -> (r: String)
        ensures
            r@ == (match spec_find_header_ci(pairs_view(self.headers@), "content-type"@) {
                Some(v) => v.take(crate::response::spec_semi_index(v)),
                None => "unknown"@,
            }),
    {
        proof {
            reveal_strlit("content-type");
            assert(spec_lower("content-type"@) =~= "content-type"@);
        }
        match self.get_header("content-type") {
            Some(v) => {
                let cut = crate::response::before_semi(v.as_str());
                cut
            },
            None => String::from_str("unknown"),
        }
    }

    /// Whether the request's content type is one of the given MIME types.
    pub fn is(&self, mimes: &[&str]) -> (r: bool)
        ensures
            r == (exists|i: int|
                0 <= i < mimes@.len() && mimes@[i]@ == (match spec_find_header_ci(
                    pairs_view(self.headers@),
                    "content-type"@,
                ) {
                    Some(v) => v.take(crate::response::spec_semi_index(v)),
                    None => "unknown"@,
                })),
    {
        let given = self.get_content_type();
        let n = mimes.len();
        let mut i: usize = 0;
        while i < n
            invariant
                i <= n,
                n == mimes@.len(),
                given@ == (match spec_find_header_ci(pairs_view(self.headers@), "content-type"@) {
                    Some(v) => v.take(crate::response::spec_semi_index(v)),
                    None => "unknown"@,
                }),
                forall|j: int| 0 <= j < i ==> mimes@[j]@ != given@,
            decreases n - i,
    {
            let m = mimes[i];
            if str_eq(m, given.as_str()) {
                return true;
            }
            i += 1;
        }
        false
    }

    // --------------------------------------------------------------
    // Body buffering, with the maximum-length guard
    // --------------------------------------------------------------

    /// Starts buffering: an absent body becomes an empty buffer.
    pub fn begin_body(&mut self)
        ensures
            final(self).buffered_body matches Some(b) && b@ == (match old(self).buffered_body {
                Some(ob) => ob@,
                None => Seq::<u8>::empty(),
            }),
            final(self).remote_addr == old(self).remote_addr,
            final(self).method == old(self).method,
            final(self).path == old(self).path,
            final(self).headers == old(self).headers,
            final(self).params == old(self).params,
    {
        if self.buffered_body.is_none() {
            self.buffered_body = Some(Vec::new());
        }
    }

    /// The number of body bytes buffered so far.
    pub fn buffered_len(&self) -> (r: usize)
        ensures
            r == (match self.buffered_body {
                Some(b) => b@.len(),
                None => 0,
            }),
    {
        match &self.buffered_body {
            Some(b) => b.len(),
            None => 0,
        }
    }

    /// The maximum-length guard, checked before each further read: once
    /// the buffer holds `max_length` bytes or more, reading on is refused
    /// with the payload-too-large error, and only then.
    pub fn check_body_limit(&self, max_length: usize) -> (r: Result<(), EveError>)
        ensures
            match r {
                Ok(()) => (match self.buffered_body {
                    Some(b) => b@.len(),
                    None => 0,
                }) < max_length,
                Err(e) => (match self.buffered_body {
                    Some(b) => b@.len(),
                    None => 0,
                }) >= max_length && e@ == ErrView::RequestPayloadTooLarge {
                    max_length: max_length as int,
                },
            },
    {
        if self.buffered_len() >= max_length {
            Err(EveError::RequestPayloadTooLarge { max_length })
        } else {
            Ok(())
        }
    }

    /// Appends one chunk read from the transport to the buffer.
    pub fn extend_body(&mut self, chunk: &[u8])
        ensures
            final(self).buffered_body matches Some(b) && b@ == (match old(self).buffered_body {
                Some(ob) => ob@,
                None => Seq::<u8>::empty(),
            }) + chunk@,
            final(self).remote_addr == old(self).remote_addr,
            final(self).method == old(self).method,
            final(self).path == old(self).path,
            final(self).headers == old(self).headers,
            final(self).params == old(self).params,
    {
        self.begin_body();
        let mut body_opt: Option<Vec<u8>> = None;
        core::mem::swap(&mut body_opt, &mut self.buffered_body);
        let mut body = match body_opt {
            Some(b) => b,
            None => Vec::new(),
        };
        let ghost before = body@;
        let mut i: usize = 0;
        let n = chunk.len();
        while i < n
            invariant
                i <= n,
                n == chunk@.len(),
                body@ =~= before + chunk@.take(i as int),
            decreases n - i,
        {
            let b = chunk[i];
            body.push(b);
            i += 1;
        }
        proof {
            assert(body@ =~= before + chunk@);
        }
        self.buffered_body = Some(body);
    }

    /// The buffered body bytes.
    pub fn get_buffered_body(&self) -> (r: Option<&Vec<u8>>)
        ensures
            match r {
                Some(b) => self.buffered_body matches Some(ob) && b@ == ob@,
                None => self.buffered_body is None,
            },
    {
        self.buffered_body.as_ref()
    }

    /// The buffered body as text: exactly the UTF-8 decoding of the
    /// buffered bytes, or the invalid-UTF-8 error when they are not valid
    /// UTF-8.  An unbuffered body reads as empty.
    pub fn get_body(&self) -> (r: Result<String, EveError>)
        ensures
            ({
                let bytes = (match self.buffered_body {
                    Some(b) => b@,
                    None => Seq::<u8>::empty(),
                });
                match r {
                    Ok(s) => vstd::utf8::valid_utf8(bytes) && s@ == vstd::utf8::decode_utf8(bytes),
                    Err(e) => !vstd::utf8::valid_utf8(bytes) && e@ == ErrView::RequestBodyInvalidUtf8,
                }
            }),
    {
        let empty: Vec<u8> = Vec::new();
        proof {
            assert(empty@ =~= Seq::<u8>::empty());
        }
        let bytes = match &self.buffered_body {
            Some(b) => b,
            None => &empty,
        };
        match string_from_utf8(bytes) {
            Some(s) => Ok(s),
            None => Err(EveError::RequestBodyInvalidUtf8),
        }
    }
}

/// Relies on `core::str::from_utf8`: it accepts exactly the byte strings
/// that are valid UTF-8 and decodes them without change.
#[verifier::external_body]
fn string_from_utf8(bytes: &Vec<u8>) -> (r: Option<String>)
    ensures
        match r {
            Some(s) => vstd::utf8::valid_utf8(bytes@) && s@ == vstd::utf8::decode_utf8(bytes@),
            None => !vstd::utf8::valid_utf8(bytes@),
        },
{
    core::str::from_utf8(bytes.as_slice()).ok().map(|s| s.to_string())
}

} // verus!
