//! The nine HTTP methods the route table tracks.  Methods outside this set
//! must be rejected by the transport collaborator before they reach the
//! core.

use vstd::prelude::*;

verus! {

use crate::error::EveError;
use crate::strutil::{spec_lower, str_eq_ignore_case};
use vstd::string::StringExecFns;

#[derive(Eq, PartialEq, Structural, Hash, Clone, Copy, Debug)]
pub enum HttpMethod {
    Get,
    Post,
    Put,
    Delete,
    Head,
    Options,
    Connect,
    Patch,
    Trace,
}

/// The canonical upper-case token of each method.
pub open spec fn spec_method_str(m: HttpMethod) -> Seq<char> {
    match m {
        HttpMethod::Get => "GET"@,
        HttpMethod::Post => "POST"@,
        HttpMethod::Put => "PUT"@,
        HttpMethod::Delete => "DELETE"@,
        HttpMethod::Head => "HEAD"@,
        HttpMethod::Options => "OPTIONS"@,
        HttpMethod::Connect => "CONNECT"@,
        HttpMethod::Patch => "PATCH"@,
        HttpMethod::Trace => "TRACE"@,
    }
}

/// Which method a token names, compared case-insensitively; `None` for a
/// token outside the nine known methods.
pub open spec fn spec_parse_method(s: Seq<char>) -> Option<HttpMethod> {
    if spec_lower(s) == "get"@ {
        Some(HttpMethod::Get)
    } else if spec_lower(s) == "post"@ {
        Some(HttpMethod::Post)
    } else if spec_lower(s) == "put"@ {
        Some(HttpMethod::Put)
    } else if spec_lower(s) == "delete"@ {
        Some(HttpMethod::Delete)
    } else if spec_lower(s) == "head"@ {
        Some(HttpMethod::Head)
    } else if spec_lower(s) == "options"@ {
        Some(HttpMethod::Options)
    } else if spec_lower(s) == "connect"@ {
        Some(HttpMethod::Connect)
    } else if spec_lower(s) == "patch"@ {
        Some(HttpMethod::Patch)
    } else if spec_lower(s) == "trace"@ {
        Some(HttpMethod::Trace)
    } else {
        None
    }
}

impl HttpMethod {
    /// The canonical upper-case token of the method.
    pub fn as_str(&self) -> (r: &'static str)
        ensures
            r@ == spec_method_str(*self),
    {
        match self {
            HttpMethod::Get => "GET",
            HttpMethod::Post => "POST",
            HttpMethod::Put => "PUT",
            HttpMethod::Delete => "DELETE",
            HttpMethod::Head => "HEAD",
            HttpMethod::Options => "OPTIONS",
            HttpMethod::Connect => "CONNECT",
            HttpMethod::Patch => "PATCH",
            HttpMethod::Trace => "TRACE",
        }
    }

    /// Parses a method token, case-insensitively.  Returns exactly the
    /// method the token names, and an `UnknownHttpMethod` error carrying
    /// the original token otherwise.
    pub fn from_str(method: &str) -> (r: Result<HttpMethod, EveError>)
        ensures
            match r {
                Ok(m) => spec_parse_method(method@) == Some(m),
                Err(e) => spec_parse_method(method@) is None && e@
                    == crate::error::ErrView::UnknownHttpMethod(method@),
            },
    {
        proof {
            reveal_strlit("get");
            reveal_strlit("post");
            reveal_strlit("put");
            reveal_strlit("delete");
            reveal_strlit("head");
            reveal_strlit("options");
            reveal_strlit("connect");
            reveal_strlit("patch");
            reveal_strlit("trace");
            assert(spec_lower("get"@) =~= "get"@);
            assert(spec_lower("post"@) =~= "post"@);
            assert(spec_lower("put"@) =~= "put"@);
            assert(spec_lower("delete"@) =~= "delete"@);
            assert(spec_lower("head"@) =~= "head"@);
            assert(spec_lower("options"@) =~= "options"@);
            assert(spec_lower("connect"@) =~= "connect"@);
            assert(spec_lower("patch"@) =~= "patch"@);
            assert(spec_lower("trace"@) =~= "trace"@);
        }
        if str_eq_ignore_case(method, "get") {
            Ok(HttpMethod::Get)
        } else if str_eq_ignore_case(method, "post") {
            Ok(HttpMethod::Post)
        } else if str_eq_ignore_case(method, "put") {
            Ok(HttpMethod::Put)
        } else if str_eq_ignore_case(method, "delete") {
            Ok(HttpMethod::Delete)
        } else if str_eq_ignore_case(method, "head") {
            Ok(HttpMethod::Head)
        } else if str_eq_ignore_case(method, "options") {
            Ok(HttpMethod::Options)
        } else if str_eq_ignore_case(method, "connect") {
            Ok(HttpMethod::Connect)
        } else if str_eq_ignore_case(method, "patch") {
            Ok(HttpMethod::Patch)
        } else if str_eq_ignore_case(method, "trace") {
            Ok(HttpMethod::Trace)
        } else {
            Err(EveError::UnknownHttpMethod(String::from_str(method)))
        }
    }
}

} // verus!
