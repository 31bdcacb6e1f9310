//! The per-request context handed to every handler: the request, the
//! response, and an optional parsed body object that body-parsing
//! middlewares may deposit for later handlers.

use vstd::prelude::*;

verus! {

use vstd::string::StringSliceAdditionalSpecFns;
use crate::error::EveError;
use crate::http_method::HttpMethod;
use crate::request::Request;
use crate::response::{
    spec_set_header,
    spec_set_status,
    Response,
};

/// Declares serde_json's `Value` so a context can carry a parsed body
/// object through the chain.  The core never looks inside it.
#[verifier::external_type_specification]
#[verifier::external_body]
pub struct ExValue(serde_json::Value);

#[derive(Debug)]
pub struct DefaultContext {
    pub request: Request,
    pub response: Response,
    /// A parsed body object deposited by a body-parsing middleware.
    pub body: Option<serde_json::Value>,
}

impl DefaultContext {
    pub fn new(request: Request, response: Response) -> (r: DefaultContext)
        ensures
            r.request == request,
            r.response == response,
            r.body is None,
    {
        DefaultContext { request, response, body: None }
    }

    pub fn get_request(&self) -> (r: &Request)
        ensures
            r == &self.request,
    {
        &self.request
    }

    pub fn get_response(&self) -> (r: &Response)
        ensures
            r == &self.response,
    {
        &self.response
    }

    pub fn get_body_object(&self) -> (r: &Option<serde_json::Value>)
        ensures
            r == &self.body,
    {
        &self.body
    }

    pub fn set_body_object(&mut self, body: serde_json::Value)
        ensures
            final(self).body == Some(body),
            final(self).request == old(self).request,
            final(self).response == old(self).response,
    {
        self.body = Some(body);
    }

    pub fn get_method(&self) -> (r: &HttpMethod)
        ensures
            *r == self.request.method,
    {
        self.request.get_method()
    }

    pub fn get_path(&self) -> (r: String)
        ensures
            r@ == self.request.path@,
    {
        self.request.get_path()
    }

    pub fn get_status(&self) -> (r: u16)
        ensures
            r == self.response@.status,
    {
        self.response.get_status()
    }

    pub fn get_query_string(&self) -> (r: &str)
        ensures
            r@ == self.request.query@,
    {
        self.request.get_query()
    }

    /// Sets the response status.
    pub fn status(&mut self, code: u16) -> (r: Result<(), EveError>)
        ensures
            final(self).request == old(self).request,
            final(self).body == old(self).body,
            ({
                let (m, e) = spec_set_status(old(self).response@, code);
                final(self).response@ == m && (match r {
                    Ok(()) => e is None,
                    Err(err) => e == Some(err@),
                })
            }),
    {
        self.response.set_status(code)
    }

    /// Sets a response header.
    pub fn header(&mut self, key: &str, value: &str) -> (r: Result<(), EveError>)
        ensures
            final(self).request == old(self).request,
            final(self).body == old(self).body,
            ({
                let (m, e) = spec_set_header(old(self).response@, key@, value@);
                final(self).response@ == m && (match r {
                    Ok(()) => e is None,
                    Err(err) => e == Some(err@),
                })
            }),
    {
        self.response.set_header(key, value)
    }

    /// Removes a response header.
    pub fn remove_header(&mut self, key: &str) -> (r: Result<(), EveError>)
        ensures
            final(self).request == old(self).request,
            final(self).body == old(self).body,
            ({
                let (m, e) = crate::response::spec_remove_header(old(self).response@, key@);
                final(self).response@ == m && (match r {
                    Ok(()) => e is None,
                    Err(err) => e == Some(err@),
                })
            }),
    {
        self.response.remove_header(key)
    }

    /// Sets the response content type.
    pub fn content_type(&mut self, content_type: &str) -> (r: Result<(), EveError>)
        ensures
            final(self).request == old(self).request,
            final(self).body == old(self).body,
            ({
                let (m, e) = spec_set_header(old(self).response@, "Content-Type"@, content_type@);
                final(self).response@ == m && (match r {
                    Ok(()) => e is None,
                    Err(err) => e == Some(err@),
                })
            }),
    {
        self.response.set_content_type(content_type)
    }

    /// Sets the response content length.
    pub fn content_length(&mut self, length: usize) -> (r: Result<(), EveError>)
        ensures
            final(self).request == old(self).request,
            final(self).body == old(self).body,
            ({
                let (m, e) = spec_set_header(
                    old(self).response@,
                    "content-length"@,
                    crate::strutil::spec_dec(length as int),
                );
                final(self).response@ == m && (match r {
                    Ok(()) => e is None,
                    Err(err) => e == Some(err@),
                })
            }),
    {
        self.response.set_content_length(length)
    }

    /// Redirects to the URL with status 302.
    pub fn redirect(&mut self, destination: &str) -> (r: Result<(), EveError>)
        ensures
            final(self).request == old(self).request,
            final(self).body == old(self).body,
            ({
                let (m1, e1) = spec_set_status(old(self).response@, 302);
                if e1 is Some {
                    final(self).response@ == m1 && (match r {
                        Ok(()) => false,
                        Err(err) => e1 == Some(err@),
                    })
                } else {
                    let (m2, e2) = spec_set_header(m1, "Location"@, destination@);
                    final(self).response@ == m2 && (match r {
                        Ok(()) => e2 is None,
                        Err(err) => e2 == Some(err@),
                    })
                }
            }),
    {
        self.response.redirect(destination)
    }

    /// Emits the whole response body at once: the content-length and date
    /// headers are recorded, then the text goes out as the single body
    /// chunk.
    pub fn body(&mut self, string: &str) -> (r: Result<(), EveError>)
        ensures
            final(self).request == old(self).request,
            final(self).body == old(self).body,
            old(self).response@.post_body ==> (r matches Err(e) && e@
                == crate::error::ErrView::HeaderSetAfterBody
                && final(self).response@ == old(self).response@),
            !old(self).response@.post_body ==> r is Ok && (exists|d: Seq<char>|
                #[trigger] crate::response::valid_header_value(d) && d.len() >= 1
                && final(self).response@ == crate::response::spec_append_body(
                    spec_set_header(
                        spec_set_header(
                            old(self).response@,
                            "content-length"@,
                            crate::strutil::spec_dec(string.spec_bytes().len() as int),
                        ).0,
                        "date"@,
                        d,
                    ).0,
                    string.spec_bytes(),
                )),
    {
        self.response.set_body(string)
    }

    /// Emits the whole response body at once, as bytes: the content-length
    /// and date headers are recorded, then the bytes go out as the single
    /// body chunk.
    pub fn body_bytes(&mut self, bytes: &[u8]) -> (r: Result<(), EveError>)
        ensures
            final(self).request == old(self).request,
            final(self).body == old(self).body,
            old(self).response@.post_body ==> (r matches Err(e) && e@
                == crate::error::ErrView::HeaderSetAfterBody
                && final(self).response@ == old(self).response@),
            !old(self).response@.post_body ==> r is Ok && (exists|d: Seq<char>|
                #[trigger] crate::response::valid_header_value(d) && d.len() >= 1
                && final(self).response@ == crate::response::spec_append_body(
                    spec_set_header(
                        spec_set_header(
                            old(self).response@,
                            "content-length"@,
                            crate::strutil::spec_dec(bytes@.len() as int),
                        ).0,
                        "date"@,
                        d,
                    ).0,
                    bytes@,
                )),
    {
        self.response.set_body_bytes(bytes)
    }

    /// Appends a body chunk, closing the header phase if still open.
    pub fn append_body_bytes(&mut self, bytes: &[u8]) -> (r: Result<(), EveError>)
        ensures
            r is Ok,
            final(self).request == old(self).request,
            final(self).body == old(self).body,
            final(self).response@ == crate::response::spec_append_body(
                old(self).response@,
                bytes@,
            ),
    {
        self.response.append_body_bytes(bytes)
    }

    /// The first request header under the name.
    pub fn get_header(&self, key: &str) -> (r: Option<String>)
        ensures
            match r {
                Some(v) => crate::request::spec_find_header_ci(
                    crate::request::pairs_view(self.request.headers@),
                    crate::strutil::spec_lower(key@),
                ) == Some(v@),
                None => crate::request::spec_find_header_ci(
                    crate::request::pairs_view(self.request.headers@),
                    crate::strutil::spec_lower(key@),
                ) is None,
            },
    {
        self.request.get_header(key)
    }
}

} // verus!
