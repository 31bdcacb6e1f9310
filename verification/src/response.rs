//! The response, as a phase-tagged state machine.  While the phase is
//! `PreBody` the status and headers may change; the first body chunk
//! irreversibly advances the phase to `PostBody`, after which every status
//! or header mutation is rejected with a typed error and leaves the
//! response unchanged.  Every accepted operation is also recorded as an
//! outbound event for the transport layer to drain, so body chunks stream
//! out without the whole body being buffered here.

use vstd::prelude::*;

verus! {

use vstd::string::StrSliceExecFns;
use vstd::string::StringExecFns;
use vstd::string::StringSliceAdditionalSpecFns;
use crate::error::{ErrView, EveError};
use crate::strutil::{
    lower_char,
    spec_dec,
    spec_lower,
    spec_lower_char,
    str_to_lowercase,
    usize_to_string,
};

/// One outbound event handed to the transport collaborator.
#[derive(Debug)]
pub enum PreBodySenderData {
    Status(u16),
    SetHeader(String, String),
    RemoveHeader(String),
    ClearHeaders,
    BodyChunk(Vec<u8>),
}

/// Specification-level form of an outbound event.
#[verifier::ext_equal]
pub enum EventView {
    Status(u16),
    SetHeader(Seq<char>, Seq<char>),
    RemoveHeader(Seq<char>),
    ClearHeaders,
    BodyChunk(Seq<u8>),
}

impl View for PreBodySenderData {
    type V = EventView;

    open spec fn view(&self) -> EventView {
        match self {
            PreBodySenderData::Status(code) => EventView::Status(*code),
            PreBodySenderData::SetHeader(k, v) => EventView::SetHeader(k@, v@),
            PreBodySenderData::RemoveHeader(k) => EventView::RemoveHeader(k@),
            PreBodySenderData::ClearHeaders => EventView::ClearHeaders,
            PreBodySenderData::BodyChunk(data) => EventView::BodyChunk(data@),
        }
    }
}

/// The two mutually exclusive phases of a response.
#[derive(Eq, PartialEq, Structural, Clone, Copy, Debug)]
pub enum ResponseState {
    PreBody,
    PostBody,
}

/// The response value handlers mutate.
#[derive(Debug)]
pub struct Response {
    pub status: u16,
    pub headers: Vec<(String, String)>,
    pub response_state: ResponseState,
    /// Outbound events not yet drained by the transport layer.
    pub events: Vec<PreBodySenderData>,
}

/// Specification-level form of a response.
#[verifier::ext_equal]
pub struct RespView {
    pub status: u16,
    pub headers: Seq<(Seq<char>, Seq<char>)>,
    pub post_body: bool,
    pub events: Seq<EventView>,
}

/// The view of a header list.
pub open spec fn headers_view(headers: Seq<(String, String)>) -> Seq<(Seq<char>, Seq<char>)> {
    headers.map_values(|p: (String, String)| (p.0@, p.1@))
}

/// The header block without any value stored under `k`.
pub open spec fn drop_header(headers: Seq<(Seq<char>, Seq<char>)>, k: Seq<char>) -> Seq<
    (Seq<char>, Seq<char>),
> {
    headers.filter(|p: (Seq<char>, Seq<char>)| p.0 != k)
}

/// A copy of a header or parameter list.
pub fn clone_pairs(v: &Vec<(String, String)>) -> (r: Vec<(String, String)>)
    ensures
        headers_view(r@) == headers_view(v@),
{
    let mut out: Vec<(String, String)> = Vec::new();
    let n = v.len();
    let mut i: usize = 0;
    while i < n
        invariant
            i <= n,
            n == v@.len(),
            out@.len() == i,
            headers_view(out@) =~= headers_view(v@).take(i as int),
        decreases n - i,
    {
        let ghost before = out@;
        let pair = (v[i].0.clone(), v[i].1.clone());
        let ghost pr = pair;
        out.push(pair);
        proof {
            assert(out@ == before.push(pr));
            assert(out@[i as int] == pr);
            assert(headers_view(out@)[i as int] == (pr.0@, pr.1@));
            assert(pr.0@ == v@[i as int].0@);
            assert(headers_view(out@) =~= headers_view(v@).take(i as int + 1));
        }
        i += 1;
    }
    proof {
        assert(headers_view(out@) =~= headers_view(v@));
    }
    out
}

impl View for Response {
    type V = RespView;

    open spec fn view(&self) -> RespView {
        RespView {
            status: self.status,
            headers: headers_view(self.headers@),
            post_body: self.response_state is PostBody,
            events: self.events@.map_values(|e: PreBodySenderData| e@),
        }
    }
}

// ------------------------------------------------------------------
// Wire safety of header names and values
// ------------------------------------------------------------------

/// Characters allowed in a (lower-cased) header name on the wire.
pub open spec fn valid_header_name_char(c: char) -> bool {
    ('a' <= c && c <= 'z') || ('0' <= c && c <= '9') || c == '!' || c == '#' || c == '$' || c == '%'
        || c == '&' || c == '\'' || c == '*' || c == '+' || c == '-' || c == '.' || c == '^' || c
        == '_' || c == '`' || c == '|' || c == '~'
}

/// A header name is nonempty and, after ASCII lower-casing, made of name
/// characters only.
pub open spec fn valid_header_name(s: Seq<char>) -> bool {
    s.len() >= 1 && forall|i: int| 0 <= i < s.len() ==> valid_header_name_char(spec_lower_char(#[trigger] s[i]))
}

/// Characters allowed in a header value on the wire: horizontal tab,
/// printable ASCII, and everything above delete (non-ASCII text travels
/// in its UTF-8 bytes); only the other control characters are refused.
pub open spec fn valid_header_value_char(c: char) -> bool {
    c == '\t' || (' ' <= c && c <= '~') || c > '\u{7f}'
}

pub open spec fn valid_header_value(s: Seq<char>) -> bool {
    forall|i: int| 0 <= i < s.len() ==> valid_header_value_char(#[trigger] s[i])
}

fn header_name_char_ok(c: char) -> (r: bool)
    ensures
        r == valid_header_name_char(spec_lower_char(c)),
{
    let l = lower_char(c);
    let u = l as u32;
    (97 <= u && u <= 122) || (48 <= u && u <= 57) || l == '!' || l == '#' || l == '$' || l == '%'
        || l == '&' || l == '\'' || l == '*' || l == '+' || l == '-' || l == '.' || l == '^' || l
        == '_' || l == '`' || l == '|' || l == '~'
}

fn header_value_char_ok(c: char) -> (r: bool)
    ensures
        r == valid_header_value_char(c),
{
    let u = c as u32;
    u == 9 || (32 <= u && u <= 126) || u > 127
}

fn check_header_name(s: &str) -> (r: bool)
    ensures
        r == valid_header_name(s@),
{
    let len = s.unicode_len();
    if len == 0 {
        return false;
    }
    let mut i: usize = 0;
    while i < len
        invariant
            i <= len,
            len == s@.len(),
            forall|j: int| 0 <= j < i ==> valid_header_name_char(spec_lower_char(#[trigger] s@[j])),
        decreases len - i,
    {
        if !header_name_char_ok(s.get_char(i)) {
            return false;
        }
        i += 1;
    }
    true
}

fn check_header_value(s: &str) -> (r: bool)
    ensures
        r == valid_header_value(s@),
{
    let len = s.unicode_len();
    let mut i: usize = 0;
    while i < len
        invariant
            i <= len,
            len == s@.len(),
            forall|j: int| 0 <= j < i ==> valid_header_value_char(#[trigger] s@[j]),
        decreases len - i,
    {
        if !header_value_char_ok(s.get_char(i)) {
            return false;
        }
        i += 1;
    }
    true
}

// ------------------------------------------------------------------
// The phase state machine, as spec-level transitions
// ------------------------------------------------------------------

/// Setting the status: recorded while headers are mutable, rejected after
/// body emission began.
pub open spec fn spec_set_status(r: RespView, code: u16) -> (RespView, Option<ErrView>) {
    if r.post_body {
        (r, Some(ErrView::StatusSetAfterBody))
    } else {
        (
            RespView { status: code, events: r.events + seq![EventView::Status(code)], ..r },
            None,
        )
    }
}

/// Setting a header: the name is lower-cased and both name and value must
/// be wire-safe; rejected after body emission began.
pub open spec fn spec_set_header(r: RespView, key: Seq<char>, value: Seq<char>) -> (
    RespView,
    Option<ErrView>,
) {
    if r.post_body {
        (r, Some(ErrView::HeaderSetAfterBody))
    } else if !valid_header_name(key) {
        (r, Some(ErrView::InvalidResponseHeaderName(key)))
    } else if !valid_header_value(value) {
        (r, Some(ErrView::InvalidResponseHeaderValue(key)))
    } else {
        let k = spec_lower(key);
        (
            RespView {
                headers: r.headers + seq![(k, value)],
                events: r.events + seq![EventView::SetHeader(k, value)],
                ..r
            },
            None,
        )
    }
}

/// Removing a header removes every stored value under the (lower-cased)
/// name; rejected after body emission began.
pub open spec fn spec_remove_header(r: RespView, key: Seq<char>) -> (RespView, Option<ErrView>) {
    if r.post_body {
        (r, Some(ErrView::HeaderSetAfterBody))
    } else if !valid_header_name(key) {
        (r, Some(ErrView::InvalidResponseHeaderName(key)))
    } else {
        let k = spec_lower(key);
        (
            RespView {
                headers: r.headers.filter(|p: (Seq<char>, Seq<char>)| p.0 != k),
                events: r.events + seq![EventView::RemoveHeader(k)],
                ..r
            },
            None,
        )
    }
}

/// Clearing all headers; rejected after body emission began.
pub open spec fn spec_clear_headers(r: RespView) -> (RespView, Option<ErrView>) {
    if r.post_body {
        (r, Some(ErrView::HeaderSetAfterBody))
    } else {
        (
            RespView { headers: Seq::empty(), events: r.events + seq![EventView::ClearHeaders], ..r },
            None,
        )
    }
}

/// Appending a body chunk: always accepted, and it advances the phase to
/// body streaming, irreversibly.
pub open spec fn spec_append_body(r: RespView, chunk: Seq<u8>) -> RespView {
    RespView { post_body: true, events: r.events + seq![EventView::BodyChunk(chunk)], ..r }
}

/// The phase invariant: once a body chunk has been emitted the response is
/// in the body phase, and every later status or header mutation is
/// rejected with a phase error and leaves the response unchanged.
pub proof fn law_headers_frozen_after_body(
    r: RespView,
    chunk: Seq<u8>,
    code: u16,
    key: Seq<char>,
    value: Seq<char>,
)
    ensures
        spec_append_body(r, chunk).post_body,
        spec_set_status(spec_append_body(r, chunk), code) == (
            spec_append_body(r, chunk),
            Some(ErrView::StatusSetAfterBody),
        ),
        spec_set_header(spec_append_body(r, chunk), key, value) == (
            spec_append_body(r, chunk),
            Some(ErrView::HeaderSetAfterBody),
        ),
        spec_remove_header(spec_append_body(r, chunk), key) == (
            spec_append_body(r, chunk),
            Some(ErrView::HeaderSetAfterBody),
        ),
        spec_clear_headers(spec_append_body(r, chunk)) == (
            spec_append_body(r, chunk),
            Some(ErrView::HeaderSetAfterBody),
        ),
{
}

// ------------------------------------------------------------------
// The executable response
// ------------------------------------------------------------------

impl Response {
    /// A fresh response: status 200, no headers, headers still mutable.
    pub fn new() -> (r: Response)
        ensures
            r@.status == 200,
            r@.headers.len() == 0,
            !r@.post_body,
            r@.events.len() == 0,
    {
        let r = Response {
            status: 200,
            headers: Vec::new(),
            response_state: ResponseState::PreBody,
            events: Vec::new(),
        };
        proof {
            assert(r@.headers =~= Seq::<(Seq<char>, Seq<char>)>::empty());
            assert(r@.events =~= Seq::<EventView>::empty());
        }
        r
    }

    pub fn get_status(&self) -> (r: u16)
        ensures
            r == self@.status,
    {
        self.status
    }

    /// Drains the accumulated outbound events for the transport layer.
    pub fn take_events(&mut self) -> (r: Vec<PreBodySenderData>)
        ensures
            r@.map_values(|e: PreBodySenderData| e@) == old(self)@.events,
            final(self)@ == (RespView { events: Seq::empty(), ..old(self)@ }),
    {
        let mut out: Vec<PreBodySenderData> = Vec::new();
        core::mem::swap(&mut out, &mut self.events);
        proof {
            assert(self.events@.map_values(|e: PreBodySenderData| e@) =~= Seq::<EventView>::empty());
            assert(final(self)@ =~= (RespView { events: Seq::empty(), ..old(self)@ }));
        }
        out
    }

    pub fn set_status(&mut self, code: u16) -> (r: Result<(), EveError>)
        ensures
            ({
                let (m, e) = spec_set_status(old(self)@, code);
                final(self)@ == m && (match r {
                    Ok(()) => e is None,
                    Err(err) => e == Some(err@),
                })
            }),
    {
        match self.response_state {
            ResponseState::PreBody => {
                let ghost oldv = self@;
                self.events.push(PreBodySenderData::Status(code));
                self.status = code;
                proof {
                    assert(self@.events =~= oldv.events + seq![EventView::Status(code)]);
                    assert(self@ =~= spec_set_status(oldv, code).0);
                }
                Ok(())
            },
            ResponseState::PostBody => Err(EveError::StatusSetAfterBody),
        }
    }

    pub fn set_header(&mut self, key: &str, value: &str) -> (r: Result<(), EveError>)
        ensures
            ({
                let (m, e) = spec_set_header(old(self)@, key@, value@);
                final(self)@ == m && (match r {
                    Ok(()) => e is None,
                    Err(err) => e == Some(err@),
                })
            }),
    {
        match self.response_state {
            ResponseState::PreBody => {
                if !check_header_name(key) {
                    return Err(EveError::InvalidResponseHeaderName(String::from_str(key)));
                }
                if !check_header_value(value) {
                    return Err(EveError::InvalidResponseHeaderValue(String::from_str(key)));
                }
                let ghost oldv = self@;
                let k = str_to_lowercase(key);
                let v = String::from_str(value);
                self.headers.push((k.clone(), v.clone()));
                self.events.push(PreBodySenderData::SetHeader(k, v));
                proof {
                    assert(self@.headers =~= oldv.headers + seq![(spec_lower(key@), value@)]);
                    assert(self@.events =~= oldv.events + seq![
                        EventView::SetHeader(spec_lower(key@), value@),
                    ]);
                    assert(self@ =~= spec_set_header(oldv, key@, value@).0);
                }
                Ok(())
            },
            ResponseState::PostBody => Err(EveError::HeaderSetAfterBody),
        }
    }

    pub fn remove_header(&mut self, key: &str) -> (r: Result<(), EveError>)
        ensures
            ({
                let (m, e) = spec_remove_header(old(self)@, key@);
                final(self)@ == m && (match r {
                    Ok(()) => e is None,
                    Err(err) => e == Some(err@),
                })
            }),
    {
        match self.response_state {
            ResponseState::PreBody => {
                if !check_header_name(key) {
                    return Err(EveError::InvalidResponseHeaderName(String::from_str(key)));
                }
                let ghost oldv = self@;
                let k = str_to_lowercase(key);
                let ghost pred = |p: (Seq<char>, Seq<char>)| p.0 != spec_lower(key@);
                let mut kept: Vec<(String, String)> = Vec::new();
                let n = self.headers.len();
                let mut i: usize = 0;
                while i < n
                    invariant
                        i <= n,
                        n == self.headers@.len(),
                        k@ == spec_lower(key@),
                        pred == (|p: (Seq<char>, Seq<char>)| p.0 != spec_lower(key@)),
                        headers_view(kept@) =~= headers_view(self.headers@).take(i as int).filter(
                            pred,
                        ),
                    decreases n - i,
                {
                    let ghost prefix = headers_view(self.headers@).take(i as int);
                    let ghost longer = headers_view(self.headers@).take(i as int + 1);
                    proof {
                        reveal(Seq::filter);
                        assert(longer.drop_last() =~= prefix);
                        assert(longer.last() == headers_view(self.headers@)[i as int]);
                    }
                    let hk = &self.headers[i].0;
                    let keep = !crate::strutil::str_eq(hk.as_str(), k.as_str());
                    if keep {
                        let pair = (self.headers[i].0.clone(), self.headers[i].1.clone());
                        kept.push(pair);
                        proof {
                            assert(headers_view(kept@) =~= longer.filter(pred));
                        }
                    } else {
                        proof {
                            assert(headers_view(kept@) =~= longer.filter(pred));
                        }
                    }
                    i += 1;
                }
                proof {
                    assert(headers_view(self.headers@).take(n as int) =~= headers_view(
                        self.headers@,
                    ));
                }
                self.headers = kept;
                self.events.push(PreBodySenderData::RemoveHeader(k));
                proof {
                    assert(self@.events =~= oldv.events + seq![
                        EventView::RemoveHeader(spec_lower(key@)),
                    ]);
                    assert(self@ =~= spec_remove_header(oldv, key@).0);
                }
                Ok(())
            },
            ResponseState::PostBody => Err(EveError::HeaderSetAfterBody),
        }
    }

    pub fn clear_headers(&mut self) -> (r: Result<(), EveError>)
        ensures
            ({
                let (m, e) = spec_clear_headers(old(self)@);
                final(self)@ == m && (match r {
                    Ok(()) => e is None,
                    Err(err) => e == Some(err@),
                })
            }),
    {
        match self.response_state {
            ResponseState::PreBody => {
                let ghost oldv = self@;
                self.headers = Vec::new();
                self.events.push(PreBodySenderData::ClearHeaders);
                proof {
                    assert(self@.headers =~= Seq::<(Seq<char>, Seq<char>)>::empty());
                    assert(self@.events =~= oldv.events + seq![EventView::ClearHeaders]);
                    assert(self@ =~= spec_clear_headers(oldv).0);
                }
                Ok(())
            },
            ResponseState::PostBody => Err(EveError::HeaderSetAfterBody),
        }
    }

    /// Appends a body chunk.  The first chunk (even an empty one) closes
    /// the header phase; later chunks simply stream on.
    pub fn append_body_bytes(&mut self, data: &[u8]) -> (r: Result<(), EveError>)
        ensures
            r is Ok,
            final(self)@ == spec_append_body(old(self)@, data@),
    {
        let ghost oldv = self@;
        let chunk = vstd::slice::slice_to_vec(data);
        self.events.push(PreBodySenderData::BodyChunk(chunk));
        self.response_state = ResponseState::PostBody;
        proof {
            assert(self@.events =~= oldv.events + seq![EventView::BodyChunk(data@)]);
            assert(self@ =~= spec_append_body(oldv, data@));
        }
        Ok(())
    }

    /// Appends a body chunk given as text.
    pub fn append_body(&mut self, data: &str) -> (r: Result<(), EveError>)
        ensures
            r is Ok,
            final(self)@ == spec_append_body(old(self)@, data.spec_bytes()),
    {
        self.append_body_bytes(data.as_bytes())
    }
}

// ------------------------------------------------------------------
// Header lookup
// ------------------------------------------------------------------

/// The first stored value under the (lower-cased) header name.
pub open spec fn spec_find_header(headers: Seq<(Seq<char>, Seq<char>)>, k: Seq<char>) -> Option<
    Seq<char>,
>
    decreases headers.len(),
{
    if headers.len() == 0 {
        None
    } else if headers[0].0 == k {
        Some(headers[0].1)
    } else {
        spec_find_header(headers.drop_first(), k)
    }
}

/// The index of the first `;` in `v`, or its length.
pub open spec fn spec_semi_index(v: Seq<char>) -> int
    decreases v.len(),
{
    if v.len() == 0 {
        0
    } else if v[0] == ';' {
        0
    } else {
        1 + spec_semi_index(v.drop_first())
    }
}

proof fn lemma_semi_index_bounds(v: Seq<char>)
    ensures
        0 <= spec_semi_index(v) <= v.len(),
    decreases v.len(),
{
    if v.len() > 0 && v[0] != ';' {
        lemma_semi_index_bounds(v.drop_first());
    }
}

fn semi_index(s: &str, i: usize, len: usize) -> (r: usize)
    requires
        i <= len,
        len == s@.len(),
    ensures
        r - i == spec_semi_index(s@.skip(i as int)),
        r <= len,
    decreases len - i,
{
    proof {
        lemma_semi_index_bounds(s@.skip(i as int));
    }
    if i == len {
        proof {
            assert(s@.skip(i as int).len() == 0);
        }
        i
    } else {
        proof {
            assert(s@.skip(i as int)[0] == s@[i as int]);
            assert(s@.skip(i as int).drop_first() =~= s@.skip(i as int + 1));
        }
        if s.get_char(i) == ';' {
            i
        } else {
            semi_index(s, i + 1, len)
        }
    }
}

/// The text up to the first `;`.
pub fn before_semi(s: &str) -> (r: String)
    ensures
        r@ == s@.take(spec_semi_index(s@)),
{
    let len = s.unicode_len();
    let idx = semi_index(s, 0, len);
    proof {
        assert(s@.skip(0) =~= s@);
    }
    let cut = String::from_str(s.substring_char(0, idx));
    proof {
        assert(cut@ =~= s@.take(spec_semi_index(s@)));
    }
    cut
}

/// Every character of a decimal rendering is wire-safe.
pub proof fn lemma_dec_valid_header_value(n: int)
    requires
        n >= 0,
    ensures
        valid_header_value(spec_dec(n)),
    decreases n,
{
    if n < 10 {
    } else {
        lemma_dec_valid_header_value(n / 10);
        assert forall|i: int| 0 <= i < spec_dec(n).len() implies valid_header_value_char(
            spec_dec(n)[i],
        ) by {
            if i < spec_dec(n / 10).len() {
                assert(spec_dec(n)[i] == spec_dec(n / 10)[i]);
            } else {
                assert(spec_dec(n)[i] == crate::strutil::spec_digit_char(n % 10));
            }
        }
    }
}

// ------------------------------------------------------------------
// Derived response operations
// ------------------------------------------------------------------

/// Relies on chrono's `Local::now` and `DateTime::to_rfc2822`: the rendered
/// date (for example `Tue, 01 Jul 2003 10:52:37 +0200`) is built from fixed
/// English day and month names, decimal digits and `,: +-`, all printable
/// ASCII, so it is always wire-safe as a header value.  Rendering assumes
/// the clock reports a year between 0 and 9999.
#[verifier::external_body]
fn now_rfc2822() -> (r: String)
    ensures
        r@.len() >= 1,
        valid_header_value(r@),
{
    chrono::Local::now().to_rfc2822()
}

impl Response {
    /// The first stored value under the header name, compared
    /// case-insensitively.
    pub fn get_header(&self, field: &str) -> (r: Option<String>)
        ensures
            match r {
                Some(v) => spec_find_header(self@.headers, spec_lower(field@)) == Some(v@),
                None => spec_find_header(self@.headers, spec_lower(field@)) is None,
            },
    {
        let k = str_to_lowercase(field);
        let n = self.headers.len();
        let mut i: usize = 0;
        proof {
            assert(headers_view(self.headers@).skip(0) =~= headers_view(self.headers@));
        }
        while i < n
            invariant
                i <= n,
                n == self.headers@.len(),
                k@ == spec_lower(field@),
                spec_find_header(headers_view(self.headers@).skip(i as int), k@) == spec_find_header(
                    headers_view(self.headers@),
                    k@,
                ),
            decreases n - i,
        {
            let ghost rest = headers_view(self.headers@).skip(i as int);
            proof {
                assert(rest[0] == headers_view(self.headers@)[i as int]);
                assert(rest.drop_first() =~= headers_view(self.headers@).skip(i as int + 1));
            }
            if crate::strutil::str_eq(self.headers[i].0.as_str(), k.as_str()) {
                return Some(self.headers[i].1.clone());
            }
            i += 1;
        }
        proof {
            assert(headers_view(self.headers@).skip(n as int).len() == 0);
        }
        None
    }

    /// Sets the `content-length` header to the decimal length.
    pub fn set_content_length(&mut self, length: usize) -> (r: Result<(), EveError>)
        ensures
            ({
                let (m, e) = spec_set_header(old(self)@, "content-length"@, spec_dec(length as int));
                final(self)@ == m && (match r {
                    Ok(()) => e is None,
                    Err(err) => e == Some(err@),
                })
            }),
    {
        let digits = usize_to_string(length);
        self.set_header("content-length", digits.as_str())
    }

    /// The `Content-Type` header up to a `;`, or `text/plain` when unset.
    pub fn get_content_type(&self) -> (r: String)
        ensures
            r@ == (match spec_find_header(self@.headers, "content-type"@) {
                Some(v) => v.take(spec_semi_index(v)),
                None => "text/plain"@,
            }),
    {
        proof {
            reveal_strlit("content-type");
            reveal_strlit("Content-Type");
            assert(spec_lower("Content-Type"@) =~= "content-type"@);
        }
        match self.get_header("Content-Type") {
            Some(v) => {
                let len = v.as_str().unicode_len();
                let idx = semi_index(v.as_str(), 0, len);
                proof {
                    assert(v@.skip(0) =~= v@);
                }
                let cut = String::from_str(v.as_str().substring_char(0, idx));
                proof {
                    assert(cut@ =~= v@.take(spec_semi_index(v@)));
                }
                cut
            },
            None => String::from_str("text/plain"),
        }
    }

    /// Sets the `Content-Type` header.
    pub fn set_content_type(&mut self, content_type: &str) -> (r: Result<(), EveError>)
        ensures
            ({
                let (m, e) = spec_set_header(old(self)@, "Content-Type"@, content_type@);
                final(self)@ == m && (match r {
                    Ok(()) => e is None,
                    Err(err) => e == Some(err@),
                })
            }),
    {
        self.set_header("Content-Type", content_type)
    }

    /// Sets status 302 and the `Location` header.
    pub fn redirect(&mut self, url: &str) -> (r: Result<(), EveError>)
        ensures
            ({
                let (m1, e1) = spec_set_status(old(self)@, 302);
                if e1 is Some {
                    final(self)@ == m1 && (match r {
                        Ok(()) => false,
                        Err(err) => e1 == Some(err@),
                    })
                } else {
                    let (m2, e2) = spec_set_header(m1, "Location"@, url@);
                    final(self)@ == m2 && (match r {
                        Ok(()) => e2 is None,
                        Err(err) => e2 == Some(err@),
                    })
                }
            }),
    {
        match self.set_status(302) {
            Ok(()) => self.set_header("Location", url),
            Err(e) => Err(e),
        }
    }

    /// The `Content-Disposition` value naming a download, with an optional
    /// file name.
    pub fn attachment(&mut self, file_name: Option<&str>) -> (r: Result<(), EveError>)
        ensures
            ({
                let v = (match file_name {
                    Some(f) => "attachment; filename=\""@ + f@ + "\""@,
                    None => "attachment"@,
                });
                let (m, e) = spec_set_header(old(self)@, "Content-Disposition"@, v);
                final(self)@ == m && (match r {
                    Ok(()) => e is None,
                    Err(err) => e == Some(err@),
                })
            }),
    {
        match file_name {
            Some(f) => {
                let mut v = String::from_str("attachment; filename=\"");
                v.append(f);
                v.append("\"");
                self.set_header("Content-Disposition", v.as_str())
            },
            None => self.set_header("Content-Disposition", "attachment"),
        }
    }

    /// The `Last-Modified` header, when set.
    pub fn get_last_modified(&self) -> (r: Option<String>)
        ensures
            match r {
                Some(v) => spec_find_header(self@.headers, "last-modified"@) == Some(v@),
                None => spec_find_header(self@.headers, "last-modified"@) is None,
            },
    {
        proof {
            reveal_strlit("Last-Modified");
            reveal_strlit("last-modified");
            assert(spec_lower("Last-Modified"@) =~= "last-modified"@);
        }
        self.get_header("Last-Modified")
    }

    /// Sets the `Last-Modified` header.
    pub fn set_last_modified(&mut self, last_modified: &str) -> (r: Result<(), EveError>)
        ensures
            ({
                let (m, e) = spec_set_header(old(self)@, "Last-Modified"@, last_modified@);
                final(self)@ == m && (match r {
                    Ok(()) => e is None,
                    Err(err) => e == Some(err@),
                })
            }),
    {
        self.set_header("Last-Modified", last_modified)
    }

    /// Sets the `ETag` header.
    pub fn set_etag(&mut self, etag: &str) -> (r: Result<(), EveError>)
        ensures
            ({
                let (m, e) = spec_set_header(old(self)@, "ETag"@, etag@);
                final(self)@ == m && (match r {
                    Ok(()) => e is None,
                    Err(err) => e == Some(err@),
                })
            }),
    {
        self.set_header("ETag", etag)
    }

    /// Sets the whole body at once: records the content length and date
    /// headers, then emits the body as the first (and only) chunk.  While
    /// headers are mutable this always succeeds; after body emission it is
    /// rejected like any other header mutation.
    pub fn set_body_bytes(&mut self, data: &[u8]) -> (r: Result<(), EveError>)
        ensures
            old(self)@.post_body ==> (r matches Err(e) && e@ == ErrView::HeaderSetAfterBody
                && final(self)@ == old(self)@),
            !old(self)@.post_body ==> r is Ok && (exists|d: Seq<char>|
                #[trigger] valid_header_value(d) && d.len() >= 1 && final(self)@ == spec_append_body(
                    spec_set_header(
                        spec_set_header(
                            old(self)@,
                            "content-length"@,
                            spec_dec(data@.len() as int),
                        ).0,
                        "date"@,
                        d,
                    ).0,
                    data@,
                )),
    {
        proof {
            reveal_strlit("content-length");
            assert(valid_header_name("content-length"@)) by {
                assert(forall|i: int|
                    0 <= i < "content-length"@.len() ==> valid_header_name_char(
                        spec_lower_char(#[trigger] "content-length"@[i]),
                    ));
            }
            lemma_dec_valid_header_value(data@.len() as int);
            reveal_strlit("date");
            assert(valid_header_name("date"@)) by {
                assert(forall|i: int|
                    0 <= i < "date"@.len() ==> valid_header_name_char(
                        spec_lower_char(#[trigger] "date"@[i]),
                    ));
            }
        }
        match self.set_content_length(data.len()) {
            Ok(()) => {},
            Err(e) => {
                return Err(e);
            },
        }
        let date = now_rfc2822();
        match self.set_header("date", date.as_str()) {
            Ok(()) => {},
            Err(e) => {
                return Err(e);
            },
        }
        self.append_body_bytes(data)
    }

    /// Sets the whole body at once, given as text.
    pub fn set_body(&mut self, data: &str) -> (r: Result<(), EveError>)
        ensures
            old(self)@.post_body ==> (r matches Err(e) && e@ == ErrView::HeaderSetAfterBody
                && final(self)@ == old(self)@),
            !old(self)@.post_body ==> r is Ok && (exists|d: Seq<char>|
                #[trigger] valid_header_value(d) && d.len() >= 1 && final(self)@ == spec_append_body(
                    spec_set_header(
                        spec_set_header(
                            old(self)@,
                            "content-length"@,
                            spec_dec(data.spec_bytes().len() as int),
                        ).0,
                        "date"@,
                        d,
                    ).0,
                    data.spec_bytes(),
                )),
    {
        self.set_body_bytes(data.as_bytes())
    }
}

// ------------------------------------------------------------------
// Status messages
// ------------------------------------------------------------------

/// The reason phrase of each known status code.
pub open spec fn spec_status_message(code: u16) -> Seq<char> {
    if code == 100 {
        "continue"@
    } else if code == 101 {
        "switching protocols"@
    } else if code == 102 {
        "processing"@
    } else if code == 200 {
        "ok"@
    } else if code == 201 {
        "created"@
    } else if code == 202 {
        "accepted"@
    } else if code == 203 {
        "non-authoritative information"@
    } else if code == 204 {
        "no content"@
    } else if code == 205 {
        "reset content"@
    } else if code == 206 {
        "partial content"@
    } else if code == 207 {
        "multi-status"@
    } else if code == 208 {
        "already reported"@
    } else if code == 226 {
        "im used"@
    } else if code == 300 {
        "multiple choices"@
    } else if code == 301 {
        "moved permanently"@
    } else if code == 302 {
        "found"@
    } else if code == 303 {
        "see other"@
    } else if code == 304 {
        "not modified"@
    } else if code == 305 {
        "use proxy"@
    } else if code == 307 {
        "temporary redirect"@
    } else if code == 308 {
        "permanent redirect"@
    } else if code == 400 {
        "bad request"@
    } else if code == 401 {
        "unauthorized"@
    } else if code == 402 {
        "payment required"@
    } else if code == 403 {
        "forbidden"@
    } else if code == 404 {
        "not found"@
    } else if code == 405 {
        "method not allowed"@
    } else if code == 406 {
        "not acceptable"@
    } else if code == 407 {
        "proxy authentication required"@
    } else if code == 408 {
        "request timeout"@
    } else if code == 409 {
        "conflict"@
    } else if code == 410 {
        "gone"@
    } else if code == 411 {
        "length required"@
    } else if code == 412 {
        "precondition failed"@
    } else if code == 413 {
        "payload too large"@
    } else if code == 414 {
        "uri too long"@
    } else if code == 415 {
        "unsupported media type"@
    } else if code == 416 {
        "range not satisfiable"@
    } else if code == 417 {
        "expectation failed"@
    } else if code == 418 {
        "I'm a teapot"@
    } else if code == 422 {
        "unprocessable entity"@
    } else if code == 423 {
        "locked"@
    } else if code == 424 {
        "failed dependency"@
    } else if code == 426 {
        "upgrade required"@
    } else if code == 428 {
        "precondition required"@
    } else if code == 429 {
        "too many requests"@
    } else if code == 431 {
        "request header fields too large"@
    } else if code == 500 {
        "internal server error"@
    } else if code == 501 {
        "not implemented"@
    } else if code == 502 {
        "bad gateway"@
    } else if code == 503 {
        "service unavailable"@
    } else if code == 504 {
        "gateway timeout"@
    } else if code == 505 {
        "http version not supported"@
    } else if code == 506 {
        "variant also negotiates"@
    } else if code == 507 {
        "insufficient storage"@
    } else if code == 508 {
        "loop detected"@
    } else if code == 510 {
        "not extended"@
    } else if code == 511 {
        "network authentication required"@
    } else {
        "unknown"@
    }
}

impl Response {
    /// The reason phrase of the current status.
    pub fn get_status_message(&self) -> (r: &'static str)
        ensures
            r@ == spec_status_message(self@.status),
    {
        match self.status {
            100 => "continue",
            101 => "switching protocols",
            102 => "processing",
            200 => "ok",
            201 => "created",
            202 => "accepted",
            203 => "non-authoritative information",
            204 => "no content",
            205 => "reset content",
            206 => "partial content",
            207 => "multi-status",
            208 => "already reported",
            226 => "im used",
            300 => "multiple choices",
            301 => "moved permanently",
            302 => "found",
            303 => "see other",
            304 => "not modified",
            305 => "use proxy",
            307 => "temporary redirect",
            308 => "permanent redirect",
            400 => "bad request",
            401 => "unauthorized",
            402 => "payment required",
            403 => "forbidden",
            404 => "not found",
            405 => "method not allowed",
            406 => "not acceptable",
            407 => "proxy authentication required",
            408 => "request timeout",
            409 => "conflict",
            410 => "gone",
            411 => "length required",
            412 => "precondition failed",
            413 => "payload too large",
            414 => "uri too long",
            415 => "unsupported media type",
            416 => "range not satisfiable",
            417 => "expectation failed",
            418 => "I'm a teapot",
            422 => "unprocessable entity",
            423 => "locked",
            424 => "failed dependency",
            426 => "upgrade required",
            428 => "precondition required",
            429 => "too many requests",
            431 => "request header fields too large",
            500 => "internal server error",
            501 => "not implemented",
            502 => "bad gateway",
            503 => "service unavailable",
            504 => "gateway timeout",
            505 => "http version not supported",
            506 => "variant also negotiates",
            507 => "insufficient storage",
            508 => "loop detected",
            510 => "not extended",
            511 => "network authentication required",
            _ => "unknown",
        }
    }
}

} // verus!
