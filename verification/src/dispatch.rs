//! Error/dispatch glue: the single place an outbound response is
//! synthesized from a propagated error, and the fold that turns the
//! response's outbound events into the status line and header block the
//! transport writes before the body stream.

use vstd::prelude::*;

verus! {

use vstd::string::StringExecFns;
use vstd::string::StringSliceAdditionalSpecFns;
use crate::error::DefaultError;
use crate::http_method::{spec_method_str, HttpMethod};
use crate::response::{clone_pairs, drop_header, headers_view, EventView, PreBodySenderData};
use crate::strutil::str_eq;

/// The outbound response description handed to the transport: status,
/// header block, body.
#[derive(Debug)]
pub struct ResponseDescription {
    pub status: u16,
    pub headers: Vec<(String, String)>,
    pub body: Vec<u8>,
}

/// Synthesizes the outbound response from a propagated error when no
/// custom error handler is registered: the error's own status (500 when it
/// carries none), its body override (a short generic message when it
/// carries none), and no headers beyond those the error itself specifies.
pub fn finalize_error(err: &DefaultError) -> (r: ResponseDescription)
    ensures
        r.status == (match err.status {
            Some(s) => s,
            None => 500u16,
        }),
        r.body@ == (match err.body {
            Some(b) => b@,
            None => "Internal server error".spec_bytes(),
        }),
        headers_view(r.headers@) == headers_view(err.headers@),
{
    let status = err.status_code();
    let body = match &err.body {
        Some(_) => err.body_bytes(),
        None => vstd::slice::slice_to_vec("Internal server error".as_bytes()),
    };
    let headers = crate::response::clone_pairs(&err.headers);
    ResponseDescription { status, headers, body }
}

/// The fallback body when a request ends without any response: it names
/// the method and path that could not be routed.
pub fn default_missing_body(method: &HttpMethod, path: &str) -> (r: String)
    ensures
        r@ == "Could not "@ + spec_method_str(*method) + " route "@ + path@,
{
    let mut s = String::from_str("Could not ");
    s.append(method.as_str());
    s.append(" route ");
    s.append(path);
    s
}

/// The head of the outbound response after folding a prefix of the event
/// stream: the last status set, the header block (set appends, remove
/// drops every value under the name, clear empties), stopping at the
/// first body chunk, which is returned as the third component.
pub open spec fn spec_assemble_from(
    events: Seq<EventView>,
    status: Option<u16>,
    headers: Seq<(Seq<char>, Seq<char>)>,
) -> (Option<u16>, Seq<(Seq<char>, Seq<char>)>, Option<Seq<u8>>)
    decreases events.len(),
{
    if events.len() == 0 {
        (status, headers, None)
    } else {
        match events[0] {
            EventView::Status(c) => spec_assemble_from(events.drop_first(), Some(c), headers),
            EventView::SetHeader(k, v) => spec_assemble_from(
                events.drop_first(),
                status,
                headers + seq![(k, v)],
            ),
            EventView::RemoveHeader(k) => spec_assemble_from(
                events.drop_first(),
                status,
                drop_header(headers, k),
            ),
            EventView::ClearHeaders => spec_assemble_from(events.drop_first(), status, Seq::empty()),
            EventView::BodyChunk(b) => (status, headers, Some(b)),
        }
    }
}

/// Removes every header stored under `key`.
fn filter_out_header(headers: Vec<(String, String)>, key: &str) -> (r: Vec<(String, String)>)
    ensures
        headers_view(r@) == drop_header(headers_view(headers@), key@),
{
    let ghost pred = |p: (Seq<char>, Seq<char>)| p.0 != key@;
    let mut kept: Vec<(String, String)> = Vec::new();
    let n = headers.len();
    let mut i: usize = 0;
    while i < n
        invariant
            i <= n,
            n == headers@.len(),
            pred == (|p: (Seq<char>, Seq<char>)| p.0 != key@),
            headers_view(kept@) =~= headers_view(headers@).take(i as int).filter(pred),
        decreases n - i,
    {
        let ghost prefix = headers_view(headers@).take(i as int);
        let ghost longer = headers_view(headers@).take(i as int + 1);
        proof {
            reveal(Seq::filter);
            assert(longer.drop_last() =~= prefix);
            assert(longer.last() == headers_view(headers@)[i as int]);
        }
        if !str_eq(headers[i].0.as_str(), key) {
            let pair = (headers[i].0.clone(), headers[i].1.clone());
            kept.push(pair);
            proof {
                assert(headers_view(kept@) =~= longer.filter(pred));
            }
        } else {
            proof {
                assert(headers_view(kept@) =~= longer.filter(pred));
            }
        }
        i += 1;
    }
    proof {
        assert(headers_view(headers@).take(n as int) =~= headers_view(headers@));
    }
    kept
}

/// Folds the drained outbound events into the response head: the status,
/// the header block, and the first body chunk when one was reached.
pub fn assemble_response_head(events: &Vec<PreBodySenderData>) -> (r: (
    Option<u16>,
    Vec<(String, String)>,
    Option<Vec<u8>>,
))
    ensures
        ({
            let (s, h, b) = spec_assemble_from(
                events@.map_values(|e: PreBodySenderData| e@),
                None,
                Seq::empty(),
            );
            r.0 == s && headers_view(r.1@) == h && (match r.2 {
                Some(chunk) => b == Some(chunk@),
                None => b is None,
            })
        }),
{
    let ghost evs = events@.map_values(|e: PreBodySenderData| e@);
    let mut status: Option<u16> = None;
    let mut headers: Vec<(String, String)> = Vec::new();
    let n = events.len();
    let mut i: usize = 0;
    proof {
        assert(evs.skip(0) =~= evs);
        assert(headers_view(headers@) =~= Seq::<(Seq<char>, Seq<char>)>::empty());
    }
    while i < n
        invariant
            i <= n,
            n == events@.len(),
            evs == events@.map_values(|e: PreBodySenderData| e@),
            spec_assemble_from(evs, None, Seq::empty()) == spec_assemble_from(
                evs.skip(i as int),
                status,
                headers_view(headers@),
            ),
        decreases n - i,
    {
        let ghost rest = evs.skip(i as int);
        proof {
            assert(rest[0] == evs[i as int]);
            assert(rest[0] == events@[i as int]@);
            assert(rest.drop_first() =~= evs.skip(i as int + 1));
        }
        match &events[i] {
            PreBodySenderData::Status(code) => {
                status = Some(*code);
            },
            PreBodySenderData::SetHeader(k, v) => {
                let ghost before = headers_view(headers@);
                let pair = (k.clone(), v.clone());
                headers.push(pair);
                proof {
                    assert(headers_view(headers@) =~= before + seq![(k@, v@)]);
                }
            },
            PreBodySenderData::RemoveHeader(k) => {
                let mut taken: Vec<(String, String)> = Vec::new();
                core::mem::swap(&mut taken, &mut headers);
                headers = filter_out_header(taken, k.as_str());
            },
            PreBodySenderData::ClearHeaders => {
                headers = Vec::new();
                proof {
                    assert(headers_view(headers@) =~= Seq::<(Seq<char>, Seq<char>)>::empty());
                }
            },
            PreBodySenderData::BodyChunk(b) => {
                let chunk = crate::strutil::clone_bytes(b);
                return (status, headers, Some(chunk));
            },
        }
        i += 1;
    }
    proof {
        assert(evs.skip(n as int).len() == 0);
    }
    (status, headers, None)
}

} // verus!
