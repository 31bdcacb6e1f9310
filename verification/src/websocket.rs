//! The verified part of the websocket upgrade: computing the
//! `Sec-WebSocket-Accept` key and deciding the handshake response.  The
//! upgraded byte stream and its message loop belong to the host around the
//! library.

use vstd::prelude::*;

verus! {

use vstd::string::StringExecFns;
use vstd::string::StringSliceAdditionalSpecFns;
use crate::context::DefaultContext;
use crate::error::{ErrView, EveError};
use crate::request::{pairs_view, spec_find_header_ci};
use crate::response::{
    spec_append_body,
    spec_set_header,
    spec_set_status,
    valid_header_name,
    valid_header_value,
    RespView,
};
use crate::strutil::spec_lower;
use sha1::Digest;

/// The SHA-1 digest of a byte string.
pub uninterp spec fn sha1_of(data: Seq<u8>) -> Seq<u8>;

/// The standard-alphabet, padded base64 rendering of a byte string.
pub uninterp spec fn base64_of(data: Seq<u8>) -> Seq<char>;

/// Relies on the sha1 crate's `Sha1` digest: the result is a function of
/// the input bytes alone and is always 20 bytes long.
#[verifier::external_body]
fn sha1_digest(data: &Vec<u8>) -> (r: Vec<u8>)
    ensures
        r@ == sha1_of(data@),
        r@.len() == 20,
{
    let mut hasher = sha1::Sha1::new();
    hasher.update(data.as_slice());
    hasher.finalize().to_vec()
}

/// Relies on base64's `encode` with the standard configuration: the result
/// is a function of the input bytes alone, four characters for every three
/// input bytes (rounded up, `=`-padded), drawn from `A`-`Z`, `a`-`z`,
/// `0`-`9`, `+`, `/` and `=`, which are all printable ASCII and so
/// wire-safe in a header value.  Encoding panics when the output size
/// overflows `usize`, so the input is kept far below that.
#[verifier::external_body]
fn base64_encode(data: &Vec<u8>) -> (r: String)
    requires
        data@.len() < 0x1000000,
    ensures
        r@ == base64_of(data@),
        r@.len() == ((data@.len() + 2) / 3) * 4,
        valid_header_value(r@),
{
    base64::encode(data.as_slice())
}

/// The fixed websocket GUID appended to the client key before hashing.
pub open spec fn spec_ws_guid() -> Seq<char> {
    "258EAFA5-E914-47DA-95CA-C5AB0DC85B11"@
}

/// The `Sec-WebSocket-Accept` value for a client key.
pub open spec fn spec_accept_key(key: Seq<char>) -> Seq<char> {
    base64_of(sha1_of(vstd::utf8::encode_utf8(key) + vstd::utf8::encode_utf8(spec_ws_guid())))
}

/// Computes the `Sec-WebSocket-Accept` value: the base64 rendering of the
/// SHA-1 digest of the client key followed by the websocket GUID.
pub fn websocket_accept_key(key: &str) -> (r: String)
    ensures
        r@ == spec_accept_key(key@),
        valid_header_value(r@),
{
    let guid = "258EAFA5-E914-47DA-95CA-C5AB0DC85B11";
    let mut input = vstd::slice::slice_to_vec(key.as_bytes());
    let mut guid_bytes = vstd::slice::slice_to_vec(guid.as_bytes());
    input.append(&mut guid_bytes);
    proof {
        assert(input@ =~= vstd::utf8::encode_utf8(key@) + vstd::utf8::encode_utf8(spec_ws_guid()));
    }
    let digest = sha1_digest(&input);
    base64_encode(&digest)
}

/// The response after an accepted handshake: status 101 and the four
/// upgrade headers, with an empty body chunk closing the header phase.
pub open spec fn spec_handshake_response(resp: RespView, accept: Seq<char>) -> RespView {
    spec_append_body(
        spec_set_header(
            spec_set_header(
                spec_set_header(
                    spec_set_header(spec_set_status(resp, 101).0, "Upgrade"@, "websocket"@).0,
                    "Connection"@,
                    "Upgrade"@,
                ).0,
                "Sec-WebSocket-Version"@,
                "13"@,
            ).0,
            "Sec-WebSocket-Accept"@,
            accept,
        ).0,
        Seq::empty(),
    )
}

/// Decides the websocket handshake.  A request without an `Upgrade` header
/// or without a client key is answered with status 400 and not upgraded;
/// otherwise the response performs the 101 upgrade handshake, freezing its
/// headers, and the caller may hand the connection over.  The returned
/// flag says whether to proceed with the upgrade.
pub fn websocket_handshake(context: DefaultContext) -> (r: Result<(DefaultContext, bool), EveError>)
    ensures
        !context.response@.post_body ==> (match r {
            Ok((c, proceed)) => {
                let up = spec_find_header_ci(pairs_view(context.request.headers@), "upgrade"@);
                let kv = spec_find_header_ci(
                    pairs_view(context.request.headers@),
                    "sec-websocket-key"@,
                );
                c.request == context.request && c.body == context.body && (match (up, kv) {
                    (Some(_), Some(k)) => proceed && c.response@ == spec_handshake_response(
                        context.response@,
                        spec_accept_key(k),
                    ),
                    _ => !proceed && c.response@ == spec_set_status(context.response@, 400).0,
                })
            },
            Err(_) => false,
        }),
        context.response@.post_body ==> (r matches Err(e) && e@ == ErrView::StatusSetAfterBody),
{
    proof {
        reveal_strlit("upgrade");
        reveal_strlit("Upgrade");
        reveal_strlit("sec-websocket-key");
        reveal_strlit("Sec-WebSocket-Key");
        reveal_strlit("Connection");
        reveal_strlit("Sec-WebSocket-Version");
        reveal_strlit("Sec-WebSocket-Accept");
        reveal_strlit("websocket");
        reveal_strlit("13");
        assert(spec_lower("Upgrade"@) =~= "upgrade"@);
        assert(spec_lower("Sec-WebSocket-Key"@) =~= "sec-websocket-key"@);
        assert(valid_header_name("Upgrade"@)) by {
            assert(forall|i: int|
                0 <= i < "Upgrade"@.len() ==> crate::response::valid_header_name_char(
                    crate::strutil::spec_lower_char(#[trigger] "Upgrade"@[i]),
                ));
        }
        assert(valid_header_name("Connection"@)) by {
            assert(forall|i: int|
                0 <= i < "Connection"@.len() ==> crate::response::valid_header_name_char(
                    crate::strutil::spec_lower_char(#[trigger] "Connection"@[i]),
                ));
        }
        assert(valid_header_name("Sec-WebSocket-Version"@)) by {
            assert(forall|i: int|
                0 <= i < "Sec-WebSocket-Version"@.len() ==> crate::response::valid_header_name_char(
                    crate::strutil::spec_lower_char(#[trigger] "Sec-WebSocket-Version"@[i]),
                ));
        }
        assert(valid_header_name("Sec-WebSocket-Accept"@)) by {
            assert(forall|i: int|
                0 <= i < "Sec-WebSocket-Accept"@.len() ==> crate::response::valid_header_name_char(
                    crate::strutil::spec_lower_char(#[trigger] "Sec-WebSocket-Accept"@[i]),
                ));
        }
        assert(valid_header_value("websocket"@)) by {
            assert(forall|i: int|
                0 <= i < "websocket"@.len() ==> crate::response::valid_header_value_char(
                    #[trigger] "websocket"@[i],
                ));
        }
        assert(valid_header_value("Upgrade"@)) by {
            assert(forall|i: int|
                0 <= i < "Upgrade"@.len() ==> crate::response::valid_header_value_char(
                    #[trigger] "Upgrade"@[i],
                ));
        }
        assert(valid_header_value("13"@)) by {
            assert(forall|i: int|
                0 <= i < "13"@.len() ==> crate::response::valid_header_value_char(
                    #[trigger] "13"@[i],
                ));
        }
    }
    let ghost ctx0 = context;
    let mut context = context;
    if context.request.get_header("Upgrade").is_none() {
        match context.status(400) {
            Ok(()) => {},
            Err(e) => {
                return Err(e);
            },
        }
        return Ok((context, false));
    }
    let key = match context.request.get_header("Sec-WebSocket-Key") {
        Some(k) => k,
        None => {
            match context.status(400) {
                Ok(()) => {},
                Err(e) => {
                    return Err(e);
                },
            }
            return Ok((context, false));
        },
    };
    match context.status(101) {
        Ok(()) => {},
        Err(e) => {
            return Err(e);
        },
    }
    let accept = websocket_accept_key(key.as_str());
    match context.header("Upgrade", "websocket") {
        Ok(()) => {},
        Err(e) => {
            proof {
                assert(false);
            }
            return Err(e);
        },
    }
    match context.header("Connection", "Upgrade") {
        Ok(()) => {},
        Err(e) => {
            proof {
                assert(false);
            }
            return Err(e);
        },
    }
    match context.header("Sec-WebSocket-Version", "13") {
        Ok(()) => {},
        Err(e) => {
            proof {
                assert(false);
            }
            return Err(e);
        },
    }
    match context.header("Sec-WebSocket-Accept", accept.as_str()) {
        Ok(()) => {},
        Err(e) => {
            proof {
                assert(false);
            }
            return Err(e);
        },
    }
    let empty: Vec<u8> = Vec::new();
    proof {
        assert(empty@ =~= Seq::<u8>::empty());
    }
    match context.append_body_bytes(empty.as_slice()) {
        Ok(()) => {},
        Err(e) => {
            proof {
                assert(false);
            }
            return Err(e);
        },
    }
    proof {
        assert(context.response@ =~= spec_handshake_response(
            ctx0.response@,
            spec_accept_key(key@),
        ));
    }
    Ok((context, true))
}

} // verus!
