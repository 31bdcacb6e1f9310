//! The execution engine: the selected entries run as a right-to-left
//! continuation chain over a single cursor.  Each step injects the entry's
//! path captures into the request (replacing, not merging, the previous
//! captures) and invokes the handler with a continuation bound to the next
//! entry; a handler that returns without invoking its continuation
//! short-circuits the rest of the chain.  An exhausted chain ends in the
//! designed 404 terminal state naming the unmatched method and path.

use vstd::prelude::*;

verus! {

use std::sync::Arc;
use crate::context::DefaultContext;
use crate::error::{DefaultError, ErrView};
use crate::http_method::{spec_method_str, HttpMethod};
use crate::response::{
    spec_append_body,
    spec_set_header,
    spec_set_status,
    valid_header_value,
    RespView,
};
use crate::router::{entry_views, spec_bucket, spec_match_indices, App, MiddlewareHandler};
use crate::strutil::spec_dec;
use vstd::string::StringExecFns;

/// The body text of the 404 terminal state: it names the unmatched method
/// and path.
pub open spec fn not_found_message(method: HttpMethod, path: Seq<char>) -> Seq<char> {
    "Cannot "@ + spec_method_str(method) + " route "@ + path
}

/// The response after the 404 terminal state, given the date text `d` the
/// clock produced: status 404, content length and date headers, and the
/// not-found message as the single body chunk.
pub open spec fn spec_not_found_terminal(
    resp: RespView,
    method: HttpMethod,
    path: Seq<char>,
    d: Seq<char>,
) -> RespView {
    let msg = vstd::utf8::encode_utf8(not_found_message(method, path));
    spec_append_body(
        spec_set_header(
            spec_set_header(
                spec_set_status(resp, 404).0,
                "content-length"@,
                spec_dec(msg.len() as int),
            ).0,
            "date"@,
            d,
        ).0,
        msg,
    )
}

/// Replaces the request's capture map with exactly the captures of this
/// entry's matcher against the current path — a witness decomposition of
/// an accepted window — or with no captures at all when the matcher does
/// not accept the path.  Earlier entries' captures are not retained.
pub fn inject_captures<TMiddleware>(
    request: &mut crate::request::Request,
    entry: &MiddlewareHandler<TMiddleware>,
)
    ensures
        crate::pattern::pat_matches(entry@.path_match, old(request).path@)
            ==> crate::pattern::pat_captures(
            entry@.path_match,
            old(request).path@,
            crate::pattern::caps_view(final(request).params@),
        ),
        !crate::pattern::pat_matches(entry@.path_match, old(request).path@)
            ==> final(request).params@.len() == 0,
        final(request).remote_addr == old(request).remote_addr,
        final(request).method == old(request).method,
        final(request).path == old(request).path,
        final(request).query == old(request).query,
        final(request).headers == old(request).headers,
        final(request).buffered_body == old(request).buffered_body,
{
    let params = entry.path_match.captures(request.path.as_str());
    request.params = match params {
        Some(ps) => ps,
        None => Vec::new(),
    };
}

/// The continuation bound to the rest of the chain: consuming it runs the
/// chain from the next entry, and is the only way to proceed past the
/// current handler.
pub struct NextHandler<TMiddleware> {
    entries: Arc<Vec<MiddlewareHandler<TMiddleware>>>,
    index: usize,
}

/// A middleware: a handler invoked with the context and the continuation
/// for the rest of the chain.  Implemented by the library's users.
pub trait Middleware: Sized {
    fn run_middleware(&self, context: DefaultContext, next: NextHandler<Self>) -> Result<
        DefaultContext,
        DefaultError,
    >;
}

impl<TMiddleware> NextHandler<TMiddleware> {
    /// Whether the continuation stands past the last entry, so that
    /// consuming it reaches the 404 terminal state.
    pub closed spec fn exhausted(&self) -> bool {
        self.index >= self.entries@.len()
    }
}

impl<TMiddleware: Middleware> NextHandler<TMiddleware> {
    /// Runs the rest of the chain: the next entry's captures are injected
    /// and its handler invoked, and an exhausted continuation yields the
    /// 404 terminal state naming the request's method and path (or the
    /// status error, when the body phase had already begun).
    pub fn call(self, context: DefaultContext) -> (r: Result<DefaultContext, DefaultError>)
        ensures
            self.exhausted() && !context.response@.post_body ==> (r matches Ok(c) && c.request
                == context.request && c.body == context.body && (exists|d: Seq<char>|
                #[trigger] valid_header_value(d) && d.len() >= 1 && c.response@
                    == spec_not_found_terminal(
                    context.response@,
                    context.request.method,
                    context.request.path@,
                    d,
                ))),
            self.exhausted() && context.response@.post_body ==> (r matches Err(e) && e.error@
                == ErrView::StatusSetAfterBody && e.status is None && e.body is None),
    {
        chained_run(context, self.entries, self.index)
    }
}

/// Runs the chain from entry `i`.  For each entry the request's capture
/// map is replaced with exactly that entry's captures before its handler
/// runs.  When the chain is exhausted without a short-circuit, the
/// response reaches the 404 terminal state (or, when the body phase had
/// already begun, the status error is reported instead).
pub fn chained_run<TMiddleware: Middleware>(
    context: DefaultContext,
    nodes: Arc<Vec<MiddlewareHandler<TMiddleware>>>,
    i: usize,
) -> (r: Result<DefaultContext, DefaultError>)
    ensures
        i >= nodes@.len() && !context.response@.post_body ==> (r matches Ok(c) && c.request
            == context.request && c.body == context.body && (exists|d: Seq<char>|
            #[trigger] valid_header_value(d) && d.len() >= 1 && c.response@
                == spec_not_found_terminal(
                context.response@,
                context.request.method,
                context.request.path@,
                d,
            ))),
        i >= nodes@.len() && context.response@.post_body ==> (r matches Err(e) && e.error@
            == ErrView::StatusSetAfterBody && e.status is None && e.body is None),
{
    if i < nodes.len() {
        let mut context = context;
        inject_captures(&mut context.request, &nodes[i]);
        let next = NextHandler { entries: nodes.clone(), index: i + 1 };
        nodes[i].handler.run_middleware(context, next)
    } else {
        let mut context = context;
        let method = *context.request.get_method();
        let path = context.request.get_path();
        match context.response.set_status(404) {
            Ok(()) => {},
            Err(e) => {
                return Err(DefaultError::from_eve_error(e));
            },
        }
        let mut msg = String::from_str("Cannot ");
        msg.append(method.as_str());
        msg.append(" route ");
        msg.append(path.as_str());
        proof {
            assert(msg@ =~= not_found_message(method, context.request.path@));
        }
        match context.response.set_body(msg.as_str()) {
            Ok(()) => {},
            Err(e) => {
                proof {
                    assert(false);
                }
                return Err(DefaultError::from_eve_error(e));
            },
        }
        Ok(context)
    }
}

impl<TMiddleware: Middleware + Clone, TState, TErrorHandler> App<
    TMiddleware,
    TState,
    TErrorHandler,
> {
    /// Dispatches one request: selects the matching entries for its method
    /// and path and runs them as a chain.  When nothing matches and the
    /// body phase has not begun, the result is the 404 terminal state.
    pub fn resolve(&self, context: DefaultContext) -> (r: Result<DefaultContext, DefaultError>)
        ensures
            ({
                let bucket = spec_bucket(*self, context.request.method);
                let idx = spec_match_indices(entry_views(bucket), context.request.path@, 0);
                idx.len() == 0 && !context.response@.post_body ==> (r matches Ok(c) && c.request
                    == context.request && c.body == context.body && (exists|d: Seq<char>|
                    #[trigger] valid_header_value(d) && d.len() >= 1 && c.response@
                        == spec_not_found_terminal(
                        context.response@,
                        context.request.method,
                        context.request.path@,
                        d,
                    )))
            }),
    {
        let method = *context.request.get_method();
        let path = context.request.get_path();
        let stack = self.get_middleware_stack(&method, path.as_str());
        chained_run(context, Arc::new(stack), 0)
    }
}

} // verus!
