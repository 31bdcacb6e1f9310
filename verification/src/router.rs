//! The route table: per-method ordered lists of registered entries,
//! append-only, with use-style registration across all methods and
//! mounting of a sub-table under a base path.  Selection returns, in
//! registration order, every entry of a method's bucket whose matcher
//! accepts the path.

use vstd::prelude::*;

verus! {

use crate::http_method::HttpMethod;
use crate::pattern::{
    pat_matches,
    spec_compile,
    spec_normalize_template,
    Matcher,
    MatcherView,
    normalize_template,
};
use vstd::string::StringExecFns;

/// One registered route: the compiled matcher, the normalized mount path
/// it was compiled from, the anchoring flag, and the handler.
#[derive(Debug)]
pub struct MiddlewareHandler<TMiddleware> {
    pub is_endpoint: bool,
    pub mounted_url: String,
    pub path_match: Matcher,
    pub handler: TMiddleware,
}

/// Specification-level form of a route entry, without the handler.
#[verifier::ext_equal]
pub struct EntryView {
    pub is_endpoint: bool,
    pub mounted_url: Seq<char>,
    pub path_match: MatcherView,
}

impl<TMiddleware> View for MiddlewareHandler<TMiddleware> {
    type V = EntryView;

    open spec fn view(&self) -> EntryView {
        EntryView {
            is_endpoint: self.is_endpoint,
            mounted_url: self.mounted_url@,
            path_match: self.path_match@,
        }
    }
}

/// The views of a whole bucket.
pub open spec fn entry_views<TMiddleware>(stack: Seq<MiddlewareHandler<TMiddleware>>) -> Seq<
    EntryView,
> {
    stack.map_values(|e: MiddlewareHandler<TMiddleware>| e@)
}

impl<TMiddleware: Clone> Clone for MiddlewareHandler<TMiddleware> {
    fn clone(&self) -> (r: Self)
        ensures
            r@ == self@,
            cloned::<TMiddleware>(self.handler, r.handler),
    {
        let r = MiddlewareHandler {
            is_endpoint: self.is_endpoint,
            mounted_url: self.mounted_url.clone(),
            path_match: self.path_match.clone(),
            handler: self.handler.clone(),
        };
        proof {
            assert(r@ =~= self@);
        }
        r
    }
}

impl<TMiddleware> MiddlewareHandler<TMiddleware> {
    /// Compiles the template and records the entry, per the pattern
    /// compiler's contract: the stored mount path is the normalized
    /// template, the matcher its compiled form, anchored exactly for
    /// endpoint routes.
    pub fn new(path: &str, handler: TMiddleware, is_endpoint: bool) -> (r: Self)
        ensures
            r.is_endpoint == is_endpoint,
            r.mounted_url@ == spec_normalize_template(path@),
            r.path_match@ == spec_compile(path@, is_endpoint),
            r.handler == handler,
    {
        let mounted_url = normalize_template(path);
        let path_match = Matcher::compile(mounted_url.as_str(), is_endpoint);
        MiddlewareHandler { is_endpoint, mounted_url, path_match, handler }
    }

    /// Whether the entry's matcher accepts the path.
    pub fn is_match(&self, url: &str) -> (r: bool)
        ensures
            r == pat_matches(self@.path_match, url@),
    {
        self.path_match.is_match(url)
    }
}

/// That `new_stack` extends `old_stack` with one entry per handler, all
/// compiled from `path` with the given anchoring, in order.
pub open spec fn spec_registered<TMiddleware: Clone>(
    old_stack: Seq<MiddlewareHandler<TMiddleware>>,
    new_stack: Seq<MiddlewareHandler<TMiddleware>>,
    path: Seq<char>,
    handlers: Seq<TMiddleware>,
    is_endpoint: bool,
) -> bool {
    new_stack.len() == old_stack.len() + handlers.len() && (forall|k: int|
        0 <= k < old_stack.len() ==> new_stack[k] == old_stack[k]) && (forall|k: int|
        0 <= k < handlers.len() ==> (#[trigger] new_stack[old_stack.len() + k])@ == (EntryView {
            is_endpoint,
            mounted_url: spec_normalize_template(path),
            path_match: spec_compile(path, is_endpoint),
        }) && cloned::<TMiddleware>(handlers[k], new_stack[old_stack.len() + k].handler))
}

/// That `new_stack` extends `old_stack` with the entries of `sub`, each
/// recompiled under the mount prefix `base`, in the sub-table's order.
pub open spec fn spec_mounted<TMiddleware>(
    old_stack: Seq<MiddlewareHandler<TMiddleware>>,
    new_stack: Seq<MiddlewareHandler<TMiddleware>>,
    base: Seq<char>,
    sub: Seq<MiddlewareHandler<TMiddleware>>,
) -> bool {
    new_stack.len() == old_stack.len() + sub.len() && (forall|k: int|
        0 <= k < old_stack.len() ==> new_stack[k] == old_stack[k]) && (forall|k: int|
        0 <= k < sub.len() ==> (#[trigger] new_stack[old_stack.len() + k])@ == (EntryView {
            is_endpoint: sub[k]@.is_endpoint,
            mounted_url: spec_normalize_template(base + sub[k]@.mounted_url),
            path_match: spec_compile(base + sub[k]@.mounted_url, sub[k]@.is_endpoint),
        }) && new_stack[old_stack.len() + k].handler == sub[k].handler)
}

/// The mount prefix derived from a base path: empty for the root, else
/// the normalized base.
pub open spec fn spec_mount_base(base_path: Seq<char>) -> Seq<char> {
    if base_path == seq!['/'] {
        Seq::empty()
    } else {
        spec_normalize_template(base_path)
    }
}

/// Pushes one compiled entry per handler onto the stack.
fn push_compiled<TMiddleware: Clone>(
    stack: &mut Vec<MiddlewareHandler<TMiddleware>>,
    path: &str,
    middlewares: &Vec<TMiddleware>,
    is_endpoint: bool,
)
    ensures
        spec_registered(old(stack)@, final(stack)@, path@, middlewares@, is_endpoint),
{
    let n = middlewares.len();
    let mut i: usize = 0;
    while i < n
        invariant
            i <= n,
            n == middlewares@.len(),
            stack@.len() == old(stack)@.len() + i,
            forall|k: int| 0 <= k < old(stack)@.len() ==> stack@[k] == old(stack)@[k],
            forall|k: int|
                0 <= k < i ==> (#[trigger] stack@[old(stack)@.len() + k])@ == (EntryView {
                    is_endpoint,
                    mounted_url: spec_normalize_template(path@),
                    path_match: spec_compile(path@, is_endpoint),
                }) && cloned::<TMiddleware>(middlewares@[k], stack@[old(stack)@.len() + k].handler),
        decreases n - i,
    {
        let handler = middlewares[i].clone();
        let entry = MiddlewareHandler::new(path, handler, is_endpoint);
        proof {
            assert(entry@ =~= (EntryView {
                is_endpoint,
                mounted_url: spec_normalize_template(path@),
                path_match: spec_compile(path@, is_endpoint),
            }));
        }
        stack.push(entry);
        i += 1;
    }
}

/// Appends the entries of `sub`, recompiled under the prefix `base`.
fn mount_stack<TMiddleware>(
    stack: &mut Vec<MiddlewareHandler<TMiddleware>>,
    base: &str,
    sub: Vec<MiddlewareHandler<TMiddleware>>,
)
    ensures
        spec_mounted(old(stack)@, final(stack)@, base@, sub@),
{
    let ghost sub0 = sub@;
    let mut sub = sub;
    let n = sub.len();
    let mut i: usize = 0;
    while i < n
        invariant
            i <= n,
            n == sub0.len(),
            sub@ =~= sub0.skip(i as int),
            stack@.len() == old(stack)@.len() + i,
            forall|k: int| 0 <= k < old(stack)@.len() ==> stack@[k] == old(stack)@[k],
            forall|k: int|
                0 <= k < i ==> (#[trigger] stack@[old(stack)@.len() + k])@ == (EntryView {
                    is_endpoint: sub0[k]@.is_endpoint,
                    mounted_url: spec_normalize_template(base@ + sub0[k]@.mounted_url),
                    path_match: spec_compile(
                        base@ + sub0[k]@.mounted_url,
                        sub0[k]@.is_endpoint,
                    ),
                }) && stack@[old(stack)@.len() + k].handler == sub0[k].handler,
        decreases n - i,
    {
        let entry = sub.remove(0);
        proof {
            assert(entry == sub0[i as int]);
            assert(sub@ =~= sub0.skip(i as int + 1));
        }
        let mut path = String::from_str(base);
        path.append(entry.mounted_url.as_str());
        let new_entry = MiddlewareHandler::new(path.as_str(), entry.handler, entry.is_endpoint);
        proof {
            assert(new_entry@ =~= (EntryView {
                is_endpoint: sub0[i as int]@.is_endpoint,
                mounted_url: spec_normalize_template(base@ + sub0[i as int]@.mounted_url),
                path_match: spec_compile(
                    base@ + sub0[i as int]@.mounted_url,
                    sub0[i as int]@.is_endpoint,
                ),
            }));
        }
        stack.push(new_entry);
        i += 1;
    }
}

/// The indices, in increasing order, of the entries from `from` on whose
/// matcher accepts the path.
pub open spec fn spec_match_indices(views: Seq<EntryView>, path: Seq<char>, from: int) -> Seq<int>
    decreases views.len() - from,
{
    if from < 0 || from >= views.len() {
        Seq::empty()
    } else if pat_matches(views[from].path_match, path) {
        seq![from] + spec_match_indices(views, path, from + 1)
    } else {
        spec_match_indices(views, path, from + 1)
    }
}

/// Selection is sound, complete and in registration order: the selected
/// indices are exactly the matching entries, listed increasing, so every
/// matching entry runs, and earlier registrations run first.
pub proof fn lemma_match_indices(views: Seq<EntryView>, path: Seq<char>, from: int)
    requires
        0 <= from,
    ensures
        forall|k: int|
            0 <= k < spec_match_indices(views, path, from).len() ==> from <= #[trigger] spec_match_indices(
                views,
                path,
                from,
            )[k] < views.len() && pat_matches(views[spec_match_indices(views, path, from)[k]].path_match, path),
        forall|j: int|
            from <= j < views.len() && pat_matches(views[j].path_match, path)
                ==> spec_match_indices(views, path, from).contains(j),
        forall|k1: int, k2: int|
            0 <= k1 < k2 < spec_match_indices(views, path, from).len() ==> spec_match_indices(
                views,
                path,
                from,
            )[k1] < spec_match_indices(views, path, from)[k2],
    decreases views.len() - from,
{
    let idx = spec_match_indices(views, path, from);
    if from < 0 || from >= views.len() {
    } else {
        lemma_match_indices(views, path, from + 1);
        let rest = spec_match_indices(views, path, from + 1);
        if pat_matches(views[from].path_match, path) {
            assert(idx == seq![from] + rest);
            assert forall|j: int|
                from <= j < views.len() && pat_matches(views[j].path_match, path) implies idx.contains(
                j,
            ) by {
                if j == from {
                    assert(idx[0] == from);
                } else {
                    assert(rest.contains(j));
                    let k = choose|k: int| 0 <= k < rest.len() && rest[k] == j;
                    assert(idx[k + 1] == j);
                }
            }
        } else {
            assert forall|j: int|
                from <= j < views.len() && pat_matches(views[j].path_match, path) implies idx.contains(
                j,
            ) by {
                assert(rest.contains(j));
            }
        }
    }
}

/// Registering the same template twice produces two independent entries;
/// on any path the template accepts, both are selected, and in
/// registration order.
pub proof fn law_register_twice<TMiddleware: Clone>(
    stack0: Seq<MiddlewareHandler<TMiddleware>>,
    stack1: Seq<MiddlewareHandler<TMiddleware>>,
    stack2: Seq<MiddlewareHandler<TMiddleware>>,
    path: Seq<char>,
    h1: Seq<TMiddleware>,
    h2: Seq<TMiddleware>,
    is_endpoint: bool,
    p: Seq<char>,
)
    requires
        spec_registered(stack0, stack1, path, h1, is_endpoint),
        spec_registered(stack1, stack2, path, h2, is_endpoint),
        h1.len() == 1,
        h2.len() == 1,
        pat_matches(spec_compile(path, is_endpoint), p),
    ensures
        ({
            let idx = spec_match_indices(entry_views(stack2), p, 0);
            let n = stack0.len() as int;
            idx.contains(n) && idx.contains(n + 1) && (forall|k1: int, k2: int|
                0 <= k1 < idx.len() && 0 <= k2 < idx.len() && idx[k1] == n && idx[k2] == n + 1
                    ==> k1 < k2)
        }),
{
    let views = entry_views(stack2);
    let idx = spec_match_indices(views, p, 0);
    let n = stack0.len() as int;
    assert(stack1[stack0.len() as int + 0]@ == (EntryView {
        is_endpoint,
        mounted_url: spec_normalize_template(path),
        path_match: spec_compile(path, is_endpoint),
    }));
    assert(stack2[n] == stack1[n]);
    assert(stack2[stack1.len() as int + 0]@ == (EntryView {
        is_endpoint,
        mounted_url: spec_normalize_template(path),
        path_match: spec_compile(path, is_endpoint),
    }));
    assert(stack1.len() as int + 0 == n + 1);
    assert(views[n] == stack2[n]@);
    assert(views[n + 1] == stack2[n + 1]@);
    lemma_match_indices(views, p, 0);
    assert(idx.contains(n));
    assert(idx.contains(n + 1));
    assert forall|k1: int, k2: int|
        0 <= k1 < idx.len() && 0 <= k2 < idx.len() && idx[k1] == n && idx[k2] == n + 1 implies k1
        < k2 by {
        if k2 < k1 {
            assert(idx[k2] < idx[k1]);
        }
        if k1 == k2 {
            assert(idx[k1] == idx[k2]);
        }
    }
}

/// Mount round trip at the table level: after a mount, the entry standing
/// at position `k` of the mounted block (right after the table's own
/// entries, in the sub-table's order) accepts `base + p` exactly when the
/// sub-table's entry `k` accepts `p` directly.  The base is a literal,
/// normalized mount prefix, and the sub-entry's recorded mount path is in
/// normalized shape (a lone `/`, or no trailing `/`) — with a trailing
/// `/` in the recorded path the recompilation genuinely changes what
/// matches.
pub proof fn law_mount_select<TMiddleware>(
    old_stack: Seq<MiddlewareHandler<TMiddleware>>,
    new_stack: Seq<MiddlewareHandler<TMiddleware>>,
    base: Seq<char>,
    sub: Seq<MiddlewareHandler<TMiddleware>>,
    k: int,
    p: Seq<char>,
)
    requires
        spec_mounted(old_stack, new_stack, base, sub),
        base.len() >= 2,
        base[0] == '/',
        base.last() != '/',
        crate::pattern::all_literal(crate::pattern::spec_tokenize(base)),
        0 <= k < sub.len(),
        sub[k]@.mounted_url.len() >= 1,
        sub[k]@.mounted_url[0] == '/',
        sub[k]@.mounted_url == seq!['/'] || sub[k]@.mounted_url.last() != '/',
        sub[k]@.path_match == crate::pattern::spec_matcher(
            sub[k]@.mounted_url,
            sub[k]@.is_endpoint,
        ),
        p.len() >= 1,
        p[0] == '/',
    ensures
        pat_matches(new_stack[old_stack.len() + k]@.path_match, base + p) == pat_matches(
            sub[k]@.path_match,
            p,
        ),
{
    let u = sub[k]@.mounted_url;
    assert(new_stack[old_stack.len() + k]@.path_match == spec_compile(
        base + u,
        sub[k]@.is_endpoint,
    ));
    crate::pattern::law_mount_round_trip(base, u, sub[k]@.is_endpoint, p);
}

/// The route table: one ordered bucket of entries per HTTP method, the
/// shared application state, and the optional error handler.
pub struct App<TMiddleware, TState, TErrorHandler> {
    pub state: TState,
    pub error_handler: Option<TErrorHandler>,
    pub get_stack: Vec<MiddlewareHandler<TMiddleware>>,
    pub post_stack: Vec<MiddlewareHandler<TMiddleware>>,
    pub put_stack: Vec<MiddlewareHandler<TMiddleware>>,
    pub delete_stack: Vec<MiddlewareHandler<TMiddleware>>,
    pub head_stack: Vec<MiddlewareHandler<TMiddleware>>,
    pub options_stack: Vec<MiddlewareHandler<TMiddleware>>,
    pub connect_stack: Vec<MiddlewareHandler<TMiddleware>>,
    pub patch_stack: Vec<MiddlewareHandler<TMiddleware>>,
    pub trace_stack: Vec<MiddlewareHandler<TMiddleware>>,
}

/// The bucket of a method.
pub open spec fn spec_bucket<TMiddleware, TState, TErrorHandler>(
    app: App<TMiddleware, TState, TErrorHandler>,
    method: HttpMethod,
) -> Seq<MiddlewareHandler<TMiddleware>> {
    match method {
        HttpMethod::Get => app.get_stack@,
        HttpMethod::Post => app.post_stack@,
        HttpMethod::Put => app.put_stack@,
        HttpMethod::Delete => app.delete_stack@,
        HttpMethod::Head => app.head_stack@,
        HttpMethod::Options => app.options_stack@,
        HttpMethod::Connect => app.connect_stack@,
        HttpMethod::Patch => app.patch_stack@,
        HttpMethod::Trace => app.trace_stack@,
    }
}

impl<TMiddleware: Clone, TState, TErrorHandler> App<TMiddleware, TState, TErrorHandler> {
    /// An empty route table around the shared state.
    pub fn create(state: TState) -> (r: Self)
        ensures
            r.state == state,
            r.error_handler is None,
            forall|m: HttpMethod| (#[trigger] spec_bucket(r, m)).len() == 0,
    {
        App {
            state,
            error_handler: None,
            get_stack: Vec::new(),
            post_stack: Vec::new(),
            put_stack: Vec::new(),
            delete_stack: Vec::new(),
            head_stack: Vec::new(),
            options_stack: Vec::new(),
            connect_stack: Vec::new(),
            patch_stack: Vec::new(),
            trace_stack: Vec::new(),
        }
    }

    pub fn get_state(&self) -> (r: &TState)
        ensures
            r == &self.state,
    {
        &self.state
    }

    /// Installs the global error handler.
    pub fn set_error_handler(&mut self, error_handler: TErrorHandler)
        ensures
            final(self).error_handler == Some(error_handler),
            final(self).state == old(self).state,
            forall|m: HttpMethod| #[trigger] spec_bucket(*final(self), m) == spec_bucket(
                *old(self),
                m,
            ),
    {
        self.error_handler = Some(error_handler);
    }

    /// Removes the global error handler.
    pub fn remove_error_handler(&mut self)
        ensures
            final(self).error_handler is None,
            final(self).state == old(self).state,
            forall|m: HttpMethod| #[trigger] spec_bucket(*final(self), m) == spec_bucket(
                *old(self),
                m,
            ),
    {
        self.error_handler = None;
    }

    /// Registers endpoint routes for `GET`.
    pub fn get(&mut self, path: &str, middlewares: Vec<TMiddleware>)
        ensures
            spec_registered(old(self).get_stack@, final(self).get_stack@, path@, middlewares@, true),
            final(self).post_stack == old(self).post_stack,
            final(self).put_stack == old(self).put_stack,
            final(self).delete_stack == old(self).delete_stack,
            final(self).head_stack == old(self).head_stack,
            final(self).options_stack == old(self).options_stack,
            final(self).connect_stack == old(self).connect_stack,
            final(self).patch_stack == old(self).patch_stack,
            final(self).trace_stack == old(self).trace_stack,
            final(self).state == old(self).state,
            final(self).error_handler == old(self).error_handler,
    {
        push_compiled(&mut self.get_stack, path, &middlewares, true);
    }

    /// Registers endpoint routes for `POST`.
    pub fn post(&mut self, path: &str, middlewares: Vec<TMiddleware>)
        ensures
            spec_registered(
                old(self).post_stack@,
                final(self).post_stack@,
                path@,
                middlewares@,
                true,
            ),
            final(self).get_stack == old(self).get_stack,
            final(self).put_stack == old(self).put_stack,
            final(self).delete_stack == old(self).delete_stack,
            final(self).head_stack == old(self).head_stack,
            final(self).options_stack == old(self).options_stack,
            final(self).connect_stack == old(self).connect_stack,
            final(self).patch_stack == old(self).patch_stack,
            final(self).trace_stack == old(self).trace_stack,
            final(self).state == old(self).state,
            final(self).error_handler == old(self).error_handler,
    {
        push_compiled(&mut self.post_stack, path, &middlewares, true);
    }

    /// Registers endpoint routes for `PUT`.
    pub fn put(&mut self, path: &str, middlewares: Vec<TMiddleware>)
        ensures
            spec_registered(old(self).put_stack@, final(self).put_stack@, path@, middlewares@, true),
            final(self).get_stack == old(self).get_stack,
            final(self).post_stack == old(self).post_stack,
            final(self).delete_stack == old(self).delete_stack,
            final(self).head_stack == old(self).head_stack,
            final(self).options_stack == old(self).options_stack,
            final(self).connect_stack == old(self).connect_stack,
            final(self).patch_stack == old(self).patch_stack,
            final(self).trace_stack == old(self).trace_stack,
            final(self).state == old(self).state,
            final(self).error_handler == old(self).error_handler,
    {
        push_compiled(&mut self.put_stack, path, &middlewares, true);
    }

    /// Registers endpoint routes for `DELETE`.
    pub fn delete(&mut self, path: &str, middlewares: Vec<TMiddleware>)
        ensures
            spec_registered(
                old(self).delete_stack@,
                final(self).delete_stack@,
                path@,
                middlewares@,
                true,
            ),
            final(self).get_stack == old(self).get_stack,
            final(self).post_stack == old(self).post_stack,
            final(self).put_stack == old(self).put_stack,
            final(self).head_stack == old(self).head_stack,
            final(self).options_stack == old(self).options_stack,
            final(self).connect_stack == old(self).connect_stack,
            final(self).patch_stack == old(self).patch_stack,
            final(self).trace_stack == old(self).trace_stack,
            final(self).state == old(self).state,
            final(self).error_handler == old(self).error_handler,
    {
        push_compiled(&mut self.delete_stack, path, &middlewares, true);
    }

    /// Registers endpoint routes for `HEAD`.
    pub fn head(&mut self, path: &str, middlewares: Vec<TMiddleware>)
        ensures
            spec_registered(
                old(self).head_stack@,
                final(self).head_stack@,
                path@,
                middlewares@,
                true,
            ),
            final(self).get_stack == old(self).get_stack,
            final(self).post_stack == old(self).post_stack,
            final(self).put_stack == old(self).put_stack,
            final(self).delete_stack == old(self).delete_stack,
            final(self).options_stack == old(self).options_stack,
            final(self).connect_stack == old(self).connect_stack,
            final(self).patch_stack == old(self).patch_stack,
            final(self).trace_stack == old(self).trace_stack,
            final(self).state == old(self).state,
            final(self).error_handler == old(self).error_handler,
    {
        push_compiled(&mut self.head_stack, path, &middlewares, true);
    }

    /// Registers endpoint routes for `OPTIONS`.
    pub fn options(&mut self, path: &str, middlewares: Vec<TMiddleware>)
        ensures
            spec_registered(
                old(self).options_stack@,
                final(self).options_stack@,
                path@,
                middlewares@,
                true,
            ),
            final(self).get_stack == old(self).get_stack,
            final(self).post_stack == old(self).post_stack,
            final(self).put_stack == old(self).put_stack,
            final(self).delete_stack == old(self).delete_stack,
            final(self).head_stack == old(self).head_stack,
            final(self).connect_stack == old(self).connect_stack,
            final(self).patch_stack == old(self).patch_stack,
            final(self).trace_stack == old(self).trace_stack,
            final(self).state == old(self).state,
            final(self).error_handler == old(self).error_handler,
    {
        push_compiled(&mut self.options_stack, path, &middlewares, true);
    }

    /// Registers endpoint routes for `CONNECT`.
    pub fn connect(&mut self, path: &str, middlewares: Vec<TMiddleware>)
        ensures
            spec_registered(
                old(self).connect_stack@,
                final(self).connect_stack@,
                path@,
                middlewares@,
                true,
            ),
            final(self).get_stack == old(self).get_stack,
            final(self).post_stack == old(self).post_stack,
            final(self).put_stack == old(self).put_stack,
            final(self).delete_stack == old(self).delete_stack,
            final(self).head_stack == old(self).head_stack,
            final(self).options_stack == old(self).options_stack,
            final(self).patch_stack == old(self).patch_stack,
            final(self).trace_stack == old(self).trace_stack,
            final(self).state == old(self).state,
            final(self).error_handler == old(self).error_handler,
    {
        push_compiled(&mut self.connect_stack, path, &middlewares, true);
    }

    /// Registers endpoint routes for `PATCH`.
    pub fn patch(&mut self, path: &str, middlewares: Vec<TMiddleware>)
        ensures
            spec_registered(
                old(self).patch_stack@,
                final(self).patch_stack@,
                path@,
                middlewares@,
                true,
            ),
            final(self).get_stack == old(self).get_stack,
            final(self).post_stack == old(self).post_stack,
            final(self).put_stack == old(self).put_stack,
            final(self).delete_stack == old(self).delete_stack,
            final(self).head_stack == old(self).head_stack,
            final(self).options_stack == old(self).options_stack,
            final(self).connect_stack == old(self).connect_stack,
            final(self).trace_stack == old(self).trace_stack,
            final(self).state == old(self).state,
            final(self).error_handler == old(self).error_handler,
    {
        push_compiled(&mut self.patch_stack, path, &middlewares, true);
    }

    /// Registers endpoint routes for `TRACE`.
    pub fn trace(&mut self, path: &str, middlewares: Vec<TMiddleware>)
        ensures
            spec_registered(
                old(self).trace_stack@,
                final(self).trace_stack@,
                path@,
                middlewares@,
                true,
            ),
            final(self).get_stack == old(self).get_stack,
            final(self).post_stack == old(self).post_stack,
            final(self).put_stack == old(self).put_stack,
            final(self).delete_stack == old(self).delete_stack,
            final(self).head_stack == old(self).head_stack,
            final(self).options_stack == old(self).options_stack,
            final(self).connect_stack == old(self).connect_stack,
            final(self).patch_stack == old(self).patch_stack,
            final(self).state == old(self).state,
            final(self).error_handler == old(self).error_handler,
    {
        push_compiled(&mut self.trace_stack, path, &middlewares, true);
    }

    /// Registers use-style middleware: non-anchored entries appended to
    /// every method's bucket.
    pub fn use_middleware(&mut self, path: &str, middlewares: Vec<TMiddleware>)
        ensures
            spec_registered(
                old(self).get_stack@,
                final(self).get_stack@,
                path@,
                middlewares@,
                false,
            ),
            spec_registered(
                old(self).post_stack@,
                final(self).post_stack@,
                path@,
                middlewares@,
                false,
            ),
            spec_registered(
                old(self).put_stack@,
                final(self).put_stack@,
                path@,
                middlewares@,
                false,
            ),
            spec_registered(
                old(self).delete_stack@,
                final(self).delete_stack@,
                path@,
                middlewares@,
                false,
            ),
            spec_registered(
                old(self).head_stack@,
                final(self).head_stack@,
                path@,
                middlewares@,
                false,
            ),
            spec_registered(
                old(self).options_stack@,
                final(self).options_stack@,
                path@,
                middlewares@,
                false,
            ),
            spec_registered(
                old(self).connect_stack@,
                final(self).connect_stack@,
                path@,
                middlewares@,
                false,
            ),
            spec_registered(
                old(self).patch_stack@,
                final(self).patch_stack@,
                path@,
                middlewares@,
                false,
            ),
            spec_registered(
                old(self).trace_stack@,
                final(self).trace_stack@,
                path@,
                middlewares@,
                false,
            ),
            final(self).state == old(self).state,
            final(self).error_handler == old(self).error_handler,
    {
        push_compiled(&mut self.get_stack, path, &middlewares, false);
        push_compiled(&mut self.post_stack, path, &middlewares, false);
        push_compiled(&mut self.put_stack, path, &middlewares, false);
        push_compiled(&mut self.delete_stack, path, &middlewares, false);
        push_compiled(&mut self.head_stack, path, &middlewares, false);
        push_compiled(&mut self.options_stack, path, &middlewares, false);
        push_compiled(&mut self.connect_stack, path, &middlewares, false);
        push_compiled(&mut self.patch_stack, path, &middlewares, false);
        push_compiled(&mut self.trace_stack, path, &middlewares, false);
    }

    /// Mounts a sub-table under a base path: every bucket of the sub-table
    /// is recompiled under the mount prefix and appended, in the
    /// sub-table's order, after this table's own entries.
    pub fn use_sub_app<TSubAppState>(
        &mut self,
        base_path: &str,
        sub_app: App<TMiddleware, TSubAppState, TErrorHandler>,
    )
        ensures
            spec_mounted(
                old(self).get_stack@,
                final(self).get_stack@,
                spec_mount_base(base_path@),
                sub_app.get_stack@,
            ),
            spec_mounted(
                old(self).post_stack@,
                final(self).post_stack@,
                spec_mount_base(base_path@),
                sub_app.post_stack@,
            ),
            spec_mounted(
                old(self).put_stack@,
                final(self).put_stack@,
                spec_mount_base(base_path@),
                sub_app.put_stack@,
            ),
            spec_mounted(
                old(self).delete_stack@,
                final(self).delete_stack@,
                spec_mount_base(base_path@),
                sub_app.delete_stack@,
            ),
            spec_mounted(
                old(self).head_stack@,
                final(self).head_stack@,
                spec_mount_base(base_path@),
                sub_app.head_stack@,
            ),
            spec_mounted(
                old(self).options_stack@,
                final(self).options_stack@,
                spec_mount_base(base_path@),
                sub_app.options_stack@,
            ),
            spec_mounted(
                old(self).connect_stack@,
                final(self).connect_stack@,
                spec_mount_base(base_path@),
                sub_app.connect_stack@,
            ),
            spec_mounted(
                old(self).patch_stack@,
                final(self).patch_stack@,
                spec_mount_base(base_path@),
                sub_app.patch_stack@,
            ),
            spec_mounted(
                old(self).trace_stack@,
                final(self).trace_stack@,
                spec_mount_base(base_path@),
                sub_app.trace_stack@,
            ),
            final(self).state == old(self).state,
            final(self).error_handler == old(self).error_handler,
    {
        proof {
            reveal_strlit("/");
        }
        let base = if crate::strutil::str_eq(base_path, "/") {
            let empty = String::new();
            proof {
                assert("/"@ =~= seq!['/']);
                assert(empty@ =~= spec_mount_base(base_path@));
            }
            empty
        } else {
            proof {
                assert("/"@ =~= seq!['/']);
            }
            normalize_template(base_path)
        };
        let App {
            state: _,
            error_handler: _,
            get_stack,
            post_stack,
            put_stack,
            delete_stack,
            head_stack,
            options_stack,
            connect_stack,
            patch_stack,
            trace_stack,
        } = sub_app;
        mount_stack(&mut self.get_stack, base.as_str(), get_stack);
        mount_stack(&mut self.post_stack, base.as_str(), post_stack);
        mount_stack(&mut self.put_stack, base.as_str(), put_stack);
        mount_stack(&mut self.delete_stack, base.as_str(), delete_stack);
        mount_stack(&mut self.head_stack, base.as_str(), head_stack);
        mount_stack(&mut self.options_stack, base.as_str(), options_stack);
        mount_stack(&mut self.connect_stack, base.as_str(), connect_stack);
        mount_stack(&mut self.patch_stack, base.as_str(), patch_stack);
        mount_stack(&mut self.trace_stack, base.as_str(), trace_stack);
    }

    /// Selection: every entry of the method's bucket whose matcher accepts
    /// the path, cloned, in registration order.
    pub fn get_middleware_stack(&self, method: &HttpMethod, path: &str) -> (r: Vec<
        MiddlewareHandler<TMiddleware>,
    >)
        ensures
            ({
                let bucket = spec_bucket(*self, *method);
                let idx = spec_match_indices(entry_views(bucket), path@, 0);
                r@.len() == idx.len() && (forall|k: int|
                    0 <= k < idx.len() ==> (#[trigger] r@[k])@ == entry_views(bucket)[idx[k]]
                        && cloned::<TMiddleware>(bucket[idx[k]].handler, r@[k].handler))
            }),
    {
        let route_stack = match method {
            HttpMethod::Get => &self.get_stack,
            HttpMethod::Post => &self.post_stack,
            HttpMethod::Put => &self.put_stack,
            HttpMethod::Delete => &self.delete_stack,
            HttpMethod::Head => &self.head_stack,
            HttpMethod::Options => &self.options_stack,
            HttpMethod::Connect => &self.connect_stack,
            HttpMethod::Patch => &self.patch_stack,
            HttpMethod::Trace => &self.trace_stack,
        };
        let ghost bucket = spec_bucket(*self, *method);
        let ghost views = entry_views(bucket);
        let ghost idx_all = spec_match_indices(views, path@, 0);
        let mut out: Vec<MiddlewareHandler<TMiddleware>> = Vec::new();
        let ghost mut taken: Seq<int> = Seq::empty();
        let n = route_stack.len();
        let mut i: usize = 0;
        proof {
            assert(route_stack@ == bucket);
            assert(idx_all =~= taken + spec_match_indices(views, path@, 0));
        }
        while i < n
            invariant
                i <= n,
                n == bucket.len(),
                route_stack@ == bucket,
                views == entry_views(bucket),
                idx_all == spec_match_indices(views, path@, 0),
                idx_all =~= taken + spec_match_indices(views, path@, i as int),
                out@.len() == taken.len(),
                forall|k: int|
                    0 <= k < taken.len() ==> (#[trigger] out@[k])@ == views[taken[k]] && cloned::<
                        TMiddleware,
                    >(bucket[taken[k]].handler, out@[k].handler),
            decreases n - i,
        {
            proof {
                assert(views[i as int] == bucket[i as int]@);
            }
            if route_stack[i].is_match(path) {
                let entry = route_stack[i].clone();
                out.push(entry);
                proof {
                    taken = taken + seq![i as int];
                    assert(spec_match_indices(views, path@, i as int) == seq![i as int]
                        + spec_match_indices(views, path@, i as int + 1));
                    assert(idx_all =~= taken + spec_match_indices(views, path@, i as int + 1));
                }
            } else {
                proof {
                    assert(spec_match_indices(views, path@, i as int) == spec_match_indices(
                        views,
                        path@,
                        i as int + 1,
                    ));
                }
            }
            i += 1;
        }
        proof {
            assert(spec_match_indices(views, path@, n as int).len() == 0);
            assert(idx_all =~= taken);
        }
        out
    }
}

} // verus!
