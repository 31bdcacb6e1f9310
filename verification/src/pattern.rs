//! The pattern compiler: route templates (`/todos/:id`, `/static/**`) are
//! normalized and compiled into token-based matchers.  A matcher is always
//! anchored at the start of the path; an *endpoint* matcher is additionally
//! anchored at the end, while a *use*-style matcher accepts any path that
//! begins with a matching prefix.  Every non-root matcher tolerates a single
//! trailing `/` on the path.
//!
//! Template syntax, substituted in this order: `**` means one or more of any
//! character, a remaining `*` means one or more non-separator characters, and
//! `:name` (name drawn from `[A-Za-z0-9_]+`) captures one or more characters
//! that are neither the separator nor whitespace.  All other characters match
//! literally.

use vstd::prelude::*;

verus! {

use vstd::string::StrSliceExecFns;
use vstd::string::StringExecFns;

/// One element of a compiled pattern.
#[derive(Debug)]
pub enum PatTok {
    /// Matches exactly this character.
    Lit(char),
    /// `*`: one or more characters other than `/`.
    OneSeg,
    /// `**`: one or more characters of any kind.
    AnyChars,
    /// `:name`: one or more characters that are neither `/` nor whitespace,
    /// recorded under this capture name.
    Capture(String),
}

/// Specification-level form of a pattern token.
#[verifier::ext_equal]
pub enum TokView {
    Lit(char),
    OneSeg,
    AnyChars,
    Capture(Seq<char>),
}

impl View for PatTok {
    type V = TokView;

    open spec fn view(&self) -> TokView {
        match self {
            PatTok::Lit(c) => TokView::Lit(*c),
            PatTok::OneSeg => TokView::OneSeg,
            PatTok::AnyChars => TokView::AnyChars,
            PatTok::Capture(name) => TokView::Capture(name@),
        }
    }
}

/// The view of a whole token vector.
pub open spec fn toks_view(toks: Seq<PatTok>) -> Seq<TokView> {
    toks.map_values(|t: PatTok| t@)
}

impl Clone for PatTok {
    fn clone(&self) -> (r: Self)
        ensures
            r@ == self@,
    {
        match self {
            PatTok::Lit(c) => PatTok::Lit(*c),
            PatTok::OneSeg => PatTok::OneSeg,
            PatTok::AnyChars => PatTok::AnyChars,
            PatTok::Capture(name) => PatTok::Capture(name.clone()),
        }
    }
}

/// A compiled route template.
#[derive(Debug)]
pub struct Matcher {
    pub toks: Vec<PatTok>,
    /// Whether the matcher must reach the end of the path (endpoint route).
    pub anchored: bool,
    /// Whether a single trailing `/` on the path is tolerated (every
    /// non-root template).
    pub opt_slash: bool,
}

/// Specification-level form of a compiled matcher.
#[verifier::ext_equal]
pub struct MatcherView {
    pub toks: Seq<TokView>,
    pub anchored: bool,
    pub opt_slash: bool,
}

impl View for Matcher {
    type V = MatcherView;

    open spec fn view(&self) -> MatcherView {
        MatcherView { toks: toks_view(self.toks@), anchored: self.anchored, opt_slash: self.opt_slash }
    }
}

impl Clone for Matcher {
    fn clone(&self) -> (r: Self)
        ensures
            r@ == self@,
    {
        let toks = self.toks.clone();
        proof {
            assert(toks_view(toks@) =~= toks_view(self.toks@)) by {
                assert(forall|i: int| 0 <= i < toks@.len() ==> toks@[i]@ == self.toks@[i]@) by {
                    assert(forall|i: int|
                        0 <= i < toks@.len() ==> cloned::<PatTok>(self.toks@[i], #[trigger] toks@[i]));
                }
            }
        }
        let m = Matcher { toks, anchored: self.anchored, opt_slash: self.opt_slash };
        proof {
            assert(m@ =~= self@);
        }
        m
    }
}

// ------------------------------------------------------------------
// Character classes
// ------------------------------------------------------------------

/// Whitespace, as excluded from capture values.
pub open spec fn spec_is_space(c: char) -> bool {
    c == ' ' || c == '\t' || c == '\n' || c == '\r' || c == '\u{b}' || c == '\u{c}'
}

/// Whether character `c` may be consumed by the (necessarily quantified)
/// token `t`.
pub open spec fn spec_tok_char_ok(t: TokView, c: char) -> bool {
    match t {
        TokView::Lit(_) => false,
        TokView::OneSeg => c != '/',
        TokView::AnyChars => true,
        TokView::Capture(_) => c != '/' && !spec_is_space(c),
    }
}

/// Characters allowed in a capture name.
pub open spec fn spec_word_char(c: char) -> bool {
    ('a' <= c && c <= 'z') || ('A' <= c && c <= 'Z') || ('0' <= c && c <= '9') || c == '_'
}

fn is_space_char(c: char) -> (r: bool)
    ensures
        r == spec_is_space(c),
{
    c == ' ' || c == '\t' || c == '\n' || c == '\r' || c == '\u{b}' || c == '\u{c}'
}

fn is_word_char(c: char) -> (r: bool)
    ensures
        r == spec_word_char(c),
{
    let u = c as u32;
    (97 <= u && u <= 122) || (65 <= u && u <= 90) || (48 <= u && u <= 57) || c == '_'
}

fn tok_char_ok(t: &PatTok, c: char) -> (r: bool)
    ensures
        r == spec_tok_char_ok(t@, c),
{
    match t {
        PatTok::Lit(_) => false,
        PatTok::OneSeg => c != '/',
        PatTok::AnyChars => true,
        PatTok::Capture(_) => c != '/' && !is_space_char(c),
    }
}

// ------------------------------------------------------------------
// Matching semantics
// ------------------------------------------------------------------

/// Whether the token sequence matches exactly the character sequence `s`.
/// A quantified token (`*`, `**`, `:name`) consumes its mandatory first
/// character and then either is finished or stays to consume more.
pub open spec fn toks_match(toks: Seq<TokView>, s: Seq<char>) -> bool
    decreases toks.len(), s.len(),
{
    if toks.len() == 0 {
        s.len() == 0
    } else {
        match toks[0] {
            TokView::Lit(c) => s.len() >= 1 && s[0] == c && toks_match(toks.drop_first(), s.drop_first()),
            _ => s.len() >= 1 && spec_tok_char_ok(toks[0], s[0]) && (toks_match(
                toks.drop_first(),
                s.drop_first(),
            ) || toks_match(toks, s.drop_first())),
        }
    }
}

/// Whether the token sequence matches `s`, producing exactly the capture
/// list `caps` (name and captured text, one entry per capture token, in
/// token order).  A capture token that stays to consume more characters
/// extends the front of its capture value.
pub open spec fn toks_match_caps(
    toks: Seq<TokView>,
    s: Seq<char>,
    caps: Seq<(Seq<char>, Seq<char>)>,
) -> bool
    decreases toks.len(), s.len(),
{
    if toks.len() == 0 {
        s.len() == 0 && caps.len() == 0
    } else {
        match toks[0] {
            TokView::Lit(c) => s.len() >= 1 && s[0] == c && toks_match_caps(
                toks.drop_first(),
                s.drop_first(),
                caps,
            ),
            TokView::Capture(name) => s.len() >= 1 && spec_tok_char_ok(toks[0], s[0]) && caps.len() >= 1
                && caps[0].0 == name && caps[0].1.len() >= 1 && caps[0].1[0] == s[0] && ((caps[0].1.len()
                == 1 && toks_match_caps(toks.drop_first(), s.drop_first(), caps.drop_first())) || (
            caps[0].1.len() >= 2 && toks_match_caps(
                toks,
                s.drop_first(),
                caps.update(0, (name, caps[0].1.drop_first())),
            ))),
            _ => s.len() >= 1 && spec_tok_char_ok(toks[0], s[0]) && (toks_match_caps(
                toks.drop_first(),
                s.drop_first(),
                caps,
            ) || toks_match_caps(toks, s.drop_first(), caps)),
        }
    }
}

/// An exact match of the matcher's tokens against `s`, allowing the single
/// tolerated trailing `/`.
pub open spec fn core_match(m: MatcherView, s: Seq<char>) -> bool {
    toks_match(m.toks, s) || (m.opt_slash && s.len() >= 1 && s.last() == '/' && toks_match(
        m.toks,
        s.drop_last(),
    ))
}

/// What it means for the compiled matcher to accept a request path: an
/// endpoint (anchored) matcher must cover the whole path, a use-style
/// matcher must cover some prefix of it.
pub open spec fn pat_matches(m: MatcherView, path: Seq<char>) -> bool {
    if m.anchored {
        core_match(m, path)
    } else {
        exists|j: int| 0 <= j <= path.len() && core_match(m, #[trigger] path.take(j))
    }
}

/// Like `core_match`, with the capture list of the match.
pub open spec fn core_match_caps(m: MatcherView, s: Seq<char>, caps: Seq<(Seq<char>, Seq<char>)>) -> bool {
    toks_match_caps(m.toks, s, caps) || (m.opt_slash && s.len() >= 1 && s.last() == '/'
        && toks_match_caps(m.toks, s.drop_last(), caps))
}

/// Whether `caps` is the capture list of a window of `path` that the
/// matcher accepts, consistent with its anchoring.
pub open spec fn pat_captures(m: MatcherView, path: Seq<char>, caps: Seq<(Seq<char>, Seq<char>)>) -> bool {
    if m.anchored {
        core_match_caps(m, path, caps)
    } else {
        exists|j: int| 0 <= j <= path.len() && core_match_caps(m, #[trigger] path.take(j), caps)
    }
}

/// The view of an executable capture list.
pub open spec fn caps_view(caps: Seq<(String, String)>) -> Seq<(Seq<char>, Seq<char>)> {
    caps.map_values(|p: (String, String)| (p.0@, p.1@))
}

// ------------------------------------------------------------------
// Template normalization
// ------------------------------------------------------------------

/// Normalization of a template or mount path: a leading `./` loses the dot,
/// otherwise exactly one leading `/` is ensured; one trailing `/` is
/// stripped; an empty result collapses to `/`.
pub open spec fn spec_normalize_template(t: Seq<char>) -> Seq<char> {
    let t1 = if t.len() >= 2 && t[0] == '.' && t[1] == '/' {
        t.drop_first()
    } else if !(t.len() >= 1 && t[0] == '/') {
        seq!['/'] + t
    } else {
        t
    };
    let t2 = if t1.len() >= 1 && t1.last() == '/' {
        t1.drop_last()
    } else {
        t1
    };
    if t2.len() == 0 {
        seq!['/']
    } else {
        t2
    }
}

/// Exec counterpart of `spec_normalize_template`.
pub fn normalize_template(t: &str) -> (r: String)
    ensures
        r@ == spec_normalize_template(t@),
{
    proof {
        reveal_strlit("/");
    }
    let len = t.unicode_len();
    let mut u: String;
    if len >= 2 && t.get_char(0) == '.' && t.get_char(1) == '/' {
        u = String::from_str(t.substring_char(1, len));
        proof {
            assert(u@ =~= t@.drop_first());
        }
    } else if !(len >= 1 && t.get_char(0) == '/') {
        u = String::from_str("/");
        u.append(t);
        proof {
            assert(u@ =~= seq!['/'] + t@);
        }
    } else {
        u = String::from_str(t);
    }
    let ulen = u.as_str().unicode_len();
    if ulen >= 1 && u.as_str().get_char(ulen - 1) == '/' {
        let stripped = String::from_str(u.as_str().substring_char(0, ulen - 1));
        proof {
            assert(stripped@ =~= u@.drop_last());
        }
        u = stripped;
    }
    if u.as_str().unicode_len() == 0 {
        u = String::from_str("/");
        proof {
            assert(u@ =~= seq!['/']);
        }
    }
    u
}

// ------------------------------------------------------------------
// Tokenization
// ------------------------------------------------------------------

/// A literal token for character `c`.
pub open spec fn tok_lit(c: char) -> TokView {
    TokView::Lit(c)
}

/// A capture token for the name `name`.
pub open spec fn tok_capture(name: Seq<char>) -> TokView {
    TokView::Capture(name)
}

/// Length of the leading run of capture-name characters.
pub open spec fn name_run_len(s: Seq<char>) -> int
    decreases s.len(),
{
    if s.len() > 0 && spec_word_char(s[0]) {
        1 + name_run_len(s.drop_first())
    } else {
        0
    }
}

pub proof fn lemma_name_run_len_bounds(s: Seq<char>)
    ensures
        0 <= name_run_len(s) <= s.len(),
    decreases s.len(),
{
    if s.len() > 0 && spec_word_char(s[0]) {
        lemma_name_run_len_bounds(s.drop_first());
    }
}

/// Tokenization of a normalized template, one pass, `**` before `*`,
/// `:name` for a maximal run of name characters after `:`.
pub open spec fn spec_tokenize(s: Seq<char>) -> Seq<TokView>
    decreases s.len(),
    via spec_tokenize_decreases
{
    if s.len() == 0 {
        Seq::empty()
    } else if s[0] == '*' && s.len() >= 2 && s[1] == '*' {
        seq![TokView::AnyChars] + spec_tokenize(s.skip(2))
    } else if s[0] == '*' {
        seq![TokView::OneSeg] + spec_tokenize(s.skip(1))
    } else if s[0] == ':' && s.len() >= 2 && spec_word_char(s[1]) {
        let n = name_run_len(s.skip(1));
        seq![tok_capture(s.skip(1).take(n))] + spec_tokenize(s.skip(1 + n))
    } else {
        seq![tok_lit(s[0])] + spec_tokenize(s.skip(1))
    }
}

#[via_fn]
proof fn spec_tokenize_decreases(s: Seq<char>) {
    if s.len() > 0 {
        lemma_name_run_len_bounds(s.skip(1));
        if s[0] == ':' && s.len() >= 2 && spec_word_char(s[1]) {
            assert(name_run_len(s.skip(1)) >= 1) by {
                assert(s.skip(1)[0] == s[1]);
                lemma_name_run_len_bounds(s.skip(1).drop_first());
            }
        }
    }
}

/// The compiled matcher for an already normalized template `u`.
pub open spec fn spec_matcher(u: Seq<char>, anchored: bool) -> MatcherView {
    MatcherView { toks: spec_tokenize(u), anchored, opt_slash: u != seq!['/'] }
}

/// The full pattern-compiler pipeline: normalization, then tokenization.
pub open spec fn spec_compile(template: Seq<char>, anchored: bool) -> MatcherView {
    spec_matcher(spec_normalize_template(template), anchored)
}

fn name_run(s: &str, i: usize, len: usize) -> (n: usize)
    requires
        i <= len,
        len == s@.len(),
    ensures
        n == name_run_len(s@.skip(i as int)),
        n <= len - i,
    decreases len - i,
{
    proof {
        lemma_name_run_len_bounds(s@.skip(i as int));
    }
    if i < len {
        let c = s.get_char(i);
        if is_word_char(c) {
            let m = name_run(s, i + 1, len);
            proof {
                assert(s@.skip(i as int).drop_first() =~= s@.skip(i as int + 1));
                assert(s@.skip(i as int)[0] == s@[i as int]);
            }
            m + 1
        } else {
            proof {
                assert(s@.skip(i as int)[0] == s@[i as int]);
            }
            0
        }
    } else {
        proof {
            assert(s@.skip(i as int).len() == 0);
        }
        0
    }
}

fn tokenize_from(s: &str, i: usize, len: usize, out: &mut Vec<PatTok>)
    requires
        i <= len,
        len == s@.len(),
    ensures
        toks_view(final(out)@) == toks_view(old(out)@) + spec_tokenize(s@.skip(i as int)),
    decreases len - i,
{
    if i == len {
        proof {
            assert(s@.skip(i as int).len() == 0);
            assert(toks_view(out@) =~= toks_view(out@) + spec_tokenize(s@.skip(i as int)));
        }
        return ;
    }
    let ghost rest = s@.skip(i as int);
    proof {
        assert(rest[0] == s@[i as int]);
        if i + 1 < len {
            assert(rest[1] == s@[i as int + 1]);
        }
    }
    let c = s.get_char(i);
    if c == '*' && i + 1 < len && s.get_char(i + 1) == '*' {
        out.push(PatTok::AnyChars);
        let ghost mid = out@;
        tokenize_from(s, i + 2, len, out);
        proof {
            assert(rest.skip(2) =~= s@.skip(i as int + 2));
            assert(toks_view(mid) =~= toks_view(old(out)@) + seq![TokView::AnyChars]);
            assert(toks_view(final(out)@) =~= toks_view(old(out)@) + spec_tokenize(rest));
        }
    } else if c == '*' {
        out.push(PatTok::OneSeg);
        let ghost mid = out@;
        tokenize_from(s, i + 1, len, out);
        proof {
            assert(rest.skip(1) =~= s@.skip(i as int + 1));
            assert(toks_view(mid) =~= toks_view(old(out)@) + seq![TokView::OneSeg]);
            assert(toks_view(final(out)@) =~= toks_view(old(out)@) + spec_tokenize(rest));
        }
    } else if c == ':' && i + 1 < len && is_word_char(s.get_char(i + 1)) {
        let n = name_run(s, i + 1, len);
        proof {
            assert(s@.skip(i as int + 1) =~= rest.skip(1));
            assert(n == name_run_len(rest.skip(1)));
            assert(n >= 1) by {
                assert(rest.skip(1)[0] == rest[1]);
                lemma_name_run_len_bounds(rest.skip(1).drop_first());
            }
        }
        let name = String::from_str(s.substring_char(i + 1, i + 1 + n));
        proof {
            assert(name@ =~= rest.skip(1).take(n as int));
        }
        out.push(PatTok::Capture(name));
        let ghost mid = out@;
        tokenize_from(s, i + 1 + n, len, out);
        proof {
            assert(rest.skip(1 + n as int) =~= s@.skip(i as int + 1 + n as int));
            assert(toks_view(mid) =~= toks_view(old(out)@) + seq![TokView::Capture(name@)]);
            assert(toks_view(final(out)@) =~= toks_view(old(out)@) + spec_tokenize(rest));
        }
    } else {
        out.push(PatTok::Lit(c));
        let ghost mid = out@;
        tokenize_from(s, i + 1, len, out);
        proof {
            assert(rest.skip(1) =~= s@.skip(i as int + 1));
            assert(toks_view(mid) =~= toks_view(old(out)@) + seq![TokView::Lit(c)]);
            assert(toks_view(final(out)@) =~= toks_view(old(out)@) + spec_tokenize(rest));
        }
    }
}

// ------------------------------------------------------------------
// The matching engine
// ------------------------------------------------------------------

/// Whether `toks[ti..]` matches exactly the characters `s[si..send]`.
fn match_range(toks: &Vec<PatTok>, ti: usize, s: &str, si: usize, send: usize) -> (r: bool)
    requires
        ti <= toks@.len(),
        si <= send,
        send <= s@.len(),
    ensures
        r == toks_match(toks_view(toks@).skip(ti as int), s@.subrange(si as int, send as int)),
    decreases toks@.len() - ti, send - si,
{
    let ghost tv = toks_view(toks@).skip(ti as int);
    let ghost sv = s@.subrange(si as int, send as int);
    if ti == toks.len() {
        proof {
            assert(tv.len() == 0);
        }
        return si == send;
    }
    proof {
        assert(tv[0] == toks@[ti as int]@);
        assert(tv.drop_first() =~= toks_view(toks@).skip(ti as int + 1));
    }
    match &toks[ti] {
        PatTok::Lit(c) => {
            if si < send && s.get_char(si) == *c {
                proof {
                    assert(sv[0] == s@[si as int]);
                    assert(sv.drop_first() =~= s@.subrange(si as int + 1, send as int));
                }
                match_range(toks, ti + 1, s, si + 1, send)
            } else {
                proof {
                    if si < send {
                        assert(sv[0] == s@[si as int]);
                    }
                }
                false
            }
        }
        _ => {
            if si < send {
                proof {
                    assert(sv[0] == s@[si as int]);
                    assert(sv.drop_first() =~= s@.subrange(si as int + 1, send as int));
                }
                let c = s.get_char(si);
                if tok_char_ok(&toks[ti], c) {
                    if match_range(toks, ti + 1, s, si + 1, send) {
                        return true;
                    }
                    match_range(toks, ti, s, si + 1, send)
                } else {
                    false
                }
            } else {
                false
            }
        }
    }
}

impl Matcher {
    /// An exact match against the path prefix `path[..j]`, trailing slash
    /// tolerated.
    fn core_match_at(&self, path: &str, j: usize) -> (r: bool)
        requires
            j <= path@.len(),
        ensures
            r == core_match(self@, path@.take(j as int)),
    {
        let ghost sv = path@.take(j as int);
        proof {
            assert(sv =~= path@.subrange(0, j as int));
            assert(toks_view(self.toks@).skip(0) =~= toks_view(self.toks@));
        }
        if match_range(&self.toks, 0, path, 0, j) {
            return true;
        }
        if self.opt_slash && j >= 1 && path.get_char(j - 1) == '/' {
            proof {
                assert(sv.last() == path@[j - 1]);
                assert(sv.drop_last() =~= path@.subrange(0, j as int - 1));
            }
            if match_range(&self.toks, 0, path, 0, j - 1) {
                return true;
            }
            return false;
        }
        proof {
            if j >= 1 {
                assert(sv.last() == path@[j - 1]);
            }
        }
        false
    }

    /// Whether the matcher accepts the path: the whole path for an endpoint
    /// matcher, some prefix of it for a use-style matcher.
    pub fn is_match(&self, path: &str) -> (r: bool)
        ensures
            r == pat_matches(self@, path@),
    {
        let plen = path.unicode_len();
        if self.anchored {
            let r = self.core_match_at(path, plen);
            proof {
                assert(path@.take(plen as int) =~= path@);
            }
            r
        } else {
            let mut j: usize = 0;
            while j < plen
                invariant
                    j <= plen,
                    plen == path@.len(),
                    !self@.anchored,
                    forall|q: int| 0 <= q < j ==> !core_match(self@, #[trigger] path@.take(q)),
                decreases plen - j,
            {
                if self.core_match_at(path, j) {
                    return true;
                }
                j += 1;
            }
            self.core_match_at(path, plen)
        }
    }
}

/// A match with captures is in particular a match.
pub proof fn lemma_caps_implies_match(toks: Seq<TokView>, s: Seq<char>, caps: Seq<(Seq<char>, Seq<char>)>)
    requires
        toks_match_caps(toks, s, caps),
    ensures
        toks_match(toks, s),
    decreases toks.len(), s.len(),
{
    if toks.len() == 0 {
    } else {
        match toks[0] {
            TokView::Lit(_) => {
                lemma_caps_implies_match(toks.drop_first(), s.drop_first(), caps);
            },
            TokView::Capture(name) => {
                if caps[0].1.len() == 1 && toks_match_caps(toks.drop_first(), s.drop_first(), caps.drop_first()) {
                    lemma_caps_implies_match(toks.drop_first(), s.drop_first(), caps.drop_first());
                } else {
                    lemma_caps_implies_match(
                        toks,
                        s.drop_first(),
                        caps.update(0, (name, caps[0].1.drop_first())),
                    );
                }
            },
            _ => {
                if toks_match_caps(toks.drop_first(), s.drop_first(), caps) {
                    lemma_caps_implies_match(toks.drop_first(), s.drop_first(), caps);
                } else {
                    lemma_caps_implies_match(toks, s.drop_first(), caps);
                }
            },
        }
    }
}

/// Like `match_range`, but also extracts the capture list of the match.
fn caps_range(toks: &Vec<PatTok>, ti: usize, s: &str, si: usize, send: usize) -> (r: Option<
    Vec<(String, String)>,
>)
    requires
        ti <= toks@.len(),
        si <= send,
        send <= s@.len(),
    ensures
        match r {
            Some(cs) => toks_match_caps(
                toks_view(toks@).skip(ti as int),
                s@.subrange(si as int, send as int),
                caps_view(cs@),
            ),
            None => !toks_match(toks_view(toks@).skip(ti as int), s@.subrange(si as int, send as int)),
        },
    decreases toks@.len() - ti, send - si,
{
    let ghost tv = toks_view(toks@).skip(ti as int);
    let ghost sv = s@.subrange(si as int, send as int);
    if ti == toks.len() {
        if si == send {
            let cs: Vec<(String, String)> = Vec::new();
            proof {
                assert(caps_view(cs@) =~= Seq::<(Seq<char>, Seq<char>)>::empty());
            }
            return Some(cs);
        } else {
            return None;
        }
    }
    proof {
        assert(tv[0] == toks@[ti as int]@);
        assert(tv.drop_first() =~= toks_view(toks@).skip(ti as int + 1));
        if si < send {
            assert(sv[0] == s@[si as int]);
            assert(sv.drop_first() =~= s@.subrange(si as int + 1, send as int));
        }
    }
    match &toks[ti] {
        PatTok::Lit(c) => {
            if si < send && s.get_char(si) == *c {
                caps_range(toks, ti + 1, s, si + 1, send)
            } else {
                None
            }
        },
        PatTok::Capture(name) => {
            if si < send {
                let c = s.get_char(si);
                if tok_char_ok(&toks[ti], c) {
                    // First try to finish the capture with this character.
                    let r1 = caps_range(toks, ti + 1, s, si + 1, send);
                    if let Some(mut cs) = r1 {
                        let ghost inner = cs@;
                        let val = String::from_str(s.substring_char(si, si + 1));
                        proof {
                            assert(val@ =~= seq![s@[si as int]]);
                        }
                        cs.insert(0, (name.clone(), val));
                        proof {
                            assert(caps_view(cs@) =~= seq![(name@, val@)] + caps_view(inner));
                            assert(caps_view(cs@).drop_first() =~= caps_view(inner));
                        }
                        return Some(cs);
                    }
                    // Otherwise let the capture consume more characters.
                    let r2 = caps_range(toks, ti, s, si + 1, send);
                    match r2 {
                        Some(mut cs) => {
                            let ghost inner = cs@;
                            let (nm, v) = cs.remove(0);
                            let mut val = String::from_str(s.substring_char(si, si + 1));
                            val.append(v.as_str());
                            cs.insert(0, (nm, val));
                            proof {
                                assert(caps_view(inner).len() >= 1);
                                assert(val@ =~= seq![s@[si as int]] + v@);
                                assert(val@.drop_first() =~= v@);
                                assert(caps_view(cs@) =~= caps_view(inner).update(0, (nm@, val@)));
                                assert(caps_view(cs@).update(0, (nm@, val@.drop_first())) =~= caps_view(
                                    inner,
                                ));
                            }
                            Some(cs)
                        },
                        None => None,
                    }
                } else {
                    None
                }
            } else {
                None
            }
        },
        _ => {
            if si < send {
                let c = s.get_char(si);
                if tok_char_ok(&toks[ti], c) {
                    let r1 = caps_range(toks, ti + 1, s, si + 1, send);
                    if r1.is_some() {
                        return r1;
                    }
                    caps_range(toks, ti, s, si + 1, send)
                } else {
                    None
                }
            } else {
                None
            }
        },
    }
}

impl Matcher {
    /// Capture extraction against the path prefix `path[..j]`.
    fn core_caps_at(&self, path: &str, j: usize) -> (r: Option<Vec<(String, String)>>)
        requires
            j <= path@.len(),
        ensures
            (r is Some) == core_match(self@, path@.take(j as int)),
            match r {
                Some(cs) => core_match_caps(self@, path@.take(j as int), caps_view(cs@)),
                None => true,
            },
    {
        let ghost sv = path@.take(j as int);
        proof {
            assert(sv =~= path@.subrange(0, j as int));
            assert(toks_view(self.toks@).skip(0) =~= toks_view(self.toks@));
        }
        let r1 = caps_range(&self.toks, 0, path, 0, j);
        if let Some(cs) = r1 {
            proof {
                lemma_caps_implies_match(self@.toks, sv, caps_view(cs@));
            }
            return Some(cs);
        }
        if self.opt_slash && j >= 1 && path.get_char(j - 1) == '/' {
            proof {
                assert(sv.last() == path@[j - 1]);
                assert(sv.drop_last() =~= path@.subrange(0, j as int - 1));
            }
            let r2 = caps_range(&self.toks, 0, path, 0, j - 1);
            if let Some(cs) = r2 {
                proof {
                    lemma_caps_implies_match(self@.toks, sv.drop_last(), caps_view(cs@));
                }
                return Some(cs);
            }
            return None;
        }
        proof {
            if j >= 1 {
                assert(sv.last() == path@[j - 1]);
            }
        }
        None
    }

    /// The named captures of the matcher against the path, when it matches.
    /// The returned list is a witness decomposition of an accepted window of
    /// the path, one entry per capture token, in token order.
    pub fn captures(&self, path: &str) -> (r: Option<Vec<(String, String)>>)
        ensures
            (r is Some) == pat_matches(self@, path@),
            match r {
                Some(cs) => pat_captures(self@, path@, caps_view(cs@)),
                None => true,
            },
    {
        let plen = path.unicode_len();
        if self.anchored {
            let r = self.core_caps_at(path, plen);
            proof {
                assert(path@.take(plen as int) =~= path@);
            }
            r
        } else {
            let mut j: usize = 0;
            while j < plen
                invariant
                    j <= plen,
                    plen == path@.len(),
                    !self@.anchored,
                    forall|q: int| 0 <= q < j ==> !core_match(self@, #[trigger] path@.take(q)),
                decreases plen - j,
            {
                let r = self.core_caps_at(path, j);
                if r.is_some() {
                    return r;
                }
                j += 1;
            }
            self.core_caps_at(path, plen)
        }
    }
}

// ------------------------------------------------------------------
// Laws about anchoring, prefixes and mounting
// ------------------------------------------------------------------

/// Whether every token matches one fixed character.
pub open spec fn all_literal(toks: Seq<TokView>) -> bool {
    forall|i: int| 0 <= i < toks.len() ==> toks[i] is Lit
}

/// The character of a literal token.
pub open spec fn lit_char(t: TokView) -> char {
    match t {
        TokView::Lit(c) => c,
        _ => ' ',
    }
}

/// The exact text an all-literal token sequence stands for.
pub open spec fn lit_chars(toks: Seq<TokView>) -> Seq<char> {
    toks.map_values(|t: TokView| lit_char(t))
}

/// An all-literal token sequence matches exactly its own text.
pub proof fn lemma_literal_match(toks: Seq<TokView>, s: Seq<char>)
    requires
        all_literal(toks),
    ensures
        toks_match(toks, s) == (s == lit_chars(toks)),
    decreases toks.len(),
{
    if toks.len() == 0 {
        if s.len() == 0 {
            assert(s =~= lit_chars(toks));
        } else {
            assert(s.len() != lit_chars(toks).len());
        }
    } else {
        let c = lit_char(toks[0]);
        assert(toks[0] is Lit);
        assert(toks[0] == TokView::Lit(c));
        assert(all_literal(toks.drop_first())) by {
            assert(forall|i: int|
                0 <= i < toks.drop_first().len() ==> #[trigger] toks.drop_first()[i] == toks[i + 1]);
        }
        if s.len() >= 1 {
            lemma_literal_match(toks.drop_first(), s.drop_first());
            assert(lit_chars(toks.drop_first()) =~= lit_chars(toks).drop_first());
            if toks_match(toks, s) {
                assert(s.drop_first() == lit_chars(toks.drop_first()));
                assert(s.len() == lit_chars(toks).len());
                assert forall|i: int| 0 <= i < s.len() implies s[i] == lit_chars(toks)[i] by {
                    if i == 0 {
                        assert(lit_chars(toks)[0] == lit_char(toks[0]));
                    } else {
                        assert(s.drop_first()[i - 1] == s[i]);
                        assert(lit_chars(toks).drop_first()[i - 1] == lit_chars(toks)[i]);
                    }
                }
                assert(s =~= lit_chars(toks));
            }
            if s == lit_chars(toks) {
                assert(s[0] == c);
                assert(s.drop_first() =~= lit_chars(toks).drop_first());
                assert(toks_match(toks, s));
            }
        } else {
            assert(!toks_match(toks, s));
            assert(s.len() != lit_chars(toks).len());
        }
    }
}

/// A use-style (non-anchored) matcher that accepts a path accepts every
/// extension of it: extra trailing segments still match.
pub proof fn law_use_matcher_accepts_extension(m: MatcherView, p: Seq<char>, e: Seq<char>)
    requires
        !m.anchored,
        core_match(m, p),
    ensures
        pat_matches(m, p + e),
{
    assert((p + e).take(p.len() as int) =~= p);
}

/// An endpoint (anchored) matcher for an all-literal template rejects any
/// path that extends its text by an extra trailing segment.
pub proof fn law_endpoint_matcher_rejects_extension(m: MatcherView, p: Seq<char>, e: Seq<char>)
    requires
        m.anchored,
        all_literal(m.toks),
        core_match(m, p),
        e.len() >= 2,
        e[0] == '/',
    ensures
        !pat_matches(m, p + e),
{
    let lit = lit_chars(m.toks);
    let s = p + e;
    lemma_literal_match(m.toks, p);
    lemma_literal_match(m.toks, p.drop_last());
    lemma_literal_match(m.toks, s);
    lemma_literal_match(m.toks, s.drop_last());
    if p == lit {
        assert(s.len() > lit.len() + 1);
        assert(s.drop_last().len() > lit.len());
    } else {
        assert(p.drop_last() == lit);
        assert(s.len() > lit.len() + 1);
        assert(s.drop_last().len() > lit.len());
    }
}

proof fn lemma_name_run_concat(a: Seq<char>, b: Seq<char>)
    requires
        b.len() >= 1,
        !spec_word_char(b[0]),
    ensures
        name_run_len(a + b) == name_run_len(a),
    decreases a.len(),
{
    if a.len() == 0 {
        assert(a + b =~= b);
    } else {
        assert((a + b)[0] == a[0]);
        if spec_word_char(a[0]) {
            assert((a + b).drop_first() =~= a.drop_first() + b);
            lemma_name_run_concat(a.drop_first(), b);
        }
    }
}

/// Tokenizing a nonempty text yields at least one token.
pub proof fn lemma_tokenize_nonempty(u: Seq<char>)
    requires
        u.len() >= 1,
    ensures
        spec_tokenize(u).len() >= 1,
{
    let n = name_run_len(u.skip(1));
    lemma_name_run_len_bounds(u.skip(1));
    if u[0] == ':' && u.len() >= 2 && spec_word_char(u[1]) {
        assert(spec_tokenize(u) == seq![tok_capture(u.skip(1).take(n))] + spec_tokenize(
            u.skip(1 + n),
        ));
    }
}

/// Tokenization distributes over concatenation at a `/` boundary.
pub proof fn lemma_tokenize_concat(a: Seq<char>, b: Seq<char>)
    requires
        b.len() >= 1,
        b[0] == '/',
    ensures
        spec_tokenize(a + b) == spec_tokenize(a) + spec_tokenize(b),
    decreases a.len(),
{
    let s = a + b;
    if a.len() == 0 {
        assert(s =~= b);
        assert(spec_tokenize(a) + spec_tokenize(b) =~= spec_tokenize(b));
    } else {
        assert(s[0] == a[0]);
        if a.len() >= 2 {
            assert(s[1] == a[1]);
        } else {
            assert(s[1] == b[0]);
        }
        if a[0] == '*' && a.len() >= 2 && a[1] == '*' {
            assert(s.skip(2) =~= a.skip(2) + b);
            lemma_tokenize_concat(a.skip(2), b);
            assert(spec_tokenize(s) =~= spec_tokenize(a) + spec_tokenize(b));
        } else if a[0] == '*' {
            assert(!(s[0] == '*' && s.len() >= 2 && s[1] == '*'));
            assert(s.skip(1) =~= a.skip(1) + b);
            lemma_tokenize_concat(a.skip(1), b);
            assert(spec_tokenize(s) =~= spec_tokenize(a) + spec_tokenize(b));
        } else if a[0] == ':' && a.len() >= 2 && spec_word_char(a[1]) {
            assert(s.skip(1) =~= a.skip(1) + b);
            lemma_name_run_concat(a.skip(1), b);
            let n = name_run_len(a.skip(1));
            lemma_name_run_len_bounds(a.skip(1));
            lemma_name_run_len_bounds(s.skip(1));
            assert(n >= 1) by {
                assert(a.skip(1)[0] == a[1]);
                lemma_name_run_len_bounds(a.skip(1).drop_first());
            }
            assert(name_run_len(s.skip(1)) == n);
            assert(s.skip(1).take(n) =~= a.skip(1).take(n));
            assert(s.skip(1 + n) =~= a.skip(1 + n) + b);
            lemma_tokenize_concat(a.skip(1 + n), b);
            assert(spec_tokenize(s) == seq![tok_capture(s.skip(1).take(n))] + spec_tokenize(
                s.skip(1 + n),
            ));
            assert(spec_tokenize(a) == seq![tok_capture(a.skip(1).take(n))] + spec_tokenize(
                a.skip(1 + n),
            ));
            assert(spec_tokenize(s) =~= spec_tokenize(a) + spec_tokenize(b));
        } else {
            assert(!(s[0] == ':' && s.len() >= 2 && spec_word_char(s[1])));
            assert(s.skip(1) =~= a.skip(1) + b);
            lemma_tokenize_concat(a.skip(1), b);
            assert(spec_tokenize(s) =~= spec_tokenize(a) + spec_tokenize(b));
        }
    }
}

/// A template whose tokens are all literal tokenizes to exactly its own
/// characters.
pub proof fn lemma_tokenize_literal(u: Seq<char>)
    requires
        all_literal(spec_tokenize(u)),
    ensures
        spec_tokenize(u) == u.map_values(|c: char| tok_lit(c)),
    decreases u.len(),
{
    let m = u.map_values(|c: char| tok_lit(c));
    if u.len() == 0 {
        assert(m.len() == 0);
        assert(spec_tokenize(u) == Seq::<TokView>::empty());
        assert(spec_tokenize(u) =~= m);
    } else {
        let n = name_run_len(u.skip(1));
        lemma_name_run_len_bounds(u.skip(1));
        if u[0] == '*' && u.len() >= 2 && u[1] == '*' {
            assert(spec_tokenize(u)[0] is AnyChars);
            assert(false);
        } else if u[0] == '*' {
            assert(spec_tokenize(u)[0] is OneSeg);
            assert(false);
        } else if u[0] == ':' && u.len() >= 2 && spec_word_char(u[1]) {
            assert(spec_tokenize(u) == seq![TokView::Capture(u.skip(1).take(n))] + spec_tokenize(
                u.skip(1 + n),
            ));
            assert(spec_tokenize(u)[0] is Capture);
            assert(false);
        } else {
            assert(spec_tokenize(u) == seq![tok_lit(u[0])] + spec_tokenize(u.skip(1)));
            assert(all_literal(spec_tokenize(u.skip(1)))) by {
                assert(forall|i: int|
                    0 <= i < spec_tokenize(u.skip(1)).len() ==> #[trigger] spec_tokenize(u.skip(1))[i]
                        == spec_tokenize(u)[i + 1]);
            }
            lemma_tokenize_literal(u.skip(1));
            assert(u.skip(1).map_values(|c: char| tok_lit(c)) =~= m.drop_first());
            assert(spec_tokenize(u) =~= m);
        }
    }
}

/// Literal tokens at the front of a token sequence consume exactly their
/// own text, deterministically.
pub proof fn lemma_literal_prefix(tb: Seq<TokView>, tt: Seq<TokView>, s: Seq<char>)
    requires
        all_literal(tb),
    ensures
        toks_match(tb + tt, s) == (s.len() >= tb.len() && s.take(tb.len() as int) == lit_chars(tb)
            && toks_match(tt, s.skip(tb.len() as int))),
    decreases tb.len(),
{
    if tb.len() == 0 {
        assert(tb + tt =~= tt);
        assert(s.skip(0) =~= s);
        assert(s.take(0) =~= lit_chars(tb));
    } else {
        let c = lit_char(tb[0]);
        assert(tb[0] is Lit);
        assert(tb[0] == TokView::Lit(c));
        assert((tb + tt)[0] == tb[0]);
        assert((tb + tt).len() >= 1);
        assert(all_literal(tb.drop_first())) by {
            assert(forall|i: int|
                0 <= i < tb.drop_first().len() ==> #[trigger] tb.drop_first()[i] == tb[i + 1]);
        }
        if s.len() == 0 {
            assert(!toks_match(tb + tt, s));
        } else {
            assert((tb + tt).drop_first() =~= tb.drop_first() + tt);
            lemma_literal_prefix(tb.drop_first(), tt, s.drop_first());
            if s.len() >= tb.len() {
                assert(s.drop_first().skip(tb.len() - 1) =~= s.skip(tb.len() as int));
            }
            assert(lit_chars(tb.drop_first()) =~= lit_chars(tb).drop_first());
            // Bridge the two take/drop forms of the consumed text.
            if s.len() >= tb.len() {
                if s[0] == c && s.drop_first().take(tb.len() - 1) == lit_chars(tb.drop_first()) {
                    assert forall|i: int| 0 <= i < tb.len() implies s.take(tb.len() as int)[i] == lit_chars(
                        tb,
                    )[i] by {
                        if i == 0 {
                            assert(lit_chars(tb)[0] == lit_char(tb[0]));
                        } else {
                            assert(s.drop_first().take(tb.len() - 1)[i - 1] == s[i]);
                            assert(lit_chars(tb).drop_first()[i - 1] == lit_chars(tb)[i]);
                        }
                    }
                    assert(s.take(tb.len() as int) =~= lit_chars(tb));
                }
                if s.take(tb.len() as int) == lit_chars(tb) {
                    assert(s[0] == s.take(tb.len() as int)[0]);
                    assert(lit_chars(tb)[0] == lit_char(tb[0]));
                    assert(s[0] == c);
                    assert forall|i: int| 0 <= i < tb.len() - 1 implies s.drop_first().take(tb.len() - 1)[i]
                        == lit_chars(tb.drop_first())[i] by {
                        assert(s.take(tb.len() as int)[i + 1] == s[i + 1]);
                        assert(lit_chars(tb).drop_first()[i] == lit_chars(tb)[i + 1]);
                    }
                    assert(s.drop_first().take(tb.len() - 1) =~= lit_chars(tb.drop_first()));
                }
            }
        }
    }
}

/// Mount round trip: compiling a sub-table template under a literal base
/// path and matching `base + p` is the same as matching the sub-table's
/// own matcher against `p` directly.
pub proof fn law_mount_round_trip(base: Seq<char>, u: Seq<char>, anchored: bool, p: Seq<char>)
    requires
        base.len() >= 2,
        base[0] == '/',
        base.last() != '/',
        all_literal(spec_tokenize(base)),
        u.len() >= 1,
        u[0] == '/',
        u == seq!['/'] || u.last() != '/',
        p.len() >= 1,
        p[0] == '/',
    ensures
        pat_matches(spec_compile(base + u, anchored), base + p) == pat_matches(
            spec_matcher(u, anchored),
            p,
        ),
{
    reveal_with_fuel(spec_tokenize, 2);
    lemma_tokenize_literal(base);
    let tb = spec_tokenize(base);
    assert(tb =~= base.map_values(|c: char| tok_lit(c)));
    assert(tb.len() == base.len());
    assert forall|i: int| 0 <= i < tb.len() implies lit_chars(tb)[i] == base[i] by {
        assert(tb[i] == tok_lit(base[i]));
    }
    assert(lit_chars(tb) =~= base);
    let msub = spec_matcher(u, anchored);
    if u == seq!['/'] {
        // base + "/" normalizes back to base.
        let t = base + u;
        assert(t.last() == '/');
        assert(t.drop_last() =~= base);
        assert(spec_normalize_template(t) == base);
        let mb = spec_compile(base + u, anchored);
        assert(mb == spec_matcher(base, anchored));
        assert(mb.opt_slash) by {
            assert(base[0] == '/' && base.last() != '/');
        }
        assert(msub.toks =~= seq![TokView::Lit('/')]);
        assert(all_literal(msub.toks));
        assert(!msub.opt_slash);
        lemma_literal_match(msub.toks, p);
        lemma_literal_match(msub.toks, p.drop_last());
        assert(lit_chars(msub.toks) =~= seq!['/']);
        if anchored {
            lemma_literal_match(tb, base + p);
            lemma_literal_match(tb, (base + p).drop_last());
            assert((base + p).drop_last() =~= base + p.drop_last());
            if p == seq!['/'] {
                assert((base + p).drop_last() == base);
                assert((base + p).last() == '/');
                assert(core_match(mb, base + p));
                assert(core_match(msub, p));
            } else {
                assert(!(base + p == base));
                if p.drop_last() == Seq::<char>::empty() {
                    assert(p.len() == 1);
                    assert(p =~= seq![p[0]]);
                    assert(p == seq!['/']);
                    assert(false);
                }
                assert(base + p.drop_last() != base) by {
                    if base + p.drop_last() == base {
                        assert((base + p.drop_last()).len() == base.len());
                        assert(p.drop_last().len() == 0);
                        assert(p.len() == 1);
                        assert(p =~= seq![p[0]]);
                        assert(false);
                    }
                }
                assert(!core_match(mb, base + p));
                assert(!(p == lit_chars(msub.toks)));
                assert(p.drop_last() != lit_chars(msub.toks) || p.last() != '/' || !msub.opt_slash);
                assert(!core_match(msub, p));
            }
        } else {
            // Both sides match every path here.
            assert((base + p).take(base.len() as int) =~= base);
            lemma_literal_match(tb, base);
            assert(core_match(mb, (base + p).take(base.len() as int)));
            assert(p.take(1) =~= seq![p[0]]);
            assert(p.take(1) =~= seq!['/']);
            lemma_literal_match(msub.toks, p.take(1));
            assert(core_match(msub, p.take(1)));
            assert(pat_matches(mb, base + p));
            assert(pat_matches(msub, p));
        }
    } else {
        // base + u is already normalized.
        let t = base + u;
        assert(t[0] == '/');
        assert(t.last() == u.last());
        assert(spec_normalize_template(t) == t);
        let mb = spec_compile(base + u, anchored);
        lemma_tokenize_concat(base, u);
        let tu = spec_tokenize(u);
        assert(mb.toks == tb + tu);
        lemma_tokenize_nonempty(u);
        assert(mb.opt_slash) by {
            assert(t.len() >= 3);
            if t == seq!['/'] {
                assert(t.len() == 1);
            }
        }
        assert(msub.opt_slash) by {
            if u == seq!['/'] {
                assert(false);
            }
        }
        // For nonempty x: core_match(mb, base + x) == core_match(msub, x).
        assert forall|x: Seq<char>| x.len() >= 1 implies core_match(mb, base + x) == core_match(
            msub,
            x,
        ) by {
            lemma_literal_prefix(tb, tu, base + x);
            assert((base + x).take(base.len() as int) =~= base);
            assert((base + x).skip(base.len() as int) =~= x);
            assert(toks_match(mb.toks, base + x) == toks_match(tu, x));
            assert((base + x).drop_last() =~= base + x.drop_last());
            lemma_literal_prefix(tb, tu, base + x.drop_last());
            assert((base + x.drop_last()).take(base.len() as int) =~= base);
            assert((base + x.drop_last()).skip(base.len() as int) =~= x.drop_last());
            assert(toks_match(mb.toks, base + x.drop_last()) == toks_match(tu, x.drop_last()));
            assert((base + x).last() == x.last());
        }
        if anchored {
            assert(core_match(mb, base + p) == core_match(msub, p));
        } else {
            if pat_matches(msub, p) {
                let j = choose|j: int| 0 <= j <= p.len() && core_match(msub, #[trigger] p.take(j));
                assert(core_match(msub, p.take(j)));
                if j == 0 {
                    assert(p.take(0) =~= Seq::<char>::empty());
                    assert(!toks_match(tu, p.take(0)));
                    assert(!core_match(msub, p.take(0)));
                    assert(false);
                }
                assert((base + p).take(base.len() + j) =~= base + p.take(j));
                assert(core_match(mb, (base + p).take(base.len() + j)));
                assert(pat_matches(mb, base + p));
            }
            if pat_matches(mb, base + p) {
                let j = choose|j: int|
                    0 <= j <= (base + p).len() && core_match(mb, #[trigger] (base + p).take(j));
                assert(core_match(mb, (base + p).take(j)));
                if j < base.len() {
                    let w = (base + p).take(j);
                    assert(w =~= base.take(j));
                    lemma_literal_prefix(tb, tu, w);
                    assert(!toks_match(mb.toks, w));
                    lemma_literal_prefix(tb, tu, w.drop_last());
                    assert(w.drop_last().len() < tb.len());
                    assert(!toks_match(mb.toks, w.drop_last()));
                    assert(false);
                } else if j == base.len() {
                    let w = (base + p).take(j);
                    assert(w =~= base);
                    lemma_literal_prefix(tb, tu, w);
                    assert(w.skip(base.len() as int) =~= Seq::<char>::empty());
                    assert(!toks_match(tu, w.skip(base.len() as int)));
                    assert(!toks_match(mb.toks, w));
                    lemma_literal_prefix(tb, tu, w.drop_last());
                    assert(w.drop_last().len() < tb.len());
                    assert(!toks_match(mb.toks, w.drop_last()));
                    assert(w.last() == base.last());
                    assert(!core_match(mb, w));
                    assert(false);
                } else {
                    let jj = j - base.len();
                    assert((base + p).take(j) =~= base + p.take(jj));
                    assert(core_match(mb, base + p.take(jj)));
                    assert(p.take(jj).len() >= 1);
                    assert(core_match(msub, p.take(jj)));
                    assert(pat_matches(msub, p));
                }
            }
        }
    }
}

impl Matcher {
    /// Compile an already normalized template into a matcher.
    pub fn compile(mounted: &str, anchored: bool) -> (m: Matcher)
        ensures
            m@ == spec_matcher(mounted@, anchored),
    {
        proof {
            reveal_strlit("/");
        }
        let mut toks: Vec<PatTok> = Vec::new();
        let len = mounted.unicode_len();
        tokenize_from(mounted, 0, len, &mut toks);
        proof {
            assert(mounted@.skip(0) =~= mounted@);
            assert(toks_view(toks@) =~= spec_tokenize(mounted@));
        }
        let root = crate::strutil::str_eq(mounted, "/");
        proof {
            assert("/"@ =~= seq!['/']);
        }
        let m = Matcher { toks, anchored, opt_slash: !root };
        proof {
            assert(m@ =~= spec_matcher(mounted@, anchored));
        }
        m
    }
}

} // verus!
