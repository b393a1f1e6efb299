//! The matcher language: a composable boolean predicate over the path of
//! an incoming request.

use vstd::prelude::*;

use crate::check::CheckConfig;
use crate::errors::{add_ctx, msg_invalid_regex, msg_no_submatchers, ConfigError, ErrView,
    ErrorContext};
use crate::paths::{all_slashes, is_all_slashes, trim_slashes, trimmed_eq};
use crate::regexes::{compiled_from, regex_compile, regex_compiles, regex_is_match, regex_match};

verus! {

/// A composable boolean predicate over a request path.
///
/// A matcher is built once from configuration, prepared once (regular
/// expressions compiled, combinator lists checked non-empty), and then
/// read-only for the lifetime of the table that owns it.
pub enum Matcher {
    /// True when the request path equals `path`, once `/` characters are
    /// stripped from both ends of each side.
    Path { path: String },
    /// True when the regular expression `expr` matches the raw, untrimmed
    /// request path. `compiled` is filled at preparation time; an
    /// unprepared `Regex` is never evaluated.
    Regex { expr: String, compiled: Option<regex::Regex> },
    /// True when at least one child matches. The list must be non-empty.
    Any { of: Vec<Matcher> },
    /// True when every child matches. The list must be non-empty.
    All { of: Vec<Matcher> },
    /// True when the child does not match.
    Not { matcher: Box<Matcher> },
    /// True when the path consists of `/` characters alone, the empty
    /// path included.
    Root,
}

/// Acceptable matcher configuration: every combinator list is non-empty
/// and every regular expression compiles.
pub open spec fn matcher_valid(m: Matcher) -> bool
    decreases m, 1int,
{
    match m {
        Matcher::Path { .. } => true,
        Matcher::Regex { expr, .. } => regex_compiles(expr@),
        Matcher::Any { of } => of@.len() > 0 && list_valid(of@),
        Matcher::All { of } => of@.len() > 0 && list_valid(of@),
        Matcher::Not { matcher } => matcher_valid(*matcher),
        Matcher::Root => true,
    }
}

/// Every matcher of the list is valid.
pub open spec fn list_valid(of: Seq<Matcher>) -> bool
    decreases of, 0int,
{
    if of.len() == 0 {
        true
    } else {
        matcher_valid(of[0]) && list_valid(of.drop_first())
    }
}

/// A prepared matcher: valid, and every `Regex` node carries the compiled
/// form of its own pattern.
pub open spec fn matcher_prepared(m: Matcher) -> bool
    decreases m, 1int,
{
    match m {
        Matcher::Path { .. } => true,
        Matcher::Regex { expr, compiled } => regex_compiles(expr@) && (compiled matches Some(re)
            && compiled_from(re, expr@)),
        Matcher::Any { of } => of@.len() > 0 && list_prepared(of@),
        Matcher::All { of } => of@.len() > 0 && list_prepared(of@),
        Matcher::Not { matcher } => matcher_prepared(*matcher),
        Matcher::Root => true,
    }
}

/// Every matcher of the list is prepared.
pub open spec fn list_prepared(of: Seq<Matcher>) -> bool
    decreases of, 0int,
{
    if of.len() == 0 {
        true
    } else {
        matcher_prepared(of[0]) && list_prepared(of.drop_first())
    }
}

/// The predicate a matcher denotes on a request path.
pub open spec fn matcher_matches(m: Matcher, path: Seq<char>) -> bool
    decreases m, 1int,
{
    match m {
        Matcher::Path { path: p } => trim_slashes(p@) == trim_slashes(path),
        Matcher::Regex { expr, .. } => regex_match(expr@, path),
        Matcher::Any { of } => list_any(of@, path),
        Matcher::All { of } => list_all(of@, path),
        Matcher::Not { matcher } => !matcher_matches(*matcher, path),
        Matcher::Root => all_slashes(path),
    }
}

/// At least one matcher of the list accepts the path.
pub open spec fn list_any(of: Seq<Matcher>, path: Seq<char>) -> bool
    decreases of, 0int,
{
    if of.len() == 0 {
        false
    } else {
        matcher_matches(of[0], path) || list_any(of.drop_first(), path)
    }
}

/// Every matcher of the list accepts the path.
pub open spec fn list_all(of: Seq<Matcher>, path: Seq<char>) -> bool
    decreases of, 0int,
{
    if of.len() == 0 {
        true
    } else {
        matcher_matches(of[0], path) && list_all(of.drop_first(), path)
    }
}

/// `a` and `b` carry the same plain configuration content: the same tree
/// with the same strings, preparation artifacts aside.
pub open spec fn matcher_like(a: Matcher, b: Matcher) -> bool
    decreases a, 1int,
{
    match (a, b) {
        (Matcher::Path { path: p }, Matcher::Path { path: q }) => p@ == q@,
        (Matcher::Regex { expr: e1, .. }, Matcher::Regex { expr: e2, .. }) => e1@ == e2@,
        (Matcher::Any { of: o1 }, Matcher::Any { of: o2 }) => list_like(o1@, o2@),
        (Matcher::All { of: o1 }, Matcher::All { of: o2 }) => list_like(o1@, o2@),
        (Matcher::Not { matcher: m1 }, Matcher::Not { matcher: m2 }) => matcher_like(*m1, *m2),
        (Matcher::Root, Matcher::Root) => true,
        _ => false,
    }
}

/// The lists have the same length and matching elements are `like` one
/// another.
pub open spec fn list_like(a: Seq<Matcher>, b: Seq<Matcher>) -> bool
    decreases a, 0int,
{
    if a.len() != b.len() {
        false
    } else if a.len() == 0 {
        true
    } else {
        matcher_like(a[0], b[0]) && list_like(a.drop_first(), b.drop_first())
    }
}

/// The first problem in a matcher tree, in declaration order, located by
/// its context chain; `None` when the tree is valid.
pub open spec fn matcher_err(m: Matcher) -> Option<ErrView>
    decreases m, 1int,
{
    match m {
        Matcher::Path { .. } => None,
        Matcher::Regex { expr, .. } => if regex_compiles(expr@) {
            None
        } else {
            Some(ErrView { message: msg_invalid_regex(), contexts: Seq::empty() })
        },
        Matcher::Any { of } => if of@.len() == 0 {
            Some(ErrView { message: msg_no_submatchers(), contexts: seq![ErrorContext::InAnyBlock] })
        } else {
            match list_err(of@) {
                Some(e) => Some(add_ctx(e, ErrorContext::InAnyBlock)),
                None => None,
            }
        },
        Matcher::All { of } => if of@.len() == 0 {
            Some(ErrView { message: msg_no_submatchers(), contexts: seq![ErrorContext::InAllBlock] })
        } else {
            match list_err(of@) {
                Some(e) => Some(add_ctx(e, ErrorContext::InAllBlock)),
                None => None,
            }
        },
        Matcher::Not { matcher } => matcher_err(*matcher),
        Matcher::Root => None,
    }
}

/// The first problem among the matchers of a combinator list, left to
/// right; `None` when every one is valid.
pub open spec fn list_err(of: Seq<Matcher>) -> Option<ErrView>
    decreases of, 0int,
{
    if of.len() == 0 {
        None
    } else if matcher_err(of[0]) is Some {
        matcher_err(of[0])
    } else {
        list_err(of.drop_first())
    }
}

/// `check` reports no problem exactly on valid matcher trees.
pub proof fn lemma_err_none_iff_valid(m: Matcher)
    ensures
        matcher_err(m) is None <==> matcher_valid(m),
    decreases m, 1int,
{
    match m {
        Matcher::Any { of } => {
            lemma_list_err_none_iff_valid(of@);
        },
        Matcher::All { of } => {
            lemma_list_err_none_iff_valid(of@);
        },
        Matcher::Not { matcher } => {
            lemma_err_none_iff_valid(*matcher);
        },
        _ => {},
    }
}

proof fn lemma_list_err_none_iff_valid(of: Seq<Matcher>)
    ensures
        list_err(of) is None <==> list_valid(of),
    decreases of, 0int,
{
    if of.len() > 0 {
        lemma_err_none_iff_valid(of[0]);
        lemma_list_err_none_iff_valid(of.drop_first());
    }
}

/// `matcher_like` holds of every matcher and itself.
pub proof fn lemma_like_reflexive(m: Matcher)
    ensures
        matcher_like(m, m),
    decreases m, 1int,
{
    match m {
        Matcher::Any { of } => {
            lemma_list_like_reflexive(of@);
        },
        Matcher::All { of } => {
            lemma_list_like_reflexive(of@);
        },
        Matcher::Not { matcher } => {
            lemma_like_reflexive(*matcher);
        },
        _ => {},
    }
}

proof fn lemma_list_like_reflexive(of: Seq<Matcher>)
    ensures
        list_like(of, of),
    decreases of, 0int,
{
    if of.len() > 0 {
        lemma_like_reflexive(of[0]);
        lemma_list_like_reflexive(of.drop_first());
    }
}

/// Two matchers with the same plain content accept exactly the same
/// paths and are valid in exactly the same configurations: preparation
/// artifacts never change what a matcher means.
pub proof fn lemma_like_same_meaning(a: Matcher, b: Matcher, path: Seq<char>)
    requires
        matcher_like(a, b),
    ensures
        matcher_matches(a, path) == matcher_matches(b, path),
        matcher_valid(a) == matcher_valid(b),
    decreases a, 1int,
{
    match (a, b) {
        (Matcher::Any { of: o1 }, Matcher::Any { of: o2 }) => {
            lemma_list_like_same_meaning(o1@, o2@, path);
        },
        (Matcher::All { of: o1 }, Matcher::All { of: o2 }) => {
            lemma_list_like_same_meaning(o1@, o2@, path);
        },
        (Matcher::Not { matcher: m1 }, Matcher::Not { matcher: m2 }) => {
            lemma_like_same_meaning(*m1, *m2, path);
        },
        _ => {},
    }
}

proof fn lemma_list_like_same_meaning(a: Seq<Matcher>, b: Seq<Matcher>, path: Seq<char>)
    requires
        list_like(a, b),
    ensures
        list_any(a, path) == list_any(b, path),
        list_all(a, path) == list_all(b, path),
        list_valid(a) == list_valid(b),
    decreases a, 0int,
{
    if a.len() > 0 {
        lemma_like_same_meaning(a[0], b[0], path);
        lemma_list_like_same_meaning(a.drop_first(), b.drop_first(), path);
    }
}

/// A list is prepared exactly when each of its matchers is.
pub proof fn lemma_list_prepared_iff(of: Seq<Matcher>)
    ensures
        list_prepared(of) <==> (forall|i: int|
            0 <= i < of.len() ==> #[trigger] matcher_prepared(of[i])),
    decreases of.len(),
{
    if of.len() > 0 {
        let df = of.drop_first();
        lemma_list_prepared_iff(df);
        if list_prepared(of) {
            assert forall|i: int| 0 <= i < of.len() implies #[trigger] matcher_prepared(of[i]) by {
                if i > 0 {
                    assert(matcher_prepared(df[i - 1]));
                }
            }
        }
        if forall|i: int| 0 <= i < of.len() ==> #[trigger] matcher_prepared(of[i]) {
            assert forall|i: int| 0 <= i < df.len() implies #[trigger] matcher_prepared(df[i]) by {
                assert(matcher_prepared(of[i + 1]));
            }
            assert(matcher_prepared(of[0]));
            assert(list_prepared(of));
        }
    }
}

/// Two lists are `like` one another exactly when they have the same
/// length and matching elements are `like` one another.
pub proof fn lemma_list_like_iff(a: Seq<Matcher>, b: Seq<Matcher>)
    ensures
        list_like(a, b) <==> (a.len() == b.len() && (forall|i: int|
            0 <= i < a.len() ==> #[trigger] matcher_like(a[i], b[i]))),
    decreases a.len(),
{
    if a.len() > 0 && a.len() == b.len() {
        let da = a.drop_first();
        let db = b.drop_first();
        lemma_list_like_iff(da, db);
        if list_like(a, b) {
            assert forall|i: int| 0 <= i < a.len() implies #[trigger] matcher_like(a[i], b[i]) by {
                if i > 0 {
                    assert(matcher_like(da[i - 1], db[i - 1]));
                }
            }
        }
        if forall|i: int| 0 <= i < a.len() ==> #[trigger] matcher_like(a[i], b[i]) {
            assert forall|i: int| 0 <= i < da.len() implies #[trigger] matcher_like(da[i], db[i]) by {
                assert(matcher_like(a[i + 1], b[i + 1]));
            }
            assert(matcher_like(a[0], b[0]));
            assert(list_like(a, b));
        }
    }
}

/// At least one matcher of a list accepts a path exactly when some
/// element does: with a non-empty list this is the meaning of `Any`.
pub proof fn lemma_list_any_iff(of: Seq<Matcher>, path: Seq<char>)
    ensures
        list_any(of, path) <==> (exists|i: int|
            0 <= i < of.len() && #[trigger] matcher_matches(of[i], path)),
    decreases of.len(),
{
    if of.len() > 0 {
        let df = of.drop_first();
        lemma_list_any_iff(df, path);
        if list_any(of, path) {
            if matcher_matches(of[0], path) {
                assert(0 <= 0 < of.len() && matcher_matches(of[0], path));
            } else {
                let j = choose|j: int| 0 <= j < df.len() && #[trigger] matcher_matches(df[j], path);
                assert(matcher_matches(of[j + 1], path));
            }
        }
        if exists|i: int| 0 <= i < of.len() && #[trigger] matcher_matches(of[i], path) {
            let i = choose|i: int| 0 <= i < of.len() && #[trigger] matcher_matches(of[i], path);
            if i > 0 {
                assert(matcher_matches(df[i - 1], path));
            }
        }
    }
}

/// Every matcher of a list accepts a path exactly when each element
/// does: with a non-empty list this is the meaning of `All`.
pub proof fn lemma_list_all_iff(of: Seq<Matcher>, path: Seq<char>)
    ensures
        list_all(of, path) <==> (forall|i: int|
            0 <= i < of.len() ==> #[trigger] matcher_matches(of[i], path)),
    decreases of.len(),
{
    if of.len() > 0 {
        let df = of.drop_first();
        lemma_list_all_iff(df, path);
        if list_all(of, path) {
            assert forall|i: int| 0 <= i < of.len() implies #[trigger] matcher_matches(
                of[i],
                path,
            ) by {
                if i > 0 {
                    assert(matcher_matches(df[i - 1], path));
                }
            }
        }
        if forall|i: int| 0 <= i < of.len() ==> #[trigger] matcher_matches(of[i], path) {
            assert forall|i: int| 0 <= i < df.len() implies #[trigger] matcher_matches(
                df[i],
                path,
            ) by {
                assert(matcher_matches(of[i + 1], path));
            }
            assert(matcher_matches(of[0], path));
            assert(list_all(of, path));
        }
    }
}

/// An `All` combinator over a non-empty list matches a path exactly when
/// every child matches it.
pub proof fn lemma_all_matches(n: Matcher, path: Seq<char>)
    requires
        n is All,
        n->All_of@.len() > 0,
    ensures
        matcher_matches(n, path) <==> (forall|i: int|
            0 <= i < n->All_of@.len() ==> #[trigger] matcher_matches(n->All_of@[i], path)),
{
    lemma_list_all_iff(n->All_of@, path);
}

/// An `Any` combinator over a non-empty list matches a path exactly when
/// at least one child matches it.
pub proof fn lemma_any_matches(n: Matcher, path: Seq<char>)
    requires
        n is Any,
        n->Any_of@.len() > 0,
    ensures
        matcher_matches(n, path) <==> (exists|i: int|
            0 <= i < n->Any_of@.len() && #[trigger] matcher_matches(n->Any_of@[i], path)),
{
    lemma_list_any_iff(n->Any_of@, path);
}

/// A `Not` combinator matches a path exactly when its child does not.
pub proof fn lemma_not_matches(n: Matcher, path: Seq<char>)
    requires
        n is Not,
    ensures
        matcher_matches(n, path) <==> !matcher_matches(*n->matcher, path),
{
}

impl Matcher {
    /// Whether this matcher accepts the request path. Pure and total on a
    /// prepared matcher: it never fails and never performs I/O.
    pub fn matches(&self, path: &str) -> (r: bool)
        requires
            matcher_prepared(*self),
        ensures
            r == matcher_matches(*self, path@),
        decreases *self,
    {
        match self {
            Matcher::Path { path: p } => trimmed_eq(path, p.as_str()),
            Matcher::Regex { compiled, .. } => {
                let re = compiled.as_ref().unwrap();
                regex_is_match(re, path)
            },
            Matcher::Any { of } => any_matches(of, path),
            Matcher::All { of } => all_matches(of, path),
            Matcher::Not { matcher } => !matcher.matches(path),
            Matcher::Root => is_all_slashes(path),
        }
    }
}

/// Whether at least one matcher of the list accepts the path;
/// short-circuits left to right.
#[verifier::loop_isolation(false)]
fn any_matches(of: &Vec<Matcher>, path: &str) -> (r: bool)
    requires
        list_prepared(of@),
    ensures
        r == list_any(of@, path@),
    decreases of@,
{
    proof {
        lemma_list_prepared_iff(of@);
        assert(of@.subrange(0, of@.len() as int) =~= of@);
    }
    let mut k: usize = 0;
    while k < of.len()
        invariant
            k <= of@.len(),
            list_any(of@, path@) == list_any(of@.subrange(k as int, of@.len() as int), path@),
        decreases of@.len() - k,
    {
        let ghost pre = of@.subrange(k as int, of@.len() as int);
        let matched = of[k].matches(path);
        proof {
            assert(pre[0] == of@[k as int]);
            assert(pre.drop_first() =~= of@.subrange(k as int + 1, of@.len() as int));
        }
        if matched {
            return true;
        }
        k = k + 1;
    }
    proof {
        assert(of@.subrange(k as int, of@.len() as int) =~= Seq::<Matcher>::empty());
    }
    false
}

/// Whether every matcher of the list accepts the path; short-circuits
/// left to right.
#[verifier::loop_isolation(false)]
fn all_matches(of: &Vec<Matcher>, path: &str) -> (r: bool)
    requires
        list_prepared(of@),
    ensures
        r == list_all(of@, path@),
    decreases of@,
{
    proof {
        lemma_list_prepared_iff(of@);
        assert(of@.subrange(0, of@.len() as int) =~= of@);
    }
    let mut k: usize = 0;
    while k < of.len()
        invariant
            k <= of@.len(),
            list_all(of@, path@) == list_all(of@.subrange(k as int, of@.len() as int), path@),
        decreases of@.len() - k,
    {
        let ghost pre = of@.subrange(k as int, of@.len() as int);
        let matched = of[k].matches(path);
        proof {
            assert(pre[0] == of@[k as int]);
            assert(pre.drop_first() =~= of@.subrange(k as int + 1, of@.len() as int));
        }
        if !matched {
            return false;
        }
        k = k + 1;
    }
    proof {
        assert(of@.subrange(k as int, of@.len() as int) =~= Seq::<Matcher>::empty());
    }
    true
}

/// Validates `m` and compiles its regular expressions, returning the
/// prepared form. On failure the first problem in declaration order is
/// reported; children before it keep their prepared form, children after
/// it are left untouched.
fn matcher_check_owned(m: Matcher) -> (r: (Matcher, Result<(), ConfigError>))
    ensures
        matcher_like(m, r.0),
        r.1 is Ok <==> matcher_err(m) is None,
        r.1 is Ok ==> matcher_prepared(r.0),
        r.1 matches Err(e) ==> (matcher_err(m) matches Some(v) && e@ == v),
    decreases m, 1int,
{
    match m {
        Matcher::Path { path } => (Matcher::Path { path }, Ok(())),
        Matcher::Root => (Matcher::Root, Ok(())),
        Matcher::Regex { expr, compiled } => {
            match regex_compile(expr.as_str()) {
                Some(re) => (Matcher::Regex { expr, compiled: Some(re) }, Ok(())),
                None => {
                    let e = ConfigError::new("invalid regular expression".to_owned());
                    (Matcher::Regex { expr, compiled }, Err(e))
                },
            }
        },
        Matcher::Any { of } => {
            if of.len() == 0 {
                let e = ConfigError::new(
                    "no submatchers. there should be at least one.".to_owned(),
                ).with_context(ErrorContext::InAnyBlock);
                proof {
                    assert(Seq::<ErrorContext>::empty().push(ErrorContext::InAnyBlock)
                        =~= seq![ErrorContext::InAnyBlock]);
                    assert(list_like(of@, of@));
                }
                (Matcher::Any { of }, Err(e))
            } else {
                let ghost ofv = of@;
                let (of2, res) = check_vec(of);
                proof {
                    lemma_list_like_iff(ofv, of2@);
                    lemma_list_prepared_iff(of2@);
                    assert(list_like(ofv, of2@));
                }
                match res {
                    Ok(()) => (Matcher::Any { of: of2 }, Ok(())),
                    Err(e) => (Matcher::Any { of: of2 }, Err(
                        e.with_context(ErrorContext::InAnyBlock),
                    )),
                }
            }
        },
        Matcher::All { of } => {
            if of.len() == 0 {
                let e = ConfigError::new(
                    "no submatchers. there should be at least one.".to_owned(),
                ).with_context(ErrorContext::InAllBlock);
                proof {
                    assert(Seq::<ErrorContext>::empty().push(ErrorContext::InAllBlock)
                        =~= seq![ErrorContext::InAllBlock]);
                    assert(list_like(of@, of@));
                }
                (Matcher::All { of }, Err(e))
            } else {
                let ghost ofv = of@;
                let (of2, res) = check_vec(of);
                proof {
                    lemma_list_like_iff(ofv, of2@);
                    lemma_list_prepared_iff(of2@);
                    assert(list_like(ofv, of2@));
                }
                match res {
                    Ok(()) => (Matcher::All { of: of2 }, Ok(())),
                    Err(e) => (Matcher::All { of: of2 }, Err(
                        e.with_context(ErrorContext::InAllBlock),
                    )),
                }
            }
        },
        Matcher::Not { matcher } => {
            let (m2, res) = matcher_check_owned(*matcher);
            (Matcher::Not { matcher: Box::new(m2) }, res)
        },
    }
}

/// Checks the matchers of a combinator list left to right, stopping at
/// the first failure and leaving the matchers after it untouched.
#[verifier::loop_isolation(false)]
fn check_vec(of: Vec<Matcher>) -> (r: (Vec<Matcher>, Result<(), ConfigError>))
    ensures
        r.0@.len() == of@.len(),
        forall|i: int| 0 <= i < of@.len() ==> #[trigger] matcher_like(of@[i], r.0@[i]),
        r.1 is Ok <==> list_err(of@) is None,
        r.1 is Ok ==> forall|i: int| 0 <= i < r.0@.len() ==> #[trigger] matcher_prepared(r.0@[i]),
        r.1 matches Err(e) ==> (list_err(of@) matches Some(v) && e@ == v),
    decreases of@, 0int,
{
    let ghost orig = of@;
    let mut rest = of;
    let mut out: Vec<Matcher> = Vec::new();
    while rest.len() > 0
        invariant
            out@.len() + rest@.len() == orig.len(),
            rest@ == orig.subrange(out@.len() as int, orig.len() as int),
            forall|i: int| 0 <= i < out@.len() ==> #[trigger] matcher_like(orig[i], out@[i]),
            forall|i: int| 0 <= i < out@.len() ==> #[trigger] matcher_prepared(out@[i]),
            list_err(orig) == list_err(rest@),
        decreases rest@.len(),
    {
        let ghost rest_before = rest@;
        let m = rest.remove(0);
        proof {
            assert(rest_before.remove(0) =~= rest_before.drop_first());
            assert(rest@ =~= orig.subrange(out@.len() as int + 1, orig.len() as int));
        }
        let (m2, res) = matcher_check_owned(m);
        out.push(m2);
        match res {
            Ok(()) => {},
            Err(e) => {
                proof {
                    assert forall|i: int| out@.len() <= i < orig.len() implies #[trigger] matcher_like(
                        orig[i],
                        orig[i],
                    ) by {
                        lemma_like_reflexive(orig[i]);
                    }
                }
                out.append(&mut rest);
                return (out, Err(e));
            },
        }
    }
    proof {
        assert(rest@ =~= Seq::<Matcher>::empty());
    }
    (out, Ok(()))
}

impl CheckConfig for Matcher {
    open spec fn valid(self) -> bool {
        matcher_valid(self)
    }

    open spec fn prepared(self) -> bool {
        matcher_prepared(self)
    }

    open spec fn like(self, other: Self) -> bool {
        matcher_like(self, other)
    }

    open spec fn check_error(self) -> ErrView {
        matcher_err(self)->Some_0
    }

    fn check(&mut self) -> (r: Result<(), ConfigError>) {
        let mut owned = Matcher::Root;
        core::mem::swap(self, &mut owned);
        proof {
            lemma_err_none_iff_valid(owned);
        }
        let (m2, res) = matcher_check_owned(owned);
        *self = m2;
        res
    }
}

} // verus!
