//! Request-path helpers: stripping `/` characters from both ends of a path
//! and recognising paths made of slashes alone.

use vstd::prelude::*;

verus! {

/// `s` with its leading `/` characters removed.
pub open spec fn trim_leading(s: Seq<char>) -> Seq<char>
    decreases s.len(),
{
    if s.len() > 0 && s[0] == '/' {
        trim_leading(s.drop_first())
    } else {
        s
    }
}

/// `s` with its trailing `/` characters removed.
pub open spec fn trim_trailing(s: Seq<char>) -> Seq<char>
    decreases s.len(),
{
    if s.len() > 0 && s[s.len() - 1] == '/' {
        trim_trailing(s.drop_last())
    } else {
        s
    }
}

/// `s` with `/` characters removed from both ends.
pub open spec fn trim_slashes(s: Seq<char>) -> Seq<char> {
    trim_trailing(trim_leading(s))
}

/// Every character of `s` is a `/`; true of the empty path.
pub open spec fn all_slashes(s: Seq<char>) -> bool {
    forall|i: int| 0 <= i < s.len() ==> s[i] == '/'
}

/// When the first `k` characters are slashes and the next one (if any) is
/// not, trimming the leading slashes keeps exactly the suffix from `k` on.
proof fn lemma_trim_leading_is_suffix(s: Seq<char>, k: int)
    requires
        0 <= k <= s.len(),
        forall|i: int| 0 <= i < k ==> s[i] == '/',
        k < s.len() ==> s[k] != '/',
    ensures
        trim_leading(s) == s.subrange(k, s.len() as int),
    decreases k,
{
    if k == 0 {
        assert(s == s.subrange(0, s.len() as int));
    } else {
        lemma_trim_leading_is_suffix(s.drop_first(), k - 1);
        assert(s.drop_first().subrange(k - 1, s.drop_first().len() as int)
            == s.subrange(k, s.len() as int));
    }
}

/// When the characters from `k` on are slashes and the one before `k`
/// (if any) is not, trimming the trailing slashes keeps exactly the
/// prefix up to `k`.
proof fn lemma_trim_trailing_is_prefix(s: Seq<char>, k: int)
    requires
        0 <= k <= s.len(),
        forall|i: int| k <= i < s.len() ==> s[i] == '/',
        k > 0 ==> s[k - 1] != '/',
    ensures
        trim_trailing(s) == s.subrange(0, k),
    decreases s.len() - k,
{
    if k == s.len() {
        assert(s == s.subrange(0, s.len() as int));
    } else {
        lemma_trim_trailing_is_prefix(s.drop_last(), k);
        assert(s.drop_last().subrange(0, k) == s.subrange(0, k));
    }
}

/// The characters of `s` from both ends that survive slash-trimming,
/// as a pair of indices into `s`.
fn trim_bounds(s: &str) -> (r: (usize, usize))
    ensures
        r.0 <= r.1 <= s@.len(),
        trim_slashes(s@) == s@.subrange(r.0 as int, r.1 as int),
{
    let n = s.unicode_len();
    let mut start: usize = 0;
    while start < n && s.get_char(start) == '/'
        invariant
            n == s@.len(),
            start <= n,
            forall|i: int| 0 <= i < start ==> s@[i] == '/',
        decreases n - start,
    {
        start = start + 1;
    }
    proof {
        lemma_trim_leading_is_suffix(s@, start as int);
    }
    let mut end: usize = n;
    while end > start && s.get_char(end - 1) == '/'
        invariant
            n == s@.len(),
            start <= end <= n,
            forall|i: int| end <= i < n ==> s@[i] == '/',
        decreases end,
    {
        end = end - 1;
    }
    proof {
        let tail = s@.subrange(start as int, n as int);
        lemma_trim_trailing_is_prefix(tail, end - start);
        assert(tail.subrange(0, end - start) == s@.subrange(start as int, end as int));
    }
    (start, end)
}

/// Whether `a` and `b` are equal once `/` characters are stripped from
/// both ends of each.
pub fn trimmed_eq(a: &str, b: &str) -> (r: bool)
    ensures
        r == (trim_slashes(a@) == trim_slashes(b@)),
{
    let (sa, ea) = trim_bounds(a);
    let (sb, eb) = trim_bounds(b);
    if ea - sa != eb - sb {
        proof {
            assert(trim_slashes(a@).len() == ea - sa);
            assert(trim_slashes(b@).len() == eb - sb);
        }
        return false;
    }
    let mut i: usize = 0;
    while i < ea - sa
        invariant
            sa <= ea <= a@.len(),
            sb <= eb <= b@.len(),
            ea - sa == eb - sb,
            i <= ea - sa,
            trim_slashes(a@) == a@.subrange(sa as int, ea as int),
            trim_slashes(b@) == b@.subrange(sb as int, eb as int),
            forall|j: int| 0 <= j < i ==> trim_slashes(a@)[j] == trim_slashes(b@)[j],
        decreases ea - sa - i,
    {
        if a.get_char(sa + i) != b.get_char(sb + i) {
            proof {
                assert(trim_slashes(a@)[i as int] != trim_slashes(b@)[i as int]);
            }
            return false;
        }
        i = i + 1;
    }
    proof {
        assert(trim_slashes(a@) =~= trim_slashes(b@));
    }
    true
}

/// Whether every character of `s` is a `/`.
pub fn is_all_slashes(s: &str) -> (r: bool)
    ensures
        r == all_slashes(s@),
{
    let n = s.unicode_len();
    let mut i: usize = 0;
    while i < n
        invariant
            n == s@.len(),
            i <= n,
            forall|j: int| 0 <= j < i ==> s@[j] == '/',
        decreases n - i,
    {
        if s.get_char(i) != '/' {
            return false;
        }
        i = i + 1;
    }
    true
}

} // verus!
