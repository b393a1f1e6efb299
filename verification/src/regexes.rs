//! Trusted boundary around the `regex` crate. A pattern is compiled once,
//! at preparation time; matching at serve time is a pure function of the
//! compiled pattern and the request path.

use vstd::prelude::*;

verus! {

#[verifier::external_type_specification]
#[verifier::external_body]
pub struct ExRegex(regex::Regex);

/// Whether `regex::Regex::new` accepts `pattern`; acceptance depends on
/// the pattern alone.
pub uninterp spec fn regex_compiles(pattern: Seq<char>) -> bool;

/// Whether the regular expression `pattern` matches somewhere in
/// `haystack`; the result depends on the two strings alone.
pub uninterp spec fn regex_match(pattern: Seq<char>, haystack: Seq<char>) -> bool;

/// Whether this compiled value finds a match in `haystack`.
pub uninterp spec fn regex_accepts(re: regex::Regex, haystack: Seq<char>) -> bool;

/// The compiled value matches exactly the haystacks that `pattern`
/// describes.
pub open spec fn compiled_from(re: regex::Regex, pattern: Seq<char>) -> bool {
    forall|h: Seq<char>| #[trigger] regex_accepts(re, h) == regex_match(pattern, h)
}

/// Relies on `regex::Regex::new`: it accepts or rejects a pattern
/// deterministically, and the compiled value it returns matches
/// haystacks as the pattern alone determines — `new` is the builder at
/// its default configuration, a function of the pattern.
#[verifier::external_body]
pub(crate) fn regex_compile(pattern: &str) -> (r: Option<regex::Regex>)
    ensures
        r is Some <==> regex_compiles(pattern@),
        r matches Some(re) ==> (forall|h: Seq<char>|
            #[trigger] regex_accepts(re, h) == regex_match(pattern@, h)),
        r matches Some(re) ==> compiled_from(re, pattern@),
{
    regex::Regex::new(pattern).ok()
}

/// Relies on `regex::Regex::is_match`: true iff the compiled value
/// matches somewhere in the haystack, a function of those two alone.
#[verifier::external_body]
pub(crate) fn regex_is_match(re: &regex::Regex, haystack: &str) -> (r: bool)
    ensures
        r == regex_accepts(*re, haystack@),
{
    re.is_match(haystack)
}

} // verus!
