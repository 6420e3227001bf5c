//! What the crate asks of `regex`.

use vstd::prelude::*;

use crate::wire;

verus! {

/// The text of the first group in the first match of `pattern` in `hay`;
/// `None` where the pattern does not compile, nothing matches, or the group
/// takes no part in the match.
pub uninterp spec fn first_capture(pattern: Seq<char>, hay: Seq<char>) -> Option<Seq<char>>;

/// The text of the first group in each match of `pattern` in `hay`, in order;
/// `None` where the pattern does not compile.
pub uninterp spec fn all_captures(pattern: Seq<char>, hay: Seq<char>) -> Option<
    Seq<Option<Seq<char>>>,
>;

/// `hay` with each match of `pattern` replaced by `template`, in which `$1`
/// and the like stand for the groups; `None` where the pattern does not
/// compile.
pub uninterp spec fn replaced(
    pattern: Seq<char>,
    hay: Seq<char>,
    template: Seq<char>,
) -> Option<Seq<char>>;

/// Compiles `pattern` with `regex::Regex::new`, searches with
/// `regex::Regex::captures` and takes group one of the match. What comes out
/// is a function of pattern and text, named [`first_capture`].
#[verifier::external_body]
pub(crate) fn capture(haystack: &str, pattern: &str) -> (r: Option<String>)
    ensures
        wire::opt_view(r) == first_capture(pattern@, haystack@),
{
    let re = regex::Regex::new(pattern).ok()?;
    let caps = re.captures(haystack)?;
    let m = caps.get(1)?;
    Some(m.as_str().to_owned())
}

/// Compiles `pattern` with `regex::Regex::new`, walks
/// `regex::Regex::captures_iter` and takes group one of each match. What comes
/// out is a function of pattern and text, named [`all_captures`].
#[verifier::external_body]
pub(crate) fn captures_iter(haystack: &str, pattern: &str) -> (r: Option<Vec<Option<String>>>)
    ensures
        match r {
            Some(v) => all_captures(pattern@, haystack@) == Some(
                v@.map_values(|o: Option<String>| wire::opt_view(o)),
            ),
            None => all_captures(pattern@, haystack@) is None,
        },
{
    let re = regex::Regex::new(pattern).ok()?;
    let found = re.captures_iter(haystack).map(|c| c.get(1).map(|m| m.as_str().to_owned()));
    Some(found.collect())
}

/// Compiles `pattern` with `regex::Regex::new` and rewrites `haystack` with
/// `regex::Regex::replace_all`. What comes out is a function of the three
/// texts, named [`replaced`].
#[verifier::external_body]
pub(crate) fn replace_all(haystack: &str, pattern: &str, template: &str) -> (r: Option<String>)
    ensures
        wire::opt_view(r) == replaced(pattern@, haystack@, template@),
{
    let re = regex::Regex::new(pattern).ok()?;
    Some(re.replace_all(haystack, template).into_owned())
}

} // verus!
