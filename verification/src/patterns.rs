//! Regular expressions, as `regex` matches them.
use crate::text::opt_view;
use vstd::prelude::*;

verus! {

/// The first and second group of the first match that `regex::Regex::captures`
/// finds in a text, where the pattern is one that `regex::Regex::new` accepts
/// and it matches. A group that takes no part in the match is absent.
pub uninterp spec fn first_match(pattern: Seq<char>, text: Seq<char>) -> Option<
    (Option<Seq<char>>, Option<Seq<char>>),
>;

/// `regex::Regex::captures`: the first two groups of the first match, or
/// nothing where the pattern is refused or does not match.
#[verifier::external_body]
pub(crate) fn capture_groups(pattern: &str, text: &str) -> (r: Option<
    (Option<String>, Option<String>),
>)
    ensures
        match r {
            Some(g) => first_match(pattern@, text@) == Some((opt_view(g.0), opt_view(g.1))),
            None => first_match(pattern@, text@) is None,
        },
{
    let regex = regex::Regex::new(pattern).ok()?;
    let found = regex.captures(text)?;
    let one = found.get(1).map(|m| m.as_str().to_string());
    let two = found.get(2).map(|m| m.as_str().to_string());
    Some((one, two))
}

} // verus!
