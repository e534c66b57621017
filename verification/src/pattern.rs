//! Regular expressions, matched by `regex`.

use vstd::prelude::*;

verus! {

/// What the first capture group of `pattern` holds at the leftmost match of
/// `pattern` in `text`, as `regex` finds it; `None` where `pattern` is not a
/// regular expression that `regex` compiles, `text` has no match, or the
/// group took no part in the match.
pub uninterp spec fn first_group(pattern: Seq<char>, text: Seq<char>) -> Option<Seq<char>>;

/// The text of the first capture group of `pattern` in `text`.
///
/// Calls `regex::Regex::new`, `Regex::captures` and `Captures::get`, with
/// index 1, and copies the text of the match. The contract gives the result
/// its name and claims nothing more of it.
#[verifier::external_body]
pub(crate) fn capture_first_group(pattern: &str, text: &str) -> (out: Option<String>)
    ensures
        out matches Some(found) ==> first_group(pattern@, text@) == Some(found@),
        out is None ==> first_group(pattern@, text@) is None,
{
    let compiled = regex::Regex::new(pattern).ok()?;
    let groups = compiled.captures(text)?;
    let group = groups.get(1)?;
    Some(group.as_str().to_owned())
}

} // verus!
