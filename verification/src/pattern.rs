//! Regular expressions, as the `regex` crate matches them. What a pattern
//! captures in a text is not proved here: it is named, and the crate is
//! trusted to compute it.

use vstd::prelude::*;

verus! {

/// The error of the `regex` crate for a pattern that it cannot compile.
#[verifier::external_type_specification]
#[verifier::external_body]
pub struct ExPatternError(regex::Error);

/// Whether the `regex` crate compiles `pattern` under its default settings.
pub uninterp spec fn pattern_compiles(pattern: Seq<char>) -> bool;

/// What capture group `group` holds in the leftmost match of `pattern` in
/// `text`, where `text` is read as UTF-8 with each invalid sequence replaced
/// by U+FFFD. `None` where `pattern` matches nowhere in `text`, where it has no
/// such group, and where the group took no part in the match.
pub uninterp spec fn captured_group(pattern: Seq<char>, group: nat, text: Seq<u8>) -> Option<
    Seq<u8>,
>;

/// Compiles `pattern` with `regex::RegexBuilder::build`, reads `text` with
/// `String::from_utf8_lossy`, searches it with `regex::Regex::captures` and
/// returns the bytes of capture group `group` (`regex::Captures::get`,
/// `regex::Match::as_str`). The contract claims only that the outcome is a
/// function of the three arguments: an error exactly where the pattern does
/// not compile, and else what `captured_group` names. Nothing is claimed of
/// which patterns compile or of what a pattern captures.
#[verifier::external_body]
pub(crate) fn capture_group(pattern: &str, group: usize, text: &[u8]) -> (found: Result<
    Option<Vec<u8>>,
    regex::Error,
>)
    ensures
        found is Ok <==> pattern_compiles(pattern@),
        found matches Ok(Some(bytes)) ==> captured_group(pattern@, group as nat, text@) == Some(
            bytes@,
        ),
        found matches Ok(None) ==> captured_group(pattern@, group as nat, text@) is None,
{
    let compiled = regex::RegexBuilder::new(pattern).build()?;
    let readable = String::from_utf8_lossy(text);
    let captures = compiled.captures(&readable);
    Ok(captures.and_then(|c| c.get(group)).map(|m| m.as_str().as_bytes().to_vec()))
}

} // verus!
