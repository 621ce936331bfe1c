//! Regular expressions. They are compiled and run by the `regex` crate; this
//! module states what the library relies on.
use vstd::prelude::*;

verus! {

/// Trusted: declares `regex::Regex`, a compiled expression. It is opaque
/// here: nothing is claimed of what is inside.
#[verifier::external_type_specification]
#[verifier::external_body]
pub struct ExRegex(regex::Regex);

/// The text that a compiled expression was built from.
pub uninterp spec fn regex_source(re: regex::Regex) -> Seq<char>;

/// What compiling a pattern gives: nothing where it is accepted, else the
/// message of the error.
pub uninterp spec fn regex_fault(pattern: Seq<char>) -> Option<Seq<char>>;

/// Whether the expression written as `pattern` matches anywhere in `text`.
pub uninterp spec fn regex_found(pattern: Seq<char>, text: Seq<char>) -> bool;

/// Compiles a pattern.
///
/// Trusted: calls `regex::Regex::new`, and on failure takes the error's
/// `Display` text. Whether a pattern is accepted, and with which message it
/// is refused, is a function of the pattern alone; an accepted expression
/// remembers its pattern.
#[verifier::external_body]
pub(crate) fn compile(pattern: &str) -> (r: Result<regex::Regex, String>)
    ensures
        match r {
            Ok(re) => regex_fault(pattern@) is None && regex_source(re) == pattern@,
            Err(e) => regex_fault(pattern@) == Some(e@),
        },
{
    match regex::Regex::new(pattern) {
        Ok(re) => Ok(re),
        Err(e) => Err(e.to_string()),
    }
}

/// Whether a compiled expression matches anywhere in `text`.
///
/// Trusted: calls `regex::Regex::is_match`, which is true if and only if
/// there is a match anywhere in the text. The contract only names the
/// answer: it is a function of the pattern and the text.
#[verifier::external_body]
pub(crate) fn is_match(re: &regex::Regex, text: &str) -> (r: bool)
    ensures
        r == regex_found(regex_source(*re), text@),
{
    re.is_match(text)
}

/// Tests `text` against the expression written as `pattern`: whether it
/// matches anywhere, or the message with which the pattern is refused.
pub fn search(pattern: &str, text: &str) -> (r: Result<bool, String>)
    ensures
        match r {
            Ok(found) => regex_fault(pattern@) is None && found == regex_found(pattern@, text@),
            Err(e) => regex_fault(pattern@) == Some(e@),
        },
{
    match compile(pattern) {
        Ok(re) => Ok(is_match(&re, text)),
        Err(e) => Err(e),
    }
}

} // verus!
