//! Trusted interface to the `regex` crate.
//!
//! Regex compilation and matching are performed by the outside crate; the
//! names below stand for its results, which are functions of the pattern,
//! the case-insensitivity flag, and the text alone.
use vstd::prelude::*;

verus! {

#[verifier::external_type_specification]
#[verifier::external_body]
pub struct ExRegex(regex::Regex);

/// The pattern a compiled regex was built from.
pub uninterp spec fn regex_pattern_of(re: regex::Regex) -> Seq<char>;

/// The case-insensitivity flag a compiled regex was built with.
pub uninterp spec fn regex_ci_of(re: regex::Regex) -> bool;

/// Whether a pattern compiles under the given case-insensitivity flag.
pub uninterp spec fn regex_compiles(pattern: Seq<char>, case_insensitive: bool) -> bool;

/// Whether the regex built from `pattern` matches anywhere in `text`.
pub uninterp spec fn regex_matched(
    pattern: Seq<char>,
    case_insensitive: bool,
    text: Seq<char>,
) -> bool;

/// `text` with every non-overlapping match of the regex built from
/// `pattern` replaced by `rep` (with capture-group references expanded).
pub uninterp spec fn regex_replaced(
    pattern: Seq<char>,
    case_insensitive: bool,
    text: Seq<char>,
    rep: Seq<char>,
) -> Seq<char>;

/// Relies on `regex::RegexBuilder` (`new`, `case_insensitive`, `build`):
/// whether a pattern compiles, and the regex value it compiles to, are
/// functions of the pattern text and the flag alone.
#[verifier::external_body]
pub fn compile_regex(pattern: &str, case_insensitive: bool) -> (r: Option<regex::Regex>)
    ensures
        r is Some <==> regex_compiles(pattern@, case_insensitive),
        r is Some ==> regex_pattern_of(r->Some_0) == pattern@ && regex_ci_of(r->Some_0)
            == case_insensitive,
{
    regex::RegexBuilder::new(pattern).case_insensitive(case_insensitive).build().ok()
}

/// Relies on `regex::Regex::is_match`: whether the regex matches anywhere
/// in the text, a function of the compiled pattern and the text alone.
#[verifier::external_body]
pub fn regex_is_match(re: &regex::Regex, text: &str) -> (r: bool)
    ensures
        r == regex_matched(regex_pattern_of(*re), regex_ci_of(*re), text@),
{
    re.is_match(text)
}

/// Relies on `regex::Regex::replace_all`: replaces every non-overlapping
/// match with the replacement; the crate documents that a text without a
/// match is returned unchanged.
#[verifier::external_body]
pub fn regex_replace_all(re: &regex::Regex, text: &str, rep: &str) -> (r: String)
    ensures
        r@ == regex_replaced(regex_pattern_of(*re), regex_ci_of(*re), text@, rep@),
        !regex_matched(regex_pattern_of(*re), regex_ci_of(*re), text@) ==> r@ == text@,
{
    re.replace_all(text, rep).into_owned()
}

} // verus!
