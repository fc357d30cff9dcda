//! Patterns of the `regex` crate as the parsers use them.

use vstd::prelude::*;
use regex::Regex;
use crate::llm::text_of;

verus! {

/// `regex::Regex`, a compiled pattern. Nothing is known of what is inside
/// but what the functions below report.
#[verifier::external_type_specification]
#[verifier::external_body]
pub struct ExRegex(regex::Regex);

/// `regex::Error`, the reason why a pattern could not be compiled.
#[verifier::external_type_specification]
#[verifier::external_body]
pub struct ExRegexError(regex::Error);

/// What `Regex::new` makes of `pattern`.
pub uninterp spec fn regex_new(pattern: Seq<char>) -> Result<Regex, regex::Error>;

/// The human-readable message of `error`.
pub uninterp spec fn regex_error_text(error: regex::Error) -> Seq<char>;

/// What the first group of `regex` holds in each of its matches in `text`,
/// in the order in which `Regex::captures_iter` finds them; `None` for a
/// match in which the group took no part.
pub uninterp spec fn regex_first_groups(regex: Regex, text: Seq<char>) -> Seq<Option<Seq<char>>>;

/// The characters of each optional string of a list.
pub open spec fn fields_of(fields: Seq<Option<String>>) -> Seq<Option<Seq<char>>> {
    Seq::new(fields.len(), |i: int| text_of(fields[i]))
}

/// `Regex::new`: the outcome depends on the pattern alone.
#[verifier::external_body]
pub(crate) fn compile(pattern: &str) -> (r: Result<Regex, regex::Error>)
    ensures
        r == regex_new(pattern@),
{
    Regex::new(pattern)
}

/// The `Display` rendering of a `regex::Error`.
#[verifier::external_body]
pub(crate) fn refusal(error: &regex::Error) -> (r: String)
    ensures
        r@ == regex_error_text(*error),
{
    format!("{}", error)
}

/// `Regex::captures_iter`, with the first group of every match copied into
/// an owned string: the matches depend on the pattern and the text alone.
#[verifier::external_body]
pub(crate) fn first_groups(regex: &Regex, text: &str) -> (r: Vec<Option<String>>)
    ensures
        fields_of(r@) == regex_first_groups(*regex, text@),
{
    regex
        .captures_iter(text)
        .map(|found| found.get(1).map(|group| group.as_str().to_string()))
        .collect()
}

} // verus!
