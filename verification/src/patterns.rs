//! Regular expressions, matched by the `regex` crate.
//!
//! What a pattern matches is not restated here: each result has a name, and
//! the callers' contracts speak of that name.
use vstd::prelude::*;

verus! {

/// The error of `regex::Regex::new`.
#[verifier::external_type_specification]
#[verifier::external_body]
pub struct ExRegexError(regex::Error);

/// Whether `regex::Regex::new` accepts a pattern.
pub uninterp spec fn pattern_valid(pattern: Seq<char>) -> bool;

/// What `regex::Regex::captures` returns for a valid pattern and a text:
/// `None` where the pattern matches nowhere, else the groups of the leftmost
/// match, the whole match first, each with the text it matched or `None`
/// where it took no part.
pub uninterp spec fn captures_of(pattern: Seq<char>, text: Seq<char>) -> Option<
    Seq<Option<Seq<char>>>,
>;

/// What `regex::Regex::replace_all` returns for a valid pattern, a text and
/// a replacement: the text with every match replaced.
pub uninterp spec fn replaced_all(
    pattern: Seq<char>,
    text: Seq<char>,
    replacement: Seq<char>,
) -> Seq<char>;

/// Views of a list of optional texts, in order.
pub open spec fn group_views(groups: Seq<Option<String>>) -> Seq<Option<Seq<char>>> {
    Seq::new(
        groups.len(),
        |i: int|
            match groups[i] {
                Some(g) => Some(g@),
                None => None,
            },
    )
}

/// View of what a search for captures gave.
pub open spec fn captures_view(found: Option<Vec<Option<String>>>) -> Option<
    Seq<Option<Seq<char>>>,
> {
    match found {
        Some(groups) => Some(group_views(groups@)),
        None => None,
    }
}

/// Compiles `pattern` with `regex::Regex::new` and searches `text` with
/// `regex::Regex::captures`.
///
/// Trusted: the call fails exactly on the patterns that the crate rejects,
/// and otherwise returns what the crate finds, each group copied as text.
#[verifier::external_body]
pub(crate) fn find_captures(pattern: &str, text: &str) -> (r: Result<
    Option<Vec<Option<String>>>,
    regex::Error,
>)
    ensures
        r is Ok <==> pattern_valid(pattern@),
        r is Ok ==> captures_view(r->Ok_0) == captures_of(pattern@, text@),
{
    let re = regex::Regex::new(pattern)?;
    Ok(re.captures(text).map(|c| c.iter().map(|m| m.map(|g| g.as_str().to_string())).collect()))
}

/// Compiles `pattern` with `regex::Regex::new` and replaces every match in
/// `text` with `regex::Regex::replace_all`.
///
/// Trusted: the call fails exactly on the patterns that the crate rejects,
/// and otherwise returns the text that the crate builds.
#[verifier::external_body]
pub(crate) fn replace_matches(pattern: &str, text: &str, replacement: &str) -> (r: Result<
    String,
    regex::Error,
>)
    ensures
        r is Ok <==> pattern_valid(pattern@),
        r is Ok ==> r->Ok_0@ == replaced_all(pattern@, text@, replacement@),
{
    let re = regex::Regex::new(pattern)?;
    Ok(re.replace_all(text, replacement).into_owned())
}

/// The message of a pattern error.
///
/// Trusted: `regex::Error` renders itself through `Display`; nothing is
/// claimed of the text.
#[verifier::external_body]
pub(crate) fn error_message(e: &regex::Error) -> (r: String) {
    e.to_string()
}

} // verus!
