//! Reading the scheduler's answer to a submission.

use vstd::prelude::*;
use vstd::string::StringExecFns;

verus! {

/// The error of the `regex` crate. It is carried through unread.
#[verifier::external_type_specification]
#[verifier::external_body]
pub struct ExRegexError(regex::Error);

/// What a search with a regular expression finds.
pub enum Search {
    /// The pattern is no regular expression, or too large a one.
    BadPattern,
    /// The pattern matches nowhere in the text.
    NoMatch,
    /// The groups of the leftmost match: the whole match first, then the
    /// capture groups in the order of their opening brackets, each with the
    /// text it matched if it took part.
    Match(Seq<Option<Seq<char>>>),
}

/// What the `regex` crate finds when it searches `haystack` for `pattern`.
pub uninterp spec fn regex_search(pattern: Seq<char>, haystack: Seq<char>) -> Search;

/// Compiles `pattern` with `regex::Regex::new` and searches `haystack` with
/// `Regex::captures`. The contract names the outcome and claims only that it
/// depends on the two texts alone: the error of `new`, no match, or the text
/// of every group of the match that `captures` returns.
#[verifier::external_body]
fn first_captures(pattern: &str, haystack: &str) -> (found: Result<
    Option<Vec<Option<String>>>,
    regex::Error,
>)
    ensures
        match found {
            Ok(Some(groups)) => regex_search(pattern@, haystack@) == Search::Match(
                groups.deep_view(),
            ),
            Ok(None) => regex_search(pattern@, haystack@) == Search::NoMatch,
            Err(_) => regex_search(pattern@, haystack@) == Search::BadPattern,
        },
{
    let regex = regex::Regex::new(pattern)?;
    Ok(
        regex.captures(haystack).map(
            |caps| caps.iter().map(|group| group.map(|found| found.as_str().to_string())).collect(),
        ),
    )
}

/// The pattern of the scheduler's acknowledgment: the word `Job`, a space,
/// and digits in angle brackets, the digits being the first group.
pub open spec fn job_id_pattern() -> Seq<char> {
    "Job <(\\d+)>"@
}

/// The identifier that stands for a job whose number could not be read.
pub open spec fn unknown_job() -> Seq<char> {
    "unknown"@
}

/// The job identifier that a search gives: the text of the first capture
/// group, or `unknown` where the search gave no such text.
pub open spec fn job_id_of(search: Search) -> Seq<char> {
    match search {
        Search::Match(groups) => if groups.len() > 1 && groups[1] is Some {
            groups[1].unwrap()
        } else {
            unknown_job()
        },
        _ => unknown_job(),
    }
}

/// The search that the groups of a match, or their absence, stand for.
pub open spec fn search_of(groups: Option<Vec<Option<String>>>) -> Search {
    match groups {
        Some(found) => Search::Match(found.deep_view()),
        None => Search::NoMatch,
    }
}

/// The job identifier among the groups of a match: the text of the first
/// capture group, or `unknown` where there is no match or no such text.
pub fn job_id_from_captures(groups: &Option<Vec<Option<String>>>) -> (job_id: String)
    ensures
        job_id@ == job_id_of(search_of(*groups)),
{
    match groups {
        Some(found) => {
            if found.len() > 1 {
                match &found[1] {
                    Some(digits) => {
                        return digits.clone();
                    },
                    None => {},
                }
            }
            String::from_str("unknown")
        },
        None => String::from_str("unknown"),
    }
}

/// The job identifier in the scheduler's answer to a submission: the digits
/// of the first `Job <digits>` in it, or `unknown` where there is none. An
/// answer without an identifier is no failure: the array was accepted.
pub fn parse_job_id(response: &str) -> (job_id: String)
    ensures
        job_id@ == job_id_of(regex_search(job_id_pattern(), response@)),
{
    match first_captures("Job <(\\d+)>", response) {
        Ok(groups) => job_id_from_captures(&groups),
        Err(_) => String::from_str("unknown"),
    }
}

} // verus!
