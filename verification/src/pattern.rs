//! Text as the benchmark tools print it: its lines, and what a regular
//! expression finds in one of them.

use vstd::prelude::*;

verus! {

/// Where the first line of a text ends: at its first line feed, or at the
/// end of the text where it has none.
pub open spec fn line_end(text: Seq<char>) -> int
    decreases text.len(),
{
    if text.len() == 0 || text[0] == '\n' {
        0
    } else {
        1 + line_end(text.drop_first())
    }
}

/// The first line ends within the text.
pub proof fn lemma_line_end_bounds(text: Seq<char>)
    ensures
        0 <= line_end(text) <= text.len(),
    decreases text.len(),
{
    if !(text.len() == 0 || text[0] == '\n') {
        lemma_line_end_bounds(text.drop_first());
    }
}

/// The lines of a text. A line ends with a line feed, or with a carriage
/// return and a line feed; neither belongs to the line. The last line needs
/// no line feed, and nothing follows a last line feed.
pub open spec fn lines_of(text: Seq<char>) -> Seq<Seq<char>>
    decreases text.len(),
{
    if text.len() == 0 {
        Seq::empty()
    } else {
        let end = line_end(text);
        if end >= text.len() {
            seq![text]
        } else {
            proof {
                lemma_line_end_bounds(text);
            }
            let line = text.take(end);
            let first = if line.len() > 0 && line.last() == '\r' {
                line.drop_last()
            } else {
                line
            };
            seq![first] + lines_of(text.skip(end + 1))
        }
    }
}

/// Whether `regex::Regex::new` takes the pattern.
pub uninterp spec fn pattern_compiles(pattern: Seq<char>) -> bool;

/// What `regex::Regex::captures` finds for the pattern in the text: nothing
/// where the pattern matches nowhere, else for the leftmost match its
/// groups, the whole match first. A group that took no part in the match
/// holds nothing.
pub uninterp spec fn captured(pattern: Seq<char>, text: Seq<char>) -> Option<
    Seq<Option<Seq<char>>>,
>;

/// The lines of a text. Calls `str::lines` of the standard library and
/// copies each line; the claim is that these are the lines as `lines_of`
/// defines them.
#[verifier::external_body]
pub(crate) fn split_lines(text: &str) -> (lines: Vec<String>)
    ensures
        lines.deep_view() == lines_of(text@),
{
    text.lines().map(|line| line.to_owned()).collect()
}

/// The groups that a pattern captures in a text. Calls `regex::Regex::new`
/// on the pattern and `Regex::captures` on the text, and copies what each
/// group matched (`Captures::iter`, `Match::as_str`). The claims: the outer
/// value is there exactly where the pattern compiles, and the inner one is
/// what `captured` names.
#[verifier::external_body]
pub(crate) fn search(pattern: &str, text: &str) -> (found: Option<Option<Vec<Option<String>>>>)
    ensures
        found is Some <==> pattern_compiles(pattern@),
        found matches Some(groups) ==> groups.deep_view() == captured(pattern@, text@),
{
    let matcher = regex::Regex::new(pattern).ok()?;
    Some(
        matcher.captures(text).map(
            |groups| groups.iter().map(|group| group.map(|part| part.as_str().to_owned())).collect(),
        ),
    )
}

/// Whether the pattern compiles.
pub(crate) fn compiles(pattern: &str) -> (taken: bool)
    ensures
        taken == pattern_compiles(pattern@),
{
    search(pattern, "").is_some()
}

} // verus!
