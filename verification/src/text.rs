//! Mathematical vocabulary for text, and the few operations on string slices
//! that the standard library performs for this crate.
//!
//! Text is modelled as `Seq<char>`. The operations at the end of this file are
//! not verified. Each calls one method of the standard library and states
//! what that method is documented to return, or gives the result a name where
//! it rests on tables of Unicode. The rest of the crate is proved against
//! those statements.

use vstd::prelude::*;

verus! {

/// `needle` occurs in `hay` as a contiguous run of characters starting at `at`.
pub open spec fn occurs_at(needle: Seq<char>, hay: Seq<char>, at: int) -> bool {
    &&& 0 <= at
    &&& at + needle.len() <= hay.len()
    &&& hay.subrange(at, at + needle.len()) == needle
}

/// `needle` occurs somewhere in `hay` as a contiguous run of characters.
pub open spec fn is_substring(needle: Seq<char>, hay: Seq<char>) -> bool {
    exists|at: int| occurs_at(needle, hay, at)
}

/// The predicate "contains `needle`" on lines.
pub open spec fn containing(needle: Seq<char>) -> spec_fn(Seq<char>) -> bool {
    |line: Seq<char>| is_substring(needle, line)
}

/// Position of the first line feed of `text`, or `text.len()` if it has none.
pub open spec fn first_line_feed(text: Seq<char>) -> int
    decreases text.len(),
{
    if text.len() == 0 || text[0] == '\n' {
        0
    } else {
        1 + first_line_feed(text.skip(1))
    }
}

/// `line` without one trailing carriage return, if it ends in one.
pub open spec fn without_carriage_return(line: Seq<char>) -> Seq<char> {
    if line.len() > 0 && line.last() == '\r' {
        line.drop_last()
    } else {
        line
    }
}

/// The lines of `text`.
///
/// A line ends at a line feed, or at a carriage return directly followed by a
/// line feed; the line ending is not part of the line. The last line needs no
/// line ending, and is then kept as it stands. The empty text has no lines.
pub open spec fn split_lines(text: Seq<char>) -> Seq<Seq<char>>
    decreases text.len(),
{
    let end = first_line_feed(text);
    if text.len() == 0 {
        Seq::empty()
    } else if 0 <= end < text.len() {
        seq![without_carriage_return(text.take(end))] + split_lines(text.skip(end + 1))
    } else {
        seq![text]
    }
}

/// What each of the string slices in `lines` holds.
pub open spec fn views(lines: Seq<&str>) -> Seq<Seq<char>> {
    lines.map_values(|line: &str| line@)
}

/// The lower-case form that `str::to_lowercase` gives to `text`.
///
/// The mapping follows the Unicode tables that the standard library carries,
/// so it is named here and not spelled out.
pub uninterp spec fn lowercase(text: Seq<char>) -> Seq<char>;

/// What `str::trim` leaves of `text`: the text without the white space at its
/// two ends.
///
/// White space is what the Unicode tables of the standard library mark as
/// such, so the result is named here and not spelled out.
pub uninterp spec fn trimmed(text: Seq<char>) -> Seq<char>;

/// The words that `str::split_whitespace` finds in `text`: the runs of
/// characters between white space, in the order of the text.
///
/// White space is again what the Unicode tables mark as such, so the result
/// is named here and not spelled out.
pub uninterp spec fn words_of(text: Seq<char>) -> Seq<Seq<char>>;

/// The empty text occurs in every text.
pub proof fn lemma_empty_is_substring(hay: Seq<char>)
    ensures
        is_substring(Seq::<char>::empty(), hay),
{
    assert(hay.subrange(0, 0) =~= Seq::<char>::empty());
    assert(occurs_at(Seq::<char>::empty(), hay, 0));
}

/// Calls `str::lines` and collects the slices it yields, in order.
///
/// Trusted: the slices hold exactly the lines of `text` as `split_lines`
/// defines them, which is how the standard library documents `lines`.
#[verifier::external_body]
pub(crate) fn lines_of<'a>(text: &'a str) -> (lines: Vec<&'a str>)
    ensures
        views(lines@) == split_lines(text@),
{
    text.lines().collect()
}

/// Calls `str::contains` with a string slice as the pattern.
///
/// Trusted: the answer is whether `needle` matches a sub-slice of `hay`.
#[verifier::external_body]
pub(crate) fn contains(hay: &str, needle: &str) -> (found: bool)
    ensures
        found == is_substring(needle@, hay@),
{
    hay.contains(needle)
}

/// Calls `str::to_lowercase`.
///
/// Trusted: the result depends on the characters of `text` alone, and the
/// empty text comes back empty.
#[verifier::external_body]
pub(crate) fn to_lowercase(text: &str) -> (folded: String)
    ensures
        folded@ == lowercase(text@),
        text@.len() == 0 ==> folded@.len() == 0,
{
    text.to_lowercase()
}

/// Calls `str::split_whitespace` and collects the slices it yields, in order.
///
/// Trusted: the result depends on the characters of `text` alone.
#[verifier::external_body]
pub(crate) fn split_whitespace<'a>(text: &'a str) -> (words: Vec<&'a str>)
    ensures
        views(words@) == words_of(text@),
{
    text.split_whitespace().collect()
}

/// Calls `str::trim`.
///
/// Trusted: the result depends on the characters of `text` alone.
#[verifier::external_body]
pub(crate) fn trim<'a>(text: &'a str) -> (inner: &'a str)
    ensures
        inner@ == trimmed(text@),
{
    text.trim()
}

} // verus!
