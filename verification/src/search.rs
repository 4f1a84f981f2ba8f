//! Line search: the lines of a text that contain a query, with or without
//! regard to case.

use vstd::prelude::*;
use crate::sequences::{
    is_subsequence, lemma_filter_is_subsequence, lemma_filter_keeps_all, lemma_filter_push,
    lemma_filter_through_weaker,
};
use crate::text::{
    contains, containing, is_substring, lemma_empty_is_substring, lines_of, lowercase, occurs_at,
    split_lines, to_lowercase, views,
};

verus! {

/// The predicate "contains `query` once both are put in lower case" on lines.
pub open spec fn containing_folded(query: Seq<char>) -> spec_fn(Seq<char>) -> bool {
    |line: Seq<char>| is_substring(lowercase(query), lowercase(line))
}

/// The lines of `contents` that contain `query`, in the order of the text.
pub open spec fn matching_lines(query: Seq<char>, contents: Seq<char>) -> Seq<Seq<char>> {
    split_lines(contents).filter(containing(query))
}

/// The lines of `contents` whose lower-case form contains the lower-case form
/// of `query`, in the order of the text and as the text spells them.
pub open spec fn matching_lines_folded(query: Seq<char>, contents: Seq<char>) -> Seq<Seq<char>> {
    split_lines(contents).filter(containing_folded(query))
}

/// Each line that contains `query` as written still contains it once both are
/// put in lower case. Lower-casing looks at the neighbours of some letters, so
/// this does not hold of every text.
pub open spec fn folding_keeps_matches(query: Seq<char>, contents: Seq<char>) -> bool {
    forall|i: int|
        0 <= i < split_lines(contents).len() && is_substring(
            query,
            #[trigger] split_lines(contents)[i],
        ) ==> is_substring(lowercase(query), lowercase(split_lines(contents)[i]))
}

/// Lower-casing `line` is lower-casing its parts, wherever `query` is one of
/// them: before, `query`, after.
pub open spec fn folds_in_parts(query: Seq<char>, line: Seq<char>) -> bool {
    forall|at: int| #[trigger]
        occurs_at(query, line, at) ==> lowercase(line) == lowercase(line.take(at)) + lowercase(
            query,
        ) + lowercase(line.skip(at + query.len()))
}

/// Appends `line` to `results` if `key` contains `needle`, and leaves
/// `results` as it is otherwise.
///
/// `key` is the text that stands for `line` in the comparison: the line
/// itself, or a normalised form of it.
pub fn push_if_contains<'a>(results: &mut Vec<&'a str>, line: &'a str, key: &str, needle: &str)
    ensures
        final(results)@ == if is_substring(needle@, key@) {
            old(results)@.push(line)
        } else {
            old(results)@
        },
{
    if contains(key, needle) {
        results.push(line);
    }
}

/// Returns the lines of `contents` that contain `query` exactly as written,
/// in the order of the text: every line returned contains the query, and no
/// line that contains it is left out. The empty query is contained in every
/// line.
pub fn search<'a>(query: &'a str, contents: &'a str) -> (results: Vec<&'a str>)
    ensures
        views(results@) == matching_lines(query@, contents@),
        forall|k: int| 0 <= k < results@.len() ==> is_substring(query@, (#[trigger] results@[k])@),
        forall|i: int|
            0 <= i < split_lines(contents@).len() && is_substring(
                query@,
                #[trigger] split_lines(contents@)[i],
            ) ==> views(results@).contains(split_lines(contents@)[i]),
        query@.len() == 0 ==> views(results@) == split_lines(contents@),
{
    let lines = lines_of(contents);
    let mut results: Vec<&'a str> = Vec::new();
    let mut i: usize = 0;
    proof {
        reveal(Seq::filter);
    }
    while i < lines.len()
        invariant
            i <= lines.len(),
            views(results@) == views(lines@).take(i as int).filter(containing(query@)),
        decreases lines.len() - i,
    {
        let line = lines[i];
        proof {
            lemma_filter_push(views(lines@).take(i as int), line@, containing(query@));
            assert(views(lines@).take(i + 1) =~= views(lines@).take(i as int).push(line@));
        }
        push_if_contains(&mut results, line, line, query);
        i += 1;
    }
    proof {
        assert(views(lines@).take(i as int) =~= views(lines@));
        lemma_search_is_exact(query@, contents@);
        assert forall|k: int| 0 <= k < results@.len() implies is_substring(
            query@,
            (#[trigger] results@[k])@,
        ) by {
            assert(views(results@)[k] == results@[k]@);
        }
        if query@.len() == 0 {
            lemma_empty_query_matches_all(query@, contents@);
        }
    }
    results
}

/// Returns the lines of `content` that contain `query` when case is ignored:
/// a line is kept if its lower-case form contains the lower-case form of
/// `query`. The lines come back as `content` spells them, in the order of the
/// text. The empty query keeps every line.
pub fn search_case_insensitive<'a>(query: &'a str, content: &'a str) -> (results: Vec<&'a str>)
    ensures
        views(results@) == matching_lines_folded(query@, content@),
        query@.len() == 0 ==> views(results@) == split_lines(content@),
{
    let lines = lines_of(content);
    let mut results: Vec<&'a str> = Vec::new();
    let needle = to_lowercase(query);
    let mut i: usize = 0;
    proof {
        reveal(Seq::filter);
    }
    while i < lines.len()
        invariant
            i <= lines.len(),
            needle@ == lowercase(query@),
            views(results@) == views(lines@).take(i as int).filter(containing_folded(query@)),
        decreases lines.len() - i,
    {
        let line = lines[i];
        proof {
            lemma_filter_push(views(lines@).take(i as int), line@, containing_folded(query@));
            assert(views(lines@).take(i + 1) =~= views(lines@).take(i as int).push(line@));
        }
        let folded = to_lowercase(line);
        push_if_contains(&mut results, line, folded.as_str(), needle.as_str());
        i += 1;
    }
    proof {
        assert(views(lines@).take(i as int) =~= views(lines@));
        if query@.len() == 0 {
            let all = split_lines(content@);
            assert(lowercase(query@) =~= Seq::<char>::empty());
            assert forall|k: int| 0 <= k < all.len() implies containing_folded(query@)(
                #[trigger] all[k],
            ) by {
                lemma_empty_is_substring(lowercase(all[k]));
            }
            lemma_filter_keeps_all(all, containing_folded(query@));
        }
    }
    results
}

/// Folding keeps the matches in a text whose lines fold in parts around the
/// query.
pub proof fn lemma_folding_in_parts_keeps_matches(query: Seq<char>, contents: Seq<char>)
    requires
        forall|i: int|
            0 <= i < split_lines(contents).len() ==> folds_in_parts(
                query,
                #[trigger] split_lines(contents)[i],
            ),
    ensures
        folding_keeps_matches(query, contents),
{
    let lines = split_lines(contents);
    assert forall|i: int| 0 <= i < lines.len() && is_substring(
        query,
        #[trigger] lines[i],
    ) implies is_substring(lowercase(query), lowercase(lines[i])) by {
        let line = lines[i];
        let at = choose|at: int| occurs_at(query, line, at);
        let before = lowercase(line.take(at));
        let middle = lowercase(query);
        let after = lowercase(line.skip(at + query.len()));
        let start = before.len() as int;
        assert((before + middle + after).subrange(start, start + middle.len()) =~= middle);
        assert(occurs_at(middle, lowercase(line), start));
    }
}

/// A search returns lines of the text, each of which contains the query, and
/// leaves out no line that contains it; the lines keep the order of the text.
pub proof fn lemma_search_is_exact(query: Seq<char>, contents: Seq<char>)
    ensures
        is_subsequence(matching_lines(query, contents), split_lines(contents)),
        forall|k: int|
            0 <= k < matching_lines(query, contents).len() ==> is_substring(
                query,
                #[trigger] matching_lines(query, contents)[k],
            ),
        forall|i: int|
            0 <= i < split_lines(contents).len() && !matching_lines(query, contents).contains(
                #[trigger] split_lines(contents)[i],
            ) ==> !is_substring(query, split_lines(contents)[i]),
{
    let lines = split_lines(contents);
    let keep = containing(query);
    lemma_filter_is_subsequence(lines, keep);
    assert forall|k: int| 0 <= k < lines.filter(keep).len() implies is_substring(
        query,
        #[trigger] lines.filter(keep)[k],
    ) by {
        lines.lemma_filter_pred(keep, k);
    }
    assert forall|i: int|
        0 <= i < lines.len() && !lines.filter(keep).contains(
            #[trigger] lines[i],
        ) implies !is_substring(query, lines[i]) by {
        if keep(lines[i]) {
            lines.lemma_filter_contains(keep, i);
        }
    }
}

/// A search that ignores case returns lines of the text, each of which
/// contains the query once both are put in lower case, and leaves out no such
/// line; the lines keep the order of the text.
pub proof fn lemma_folded_search_is_exact(query: Seq<char>, contents: Seq<char>)
    ensures
        is_subsequence(matching_lines_folded(query, contents), split_lines(contents)),
        forall|k: int|
            0 <= k < matching_lines_folded(query, contents).len() ==> is_substring(
                lowercase(query),
                lowercase(#[trigger] matching_lines_folded(query, contents)[k]),
            ),
        forall|i: int|
            0 <= i < split_lines(contents).len() && !matching_lines_folded(
                query,
                contents,
            ).contains(#[trigger] split_lines(contents)[i]) ==> !is_substring(
                lowercase(query),
                lowercase(split_lines(contents)[i]),
            ),
{
    let lines = split_lines(contents);
    let keep = containing_folded(query);
    lemma_filter_is_subsequence(lines, keep);
    assert forall|k: int| 0 <= k < lines.filter(keep).len() implies is_substring(
        lowercase(query),
        lowercase(#[trigger] lines.filter(keep)[k]),
    ) by {
        lines.lemma_filter_pred(keep, k);
    }
    assert forall|i: int|
        0 <= i < lines.len() && !lines.filter(keep).contains(
            #[trigger] lines[i],
        ) implies !is_substring(lowercase(query), lowercase(lines[i])) by {
        if keep(lines[i]) {
            lines.lemma_filter_contains(keep, i);
        }
    }
}

/// Where folding keeps the matches, a search that ignores case returns every
/// line that the exact search returns: the exact result is what the exact
/// test keeps of the folded result.
pub proof fn lemma_folded_search_is_superset(query: Seq<char>, contents: Seq<char>)
    requires
        folding_keeps_matches(query, contents),
    ensures
        matching_lines(query, contents) == matching_lines_folded(query, contents).filter(
            containing(query),
        ),
        is_subsequence(matching_lines(query, contents), matching_lines_folded(query, contents)),
        forall|line: Seq<char>| #[trigger]
            matching_lines(query, contents).contains(line) ==> matching_lines_folded(
                query,
                contents,
            ).contains(line),
{
    let lines = split_lines(contents);
    let exact = containing(query);
    let folded = containing_folded(query);
    assert forall|i: int| 0 <= i < lines.len() && exact(#[trigger] lines[i]) implies folded(
        lines[i],
    ) by {}
    lemma_filter_through_weaker(lines, exact, folded);
    lemma_filter_is_subsequence(lines.filter(folded), exact);
    assert forall|line: Seq<char>| #[trigger]
        lines.filter(exact).contains(line) implies lines.filter(folded).contains(line) by {
        lines.filter(folded).lemma_filter_contains_rev(exact, line);
    }
}

/// A search for the empty query keeps every line, in the order of the text.
pub proof fn lemma_empty_query_matches_all(query: Seq<char>, contents: Seq<char>)
    requires
        query.len() == 0,
    ensures
        matching_lines(query, contents) == split_lines(contents),
{
    assert(query =~= Seq::<char>::empty());
    let lines = split_lines(contents);
    assert forall|i: int| 0 <= i < lines.len() implies containing(query)(#[trigger] lines[i]) by {
        lemma_empty_is_substring(lines[i]);
    }
    lemma_filter_keeps_all(lines, containing(query));
}

} // verus!
