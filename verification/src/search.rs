//! The line-oriented search index: splits the raw text into lines and finds
//! all non-overlapping occurrences of the query in each line, left to right,
//! in line-then-offset order. Offsets are character offsets within the line.

use vstd::prelude::*;

use crate::block::texts_view;
use crate::text::{
    canon, copy_chars, copy_range, find_from, find_match_from, lemma_find_from,
    lemma_match_at_canon, match_at,
};

verus! {

/// One search hit: the line it is on and the matched span within that line.
#[derive(Clone, PartialEq, Eq, Debug)]
pub struct SearchResult {
    /// The zero-based line number.
    pub line_number: usize,
    /// The full content of the line holding the match.
    pub line_content: Vec<char>,
    /// The character offset where the match starts in the line.
    pub match_start: usize,
    /// The character offset one past the end of the match.
    pub match_end: usize,
}

/// The mathematical value of a search hit.
#[verifier::ext_equal]
pub struct SearchResultV {
    /// The zero-based line number.
    pub line_number: int,
    /// The full content of the line holding the match.
    pub line_content: Seq<char>,
    /// The character offset where the match starts in the line.
    pub match_start: int,
    /// The character offset one past the end of the match.
    pub match_end: int,
}

impl DeepView for SearchResult {
    type V = SearchResultV;

    open spec fn deep_view(&self) -> SearchResultV {
        SearchResultV {
            line_number: self.line_number as int,
            line_content: self.line_content@,
            match_start: self.match_start as int,
            match_end: self.match_end as int,
        }
    }
}

/// A line piece with its trailing carriage return removed, as a line ending in
/// a newline is read.
pub open spec fn strip_cr(l: Seq<char>) -> Seq<char> {
    if l.len() > 0 && l.last() == '\r' {
        l.drop_last()
    } else {
        l
    }
}

/// The lines of the text from position `from` on: pieces split at newlines,
/// each piece before a newline read without a trailing carriage return, and no
/// empty final piece after a trailing newline.
pub open spec fn lines_from(s: Seq<char>, from: int) -> Seq<Seq<char>>
    decreases s.len() - from,
    when 0 <= from
    via lines_from_decreases
{
    if from >= s.len() {
        Seq::empty()
    } else {
        match find_from(s, seq!['\n'], true, from) {
            None => seq![s.subrange(from, s.len() as int)],
            Some(i) => seq![strip_cr(s.subrange(from, i))] + lines_from(s, i + 1),
        }
    }
}

#[via_fn]
proof fn lines_from_decreases(s: Seq<char>, from: int) {
    if 0 <= from && from < s.len() {
        lemma_find_from(s, seq!['\n'], true, from);
    }
}

/// The lines of a text.
pub open spec fn lines_of(s: Seq<char>) -> Seq<Seq<char>> {
    lines_from(s, 0)
}

/// The hits of the query in one line, at or after `from`: each found match,
/// left to right, the scan resuming at the end of each match.
pub open spec fn line_results(
    line: Seq<char>,
    ln: int,
    query: Seq<char>,
    cs: bool,
    from: int,
) -> Seq<SearchResultV>
    decreases line.len() - from,
    when 0 <= from && query.len() > 0
    via line_results_decreases
{
    match find_from(line, query, cs, from) {
        None => Seq::empty(),
        Some(i) => seq![
            SearchResultV {
                line_number: ln,
                line_content: line,
                match_start: i,
                match_end: i + query.len() as int,
            },
        ] + line_results(line, ln, query, cs, i + query.len() as int),
    }
}

#[via_fn]
proof fn line_results_decreases(line: Seq<char>, ln: int, query: Seq<char>, cs: bool, from: int) {
    if 0 <= from && query.len() > 0 {
        lemma_find_from(line, query, cs, from);
    }
}

/// The hits of the query over a sequence of lines, the first line numbered
/// `ln0`, in line-then-offset order.
pub open spec fn lines_results(
    lines: Seq<Seq<char>>,
    ln0: int,
    query: Seq<char>,
    cs: bool,
) -> Seq<SearchResultV>
    decreases lines.len(),
{
    if lines.len() == 0 {
        Seq::empty()
    } else {
        line_results(lines[0], ln0, query, cs, 0) + lines_results(
            lines.drop_first(),
            ln0 + 1,
            query,
            cs,
        )
    }
}

/// The search results of the query over a text: empty for an empty query,
/// else all per-line hits in line-then-offset order.
pub open spec fn search_spec(text: Seq<char>, query: Seq<char>, cs: bool) -> Seq<SearchResultV> {
    if query.len() == 0 {
        Seq::empty()
    } else {
        lines_results(lines_of(text), 0, query, cs)
    }
}

/// One more line of hits extends the sequence at the end.
pub proof fn lemma_lines_results_snoc(
    lines: Seq<Seq<char>>,
    l: Seq<char>,
    ln0: int,
    query: Seq<char>,
    cs: bool,
)
    ensures
        lines_results(lines.push(l), ln0, query, cs) == lines_results(lines, ln0, query, cs)
            + line_results(l, ln0 + lines.len(), query, cs, 0),
    decreases lines.len(),
{
    if lines.len() == 0 {
        assert(lines.push(l)[0] == l);
        assert(lines.push(l).drop_first() =~= Seq::<Seq<char>>::empty());
        assert(lines_results(Seq::<Seq<char>>::empty(), ln0 + 1, query, cs)
            =~= Seq::<SearchResultV>::empty());
        assert(lines_results(lines.push(l), ln0, query, cs) =~= line_results(
            l,
            ln0,
            query,
            cs,
            0,
        ));
        assert(lines_results(lines, ln0, query, cs) + line_results(l, ln0, query, cs, 0)
            =~= line_results(l, ln0, query, cs, 0));
    } else {
        assert(lines.push(l)[0] == lines[0]);
        assert(lines.push(l).drop_first() =~= lines.drop_first().push(l));
        lemma_lines_results_snoc(lines.drop_first(), l, ln0 + 1, query, cs);
        assert(lines_results(lines.push(l), ln0, query, cs) =~= lines_results(
            lines,
            ln0,
            query,
            cs,
        ) + line_results(l, ln0 + lines.len(), query, cs, 0));
    }
}

/// Splits a text into its lines.
pub fn split_lines(text: &Vec<char>) -> (r: Vec<Vec<char>>)
    ensures
        texts_view(r@) == lines_of(text@),
{
    let n = text.len();
    let mut nl: Vec<char> = Vec::new();
    nl.push('\n');
    assert(nl@ =~= seq!['\n']);
    let mut r: Vec<Vec<char>> = Vec::new();
    let mut pos: usize = 0;
    while pos < n
        invariant
            pos <= n,
            n == text@.len(),
            nl@ == seq!['\n'],
            lines_of(text@) =~= texts_view(r@) + lines_from(text@, pos as int),
        decreases n - pos,
    {
        let found = find_match_from(text, &nl, true, pos);
        proof {
            lemma_find_from(text@, seq!['\n'], true, pos as int);
        }
        match found {
            None => {
                let line = copy_range(text, pos, n);
                let ghost pre = r@;
                let ghost lv = line@;
                r.push(line);
                assert(texts_view(r@) =~= texts_view(pre).push(lv));
                assert(lines_of(text@) =~= texts_view(r@) + lines_from(text@, n as int));
                pos = n;
            },
            Some(i) => {
                assert(match_at(text@, seq!['\n'], true, i as int));
                assert(crate::text::chars_match(text@[i as int + 0], seq!['\n'][0], true));
                assert(text@[i as int] == '\n');
                let end = if i > pos && text[i - 1] == '\r' {
                    i - 1
                } else {
                    i
                };
                let line = copy_range(text, pos, end);
                assert(line@ =~= strip_cr(text@.subrange(pos as int, i as int)));
                let ghost pre = r@;
                let ghost lv = line@;
                r.push(line);
                assert(texts_view(r@) =~= texts_view(pre).push(lv));
                assert(lines_of(text@) =~= texts_view(r@) + lines_from(text@, i + 1));
                pos = i + 1;
            },
        }
    }
    assert(lines_from(text@, pos as int) =~= Seq::<Seq<char>>::empty());
    assert(texts_view(r@) =~= lines_of(text@));
    r
}

/// Finds every hit of the query in one line, left to right, resuming after
/// each match.
fn line_search(line: &Vec<char>, ln: usize, query: &Vec<char>, cs: bool) -> (r: Vec<SearchResult>)
    requires
        query@.len() > 0,
    ensures
        r.deep_view() == line_results(line@, ln as int, query@, cs, 0),
{
    let mut out: Vec<SearchResult> = Vec::new();
    let n = line.len();
    let mut from: usize = 0;
    let mut done = false;
    while !done
        invariant
            n == line@.len(),
            from <= line@.len(),
            query@.len() > 0,
            line_results(line@, ln as int, query@, cs, 0) =~= out.deep_view() + (if done {
                Seq::<SearchResultV>::empty()
            } else {
                line_results(line@, ln as int, query@, cs, from as int)
            }),
        decreases line@.len() - from + (if done {
            0int
        } else {
            1int
        }),
    {
        let found = find_match_from(line, query, cs, from);
        proof {
            lemma_find_from(line@, query@, cs, from as int);
        }
        match found {
            None => {
                done = true;
            },
            Some(i) => {
                let m = query.len();
                let res = SearchResult {
                    line_number: ln,
                    line_content: copy_chars(line),
                    match_start: i,
                    match_end: i + m,
                };
                let ghost pre = out.deep_view();
                let ghost rv = res.deep_view();
                out.push(res);
                assert(out.deep_view() =~= pre.push(rv));
                assert(line_results(line@, ln as int, query@, cs, 0) =~= out.deep_view()
                    + line_results(line@, ln as int, query@, cs, i + m));
                from = i + m;
            },
        }
    }
    assert(out.deep_view() =~= line_results(line@, ln as int, query@, cs, 0));
    out
}

/// Searches the text for the query: all non-overlapping occurrences, line by
/// line, left to right. An empty query yields no results.
pub fn search(text: &Vec<char>, query: &Vec<char>, case_sensitive: bool) -> (r: Vec<SearchResult>)
    ensures
        r.deep_view() == search_spec(text@, query@, case_sensitive),
{
    let mut r: Vec<SearchResult> = Vec::new();
    if query.len() == 0 {
        assert(r.deep_view() =~= search_spec(text@, query@, case_sensitive));
        return r;
    }
    let lines = split_lines(text);
    let n = lines.len();
    let mut ln: usize = 0;
    while ln < n
        invariant
            ln <= n,
            n == lines@.len(),
            query@.len() > 0,
            texts_view(lines@) == lines_of(text@),
            r.deep_view() =~= lines_results(
                texts_view(lines@).take(ln as int),
                0,
                query@,
                case_sensitive,
            ),
        decreases n - ln,
    {
        let mut hits = line_search(&lines[ln], ln, query, case_sensitive);
        let ghost pre = r.deep_view();
        let ghost added = hits.deep_view();
        r.append(&mut hits);
        proof {
            assert(r.deep_view() =~= pre + added);
            assert(texts_view(lines@).take(ln + 1) =~= texts_view(lines@).take(ln as int).push(
                texts_view(lines@)[ln as int],
            ));
            lemma_lines_results_snoc(
                texts_view(lines@).take(ln as int),
                texts_view(lines@)[ln as int],
                0,
                query@,
                case_sensitive,
            );
        }
        ln += 1;
    }
    assert(texts_view(lines@).take(n as int) =~= texts_view(lines@));
    r
}

/// Every hit of one line is a true occurrence: it lies inside the line, spans
/// exactly the query's length, and reads as the query under the case mode.
proof fn lemma_line_results_valid(line: Seq<char>, ln: int, query: Seq<char>, cs: bool, from: int)
    requires
        0 <= from,
        query.len() > 0,
    ensures
        forall|k: int|
            0 <= k < line_results(line, ln, query, cs, from).len() ==> {
                let r = #[trigger] line_results(line, ln, query, cs, from)[k];
                &&& r.line_number == ln
                &&& r.line_content == line
                &&& 0 <= r.match_start
                &&& r.match_end == r.match_start + query.len()
                &&& r.match_end <= line.len()
                &&& canon(r.line_content.subrange(r.match_start, r.match_end), cs) == canon(
                    query,
                    cs,
                )
            },
    decreases line.len() - from,
{
    lemma_find_from(line, query, cs, from);
    match find_from(line, query, cs, from) {
        None => {},
        Some(i) => {
            lemma_match_at_canon(line, query, cs, i);
            lemma_line_results_valid(line, ln, query, cs, i + query.len() as int);
            let whole = line_results(line, ln, query, cs, from);
            let rest = line_results(line, ln, query, cs, i + query.len() as int);
            assert forall|k: int| 0 <= k < whole.len() implies {
                let r = #[trigger] whole[k];
                &&& r.line_number == ln
                &&& r.line_content == line
                &&& 0 <= r.match_start
                &&& r.match_end == r.match_start + query.len()
                &&& r.match_end <= line.len()
                &&& canon(r.line_content.subrange(r.match_start, r.match_end), cs) == canon(
                    query,
                    cs,
                )
            } by {
                if k > 0 {
                    assert(whole[k] == rest[k - 1]);
                }
            }
        },
    }
}

/// Every search result is a true occurrence of the query: the slice
/// `[match_start, match_end)` of its line, read under the case mode, is the
/// query itself, and it lies within the line.
pub proof fn lemma_search_results_match(text: Seq<char>, query: Seq<char>, cs: bool)
    requires
        query.len() > 0,
    ensures
        forall|k: int|
            0 <= k < search_spec(text, query, cs).len() ==> {
                let r = #[trigger] search_spec(text, query, cs)[k];
                &&& 0 <= r.match_start
                &&& r.match_end == r.match_start + query.len()
                &&& r.match_end <= r.line_content.len()
                &&& canon(r.line_content.subrange(r.match_start, r.match_end), cs) == canon(
                    query,
                    cs,
                )
            },
{
    lemma_lines_results_valid(lines_of(text), 0, query, cs);
}

/// Lifts per-line validity over a sequence of lines.
proof fn lemma_lines_results_valid(lines: Seq<Seq<char>>, ln0: int, query: Seq<char>, cs: bool)
    requires
        query.len() > 0,
    ensures
        forall|k: int|
            0 <= k < lines_results(lines, ln0, query, cs).len() ==> {
                let r = #[trigger] lines_results(lines, ln0, query, cs)[k];
                &&& 0 <= r.match_start
                &&& r.match_end == r.match_start + query.len()
                &&& r.match_end <= r.line_content.len()
                &&& canon(r.line_content.subrange(r.match_start, r.match_end), cs) == canon(
                    query,
                    cs,
                )
            },
    decreases lines.len(),
{
    if lines.len() == 0 {
    } else {
        lemma_line_results_valid(lines[0], ln0, query, cs, 0);
        lemma_lines_results_valid(lines.drop_first(), ln0 + 1, query, cs);
        let whole = lines_results(lines, ln0, query, cs);
        let head = line_results(lines[0], ln0, query, cs, 0);
        let rest = lines_results(lines.drop_first(), ln0 + 1, query, cs);
        assert forall|k: int| 0 <= k < whole.len() implies {
            let r = #[trigger] whole[k];
            &&& 0 <= r.match_start
            &&& r.match_end == r.match_start + query.len()
            &&& r.match_end <= r.line_content.len()
            &&& canon(r.line_content.subrange(r.match_start, r.match_end), cs) == canon(query, cs)
        } by {
            if k < head.len() {
                assert(whole[k] == head[k]);
            } else {
                assert(whole[k] == rest[k - head.len()]);
            }
        }
    }
}

} // verus!
