//! Styled inline runs and the search-highlight splitter.
//!
//! A text fragment is split into alternating plain and highlighted segments by
//! scanning for the query left to right, greedily and without overlap: after a
//! match the scan resumes at the end of the match. The split is lossless: the
//! segment texts concatenate back to the fragment.

use vstd::prelude::*;

use crate::text::{
    copy_range, find_from, find_match_from, lemma_find_from, lemma_match_at_canon, canon,
    match_at,
};

verus! {

/// The style of one run: weight, slant, color and background roles.
#[derive(Clone, Copy, PartialEq, Eq, Structural, Debug)]
pub struct RunStyle {
    /// Strong (bold) text.
    pub strong: bool,
    /// Emphasized (italic) text.
    pub emphasis: bool,
    /// Link text: link color and underline.
    pub link: bool,
    /// Inline code: monospace face and code background.
    pub code: bool,
    /// A search match: highlight color and background override the base.
    pub highlight: bool,
}

/// One contiguous span of text under one style.
#[derive(Clone, PartialEq, Eq, Debug)]
pub struct StyledRun {
    /// The characters of the span.
    pub text: Vec<char>,
    /// The style of the span.
    pub style: RunStyle,
}

/// The mathematical value of a run.
#[verifier::ext_equal]
pub struct RunV {
    /// The characters of the span.
    pub text: Seq<char>,
    /// The style of the span.
    pub style: RunStyle,
}

impl DeepView for StyledRun {
    type V = RunV;

    open spec fn deep_view(&self) -> RunV {
        RunV { text: self.text@, style: self.style }
    }
}

/// The alternating plain/highlighted segments of `text` from position `from`
/// on: a segment is its text and whether it is a match of the query.
pub open spec fn segments_from(
    text: Seq<char>,
    query: Seq<char>,
    case_sensitive: bool,
    from: int,
) -> Seq<(Seq<char>, bool)>
    decreases text.len() - from,
    when 0 <= from <= text.len() && query.len() > 0
    via segments_from_decreases
{
    match find_from(text, query, case_sensitive, from) {
        None => if from < text.len() {
            seq![(text.subrange(from, text.len() as int), false)]
        } else {
            Seq::empty()
        },
        Some(i) => {
            let head: Seq<(Seq<char>, bool)> = if i > from {
                seq![(text.subrange(from, i), false)]
            } else {
                Seq::empty()
            };
            head + seq![(text.subrange(i, i + query.len() as int), true)] + segments_from(
                text,
                query,
                case_sensitive,
                i + query.len() as int,
            )
        },
    }
}

#[via_fn]
proof fn segments_from_decreases(
    text: Seq<char>,
    query: Seq<char>,
    case_sensitive: bool,
    from: int,
) {
    if 0 <= from <= text.len() && query.len() > 0 {
        lemma_find_from(text, query, case_sensitive, from);
    }
}

/// The concatenation of the texts of a sequence of segments.
pub open spec fn pieces_concat(segs: Seq<(Seq<char>, bool)>) -> Seq<char>
    decreases segs.len(),
{
    if segs.len() == 0 {
        Seq::empty()
    } else {
        segs[0].0 + pieces_concat(segs.drop_first())
    }
}

/// Concatenation distributes over appending segment sequences.
pub proof fn lemma_pieces_concat_append(a: Seq<(Seq<char>, bool)>, b: Seq<(Seq<char>, bool)>)
    ensures
        pieces_concat(a + b) == pieces_concat(a) + pieces_concat(b),
    decreases a.len(),
{
    if a.len() == 0 {
        assert(a + b =~= b);
        assert(pieces_concat(a) + pieces_concat(b) =~= pieces_concat(b));
    } else {
        lemma_pieces_concat_append(a.drop_first(), b);
        assert((a + b).drop_first() =~= a.drop_first() + b);
        assert(pieces_concat(a + b) =~= pieces_concat(a) + pieces_concat(b));
    }
}

/// The split is lossless: the segment texts concatenate back to the text.
pub proof fn lemma_segments_cover(
    text: Seq<char>,
    query: Seq<char>,
    case_sensitive: bool,
    from: int,
)
    requires
        0 <= from <= text.len(),
        query.len() > 0,
    ensures
        pieces_concat(segments_from(text, query, case_sensitive, from)) == text.subrange(
            from,
            text.len() as int,
        ),
    decreases text.len() - from,
{
    lemma_find_from(text, query, case_sensitive, from);
    assert(pieces_concat(Seq::<(Seq<char>, bool)>::empty()) =~= Seq::<char>::empty());
    match find_from(text, query, case_sensitive, from) {
        None => {
            if from < text.len() {
                let segs = segments_from(text, query, case_sensitive, from);
                assert(segs.drop_first() =~= Seq::<(Seq<char>, bool)>::empty());
                assert(pieces_concat(segs) =~= text.subrange(from, text.len() as int));
            } else {
                assert(text.subrange(from, text.len() as int) =~= Seq::<char>::empty());
            }
        },
        Some(i) => {
            let ql = query.len() as int;
            lemma_segments_cover(text, query, case_sensitive, i + ql);
            let head: Seq<(Seq<char>, bool)> = if i > from {
                seq![(text.subrange(from, i), false)]
            } else {
                Seq::empty()
            };
            let mid: Seq<(Seq<char>, bool)> = seq![(text.subrange(i, i + ql), true)];
            let rest = segments_from(text, query, case_sensitive, i + ql);
            lemma_pieces_concat_append(head + mid, rest);
            lemma_pieces_concat_append(head, mid);
            assert(mid.drop_first() =~= Seq::<(Seq<char>, bool)>::empty());
            assert(pieces_concat(mid) =~= text.subrange(i, i + ql));
            if i > from {
                assert(head.drop_first() =~= Seq::<(Seq<char>, bool)>::empty());
                assert(pieces_concat(head) =~= text.subrange(from, i));
            } else {
                assert(pieces_concat(head) =~= Seq::<char>::empty());
            }
            assert(text.subrange(from, i) + text.subrange(i, i + ql) + text.subrange(
                i + ql,
                text.len() as int,
            ) =~= text.subrange(from, text.len() as int));
            assert(pieces_concat(segments_from(text, query, case_sensitive, from)) =~= text
                .subrange(from, text.len() as int));
        },
    }
}

/// Every highlighted segment reads, under the case mode, as the query itself.
pub proof fn lemma_segments_highlight(
    text: Seq<char>,
    query: Seq<char>,
    case_sensitive: bool,
    from: int,
)
    requires
        0 <= from <= text.len(),
        query.len() > 0,
    ensures
        forall|k: int|
            0 <= k < segments_from(text, query, case_sensitive, from).len()
                && segments_from(text, query, case_sensitive, from)[k].1 ==> canon(
                #[trigger] segments_from(text, query, case_sensitive, from)[k].0,
                case_sensitive,
            ) == canon(query, case_sensitive),
    decreases text.len() - from,
{
    lemma_find_from(text, query, case_sensitive, from);
    match find_from(text, query, case_sensitive, from) {
        None => {},
        Some(i) => {
            let ql = query.len() as int;
            lemma_match_at_canon(text, query, case_sensitive, i);
            lemma_segments_highlight(text, query, case_sensitive, i + ql);
            let segs = segments_from(text, query, case_sensitive, from);
            let rest = segments_from(text, query, case_sensitive, i + ql);
            let pre: int = if i > from { 1int } else { 0int };
            assert forall|k: int| 0 <= k < segs.len() && segs[k].1 implies canon(
                #[trigger] segs[k].0,
                case_sensitive,
            ) == canon(query, case_sensitive) by {
                if k > pre {
                    assert(segs[k] == rest[k - pre - 1]);
                }
            }
        },
    }
}

/// The base style for plain or highlighted text in the given inline context.
pub open spec fn style_in_context(
    strong: bool,
    emphasis: bool,
    link: bool,
    code: bool,
    highlight: bool,
) -> RunStyle {
    RunStyle { strong, emphasis, link, code, highlight }
}

/// The runs a text fragment produces in the given inline context: one run when
/// no query is active, otherwise one run per segment of the split, each keeping
/// the base style and highlighted exactly on the match segments.
pub open spec fn runs_spec(
    text: Seq<char>,
    strong: bool,
    emphasis: bool,
    link: bool,
    code: bool,
    query: Seq<char>,
    case_sensitive: bool,
) -> Seq<RunV> {
    if query.len() == 0 {
        seq![RunV { text, style: style_in_context(strong, emphasis, link, code, false) }]
    } else {
        segments_from(text, query, case_sensitive, 0).map_values(
            |s: (Seq<char>, bool)|
                RunV { text: s.0, style: style_in_context(strong, emphasis, link, code, s.1) },
        )
    }
}

/// Splits a fragment by the query; each produced run keeps the given base
/// style flags and is marked highlighted exactly on match segments.
pub fn build_runs(
    text: &Vec<char>,
    strong: bool,
    emphasis: bool,
    link: bool,
    code: bool,
    query: &Vec<char>,
    case_sensitive: bool,
) -> (r: Vec<StyledRun>)
    ensures
        r.deep_view() == runs_spec(text@, strong, emphasis, link, code, query@, case_sensitive),
{
    let mut r: Vec<StyledRun> = Vec::new();
    if query.len() == 0 {
        r.push(
            StyledRun {
                text: copy_range(text, 0, text.len()),
                style: RunStyle { strong, emphasis, link, code, highlight: false },
            },
        );
        assert(text@.subrange(0, text@.len() as int) =~= text@);
        assert(r.deep_view() =~~= runs_spec(
            text@,
            strong,
            emphasis,
            link,
            code,
            query@,
            case_sensitive,
        ));
        return r;
    }
    let n = text.len();
    let mut pos: usize = 0;
    let ghost whole = segments_from(text@, query@, case_sensitive, 0);
    while pos < n
        invariant
            pos <= n,
            n == text@.len(),
            query@.len() > 0,
            whole == segments_from(text@, query@, case_sensitive, 0),
            whole =~= r.deep_view().map_values(|x: RunV| (x.text, x.style.highlight))
                + segments_from(text@, query@, case_sensitive, pos as int),
            forall|k: int|
                0 <= k < r.deep_view().len() ==> (#[trigger] r.deep_view()[k]).style
                    == style_in_context(
                    strong,
                    emphasis,
                    link,
                    code,
                    r.deep_view()[k].style.highlight,
                ),
        decreases n - pos,
    {
        let found = find_match_from(text, query, case_sensitive, pos);
        proof {
            lemma_find_from(text@, query@, case_sensitive, pos as int);
        }
        match found {
            None => {
                let run = StyledRun {
                    text: copy_range(text, pos, n),
                    style: RunStyle { strong, emphasis, link, code, highlight: false },
                };
                let ghost rdv = r.deep_view();
                let ghost rv = run.deep_view();
                r.push(run);
                assert(r.deep_view() =~= rdv.push(rv));
                assert(whole =~= r.deep_view().map_values(
                    |x: RunV| (x.text, x.style.highlight),
                ) + segments_from(text@, query@, case_sensitive, n as int));
                pos = n;
            },
            Some(i) => {
                if i > pos {
                    let run = StyledRun {
                        text: copy_range(text, pos, i),
                        style: RunStyle { strong, emphasis, link, code, highlight: false },
                    };
                    let ghost rdv = r.deep_view();
                    let ghost rv = run.deep_view();
                    r.push(run);
                    assert(r.deep_view() =~= rdv.push(rv));
                }
                let m = query.len();
                let run = StyledRun {
                    text: copy_range(text, i, i + m),
                    style: RunStyle { strong, emphasis, link, code, highlight: true },
                };
                let ghost rdv = r.deep_view();
                let ghost rv = run.deep_view();
                r.push(run);
                assert(r.deep_view() =~= rdv.push(rv));
                assert(whole =~= r.deep_view().map_values(
                    |x: RunV| (x.text, x.style.highlight),
                ) + segments_from(text@, query@, case_sensitive, i + m));
                pos = i + m;
            },
        }
    }
    assert(segments_from(text@, query@, case_sensitive, pos as int) =~= Seq::<(
        Seq<char>,
        bool,
    )>::empty()) by {
        lemma_find_from(text@, query@, case_sensitive, pos as int);
    }
    assert(whole =~= r.deep_view().map_values(|x: RunV| (x.text, x.style.highlight)));
    assert(r.deep_view() =~~= runs_spec(
        text@,
        strong,
        emphasis,
        link,
        code,
        query@,
        case_sensitive,
    ));
    r
}

/// Splits a heading's title for display: the plain base style, highlighted
/// around the search matches under the case mode.
pub fn heading_runs(text: &Vec<char>, query: &Vec<char>, case_sensitive: bool) -> (r: Vec<
    StyledRun,
>)
    ensures
        r.deep_view() == runs_spec(text@, false, false, false, false, query@, case_sensitive),
{
    build_runs(text, false, false, false, false, query, case_sensitive)
}

/// The text of a sequence of runs, concatenated.
pub open spec fn runs_text(runs: Seq<RunV>) -> Seq<char>
    decreases runs.len(),
{
    if runs.len() == 0 {
        Seq::empty()
    } else {
        runs[0].text + runs_text(runs.drop_first())
    }
}

/// Splitting a fragment into runs loses nothing: the texts of the produced
/// runs concatenate back to the fragment, whatever the query and case mode.
pub proof fn lemma_runs_lossless(
    text: Seq<char>,
    strong: bool,
    emphasis: bool,
    link: bool,
    code: bool,
    query: Seq<char>,
    case_sensitive: bool,
)
    ensures
        runs_text(runs_spec(text, strong, emphasis, link, code, query, case_sensitive)) == text,
{
    if query.len() == 0 {
        let rs = runs_spec(text, strong, emphasis, link, code, query, case_sensitive);
        assert(rs.drop_first() =~= Seq::<RunV>::empty());
        assert(runs_text(Seq::<RunV>::empty()) =~= Seq::<char>::empty());
        assert(runs_text(rs) =~= text);
    } else {
        lemma_segments_cover(text, query, case_sensitive, 0);
        let segs = segments_from(text, query, case_sensitive, 0);
        lemma_runs_text_of_segments(segs, strong, emphasis, link, code);
        assert(text.subrange(0, text.len() as int) =~= text);
    }
}

/// Run texts follow segment texts through the mapping to styled runs.
proof fn lemma_runs_text_of_segments(
    segs: Seq<(Seq<char>, bool)>,
    strong: bool,
    emphasis: bool,
    link: bool,
    code: bool,
)
    ensures
        runs_text(
            segs.map_values(
                |s: (Seq<char>, bool)|
                    RunV { text: s.0, style: style_in_context(strong, emphasis, link, code, s.1) },
            ),
        ) == pieces_concat(segs),
    decreases segs.len(),
{
    let mapped = segs.map_values(
        |s: (Seq<char>, bool)|
            RunV { text: s.0, style: style_in_context(strong, emphasis, link, code, s.1) },
    );
    if segs.len() == 0 {
    } else {
        lemma_runs_text_of_segments(segs.drop_first(), strong, emphasis, link, code);
        assert(mapped.drop_first() =~= segs.drop_first().map_values(
            |s: (Seq<char>, bool)|
                RunV { text: s.0, style: style_in_context(strong, emphasis, link, code, s.1) },
        ));
    }
}

} // verus!
