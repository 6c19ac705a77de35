//! The table-of-contents extractor: an independent single pass over the event
//! sequence that records one entry per non-empty heading, in document order.

use vstd::prelude::*;

use crate::event::{heading_level_bounded, EventV, MdEvent};
use crate::text::{append_chars, trim_chars, trim_spec};

verus! {

/// One entry of the table of contents.
#[derive(Clone, PartialEq, Eq, Debug)]
pub struct TocHeader {
    /// The heading level, 1 to 6.
    pub level: u8,
    /// The trimmed title text.
    pub title: Vec<char>,
    /// The count of line breaks seen before the heading closed.
    pub line_number: usize,
}

/// The mathematical value of a table-of-contents entry.
#[verifier::ext_equal]
pub struct TocHeaderV {
    /// The heading level.
    pub level: u8,
    /// The trimmed title text.
    pub title: Seq<char>,
    /// The count of line breaks seen before the heading closed.
    pub line_number: int,
}

impl DeepView for TocHeader {
    type V = TocHeaderV;

    open spec fn deep_view(&self) -> TocHeaderV {
        TocHeaderV { level: self.level, title: self.title@, line_number: self.line_number as int }
    }
}

/// The extractor state: the entries so far, the one open heading (the event
/// grammar guarantees headings do not nest), and a break counter.
#[verifier::ext_equal]
pub struct TocStateV {
    /// The entries recorded so far.
    pub toc: Seq<TocHeaderV>,
    /// Whether a heading is open.
    pub is_open: bool,
    /// The level of the open heading.
    pub open_level: u8,
    /// The accumulated title of the open heading.
    pub open_title: Seq<char>,
    /// How many breaks have been seen.
    pub line: int,
}

/// The extractor state before the first event.
pub open spec fn toc_init() -> TocStateV {
    TocStateV { toc: Seq::empty(), is_open: false, open_level: 0, open_title: Seq::empty(), line: 0 }
}

/// One step of the extractor: heading opens start a title, text and inline
/// code extend it, breaks count lines, and a close records the entry if the
/// trimmed title is non-empty.
pub open spec fn toc_step(st: TocStateV, ev: EventV) -> TocStateV {
    match ev {
        EventV::HeadingStart(level) => TocStateV {
            is_open: true,
            open_level: level,
            open_title: Seq::empty(),
            ..st
        },
        EventV::HeadingEnd => {
            if st.is_open {
                let title = trim_spec(st.open_title);
                let st1 = if title.len() > 0 {
                    TocStateV {
                        toc: st.toc.push(
                            TocHeaderV { level: st.open_level, title, line_number: st.line },
                        ),
                        ..st
                    }
                } else {
                    st
                };
                TocStateV { is_open: false, open_level: 0, open_title: Seq::empty(), ..st1 }
            } else {
                st
            }
        },
        EventV::Text(t) => if st.is_open {
            TocStateV { open_title: st.open_title + t, ..st }
        } else {
            st
        },
        EventV::InlineCode(t) => if st.is_open {
            TocStateV { open_title: st.open_title + t, ..st }
        } else {
            st
        },
        EventV::SoftBreak => TocStateV { line: st.line + 1, ..st },
        EventV::HardBreak => TocStateV { line: st.line + 1, ..st },
        _ => st,
    }
}

/// The extractor state after a whole event sequence.
pub open spec fn toc_steps(st: TocStateV, evs: Seq<EventV>) -> TocStateV
    decreases evs.len(),
{
    if evs.len() == 0 {
        st
    } else {
        toc_steps(toc_step(st, evs[0]), evs.drop_first())
    }
}

/// The table of contents of an event sequence.
pub open spec fn toc_spec(evs: Seq<EventV>) -> Seq<TocHeaderV> {
    toc_steps(toc_init(), evs).toc
}

/// Consuming one more event is one more step.
pub proof fn lemma_toc_steps_snoc(st: TocStateV, evs: Seq<EventV>, ev: EventV)
    ensures
        toc_steps(st, evs.push(ev)) == toc_step(toc_steps(st, evs), ev),
    decreases evs.len(),
{
    if evs.len() == 0 {
        assert(evs.push(ev)[0] == ev);
        assert(evs.push(ev).drop_first() =~= Seq::<EventV>::empty());
        assert(toc_steps(toc_step(st, ev), evs.push(ev).drop_first()) == toc_step(st, ev));
    } else {
        assert(evs.push(ev)[0] == evs[0]);
        assert(evs.push(ev).drop_first() =~= evs.drop_first().push(ev));
        lemma_toc_steps_snoc(toc_step(st, evs[0]), evs.drop_first(), ev);
        assert(toc_steps(st, evs.push(ev)) == toc_steps(
            toc_step(st, evs[0]),
            evs.drop_first().push(ev),
        ));
        assert(toc_steps(st, evs) == toc_steps(toc_step(st, evs[0]), evs.drop_first()));
    }
}

/// The break counter never exceeds the number of events consumed.
pub proof fn lemma_toc_line_bound(st: TocStateV, evs: Seq<EventV>)
    ensures
        toc_steps(st, evs).line <= st.line + evs.len(),
    decreases evs.len(),
{
    if evs.len() == 0 {
    } else {
        lemma_toc_steps_snoc(st, evs.drop_last(), evs.last());
        assert(evs.drop_last().push(evs.last()) =~= evs);
        lemma_toc_line_bound(st, evs.drop_last());
    }
}

/// Every entry's level comes from some heading-open event: when every heading
/// open in the sequence carries a level between 1 and 6, so does every entry
/// of the extracted table of contents.
pub proof fn lemma_toc_levels_bounded(st: TocStateV, evs: Seq<EventV>)
    requires
        forall|i: int| 0 <= i < evs.len() ==> heading_level_bounded(#[trigger] evs[i]),
        st.is_open ==> 1 <= st.open_level <= 6,
        forall|k: int| 0 <= k < st.toc.len() ==> 1 <= (#[trigger] st.toc[k]).level <= 6,
    ensures
        forall|k: int|
            0 <= k < toc_steps(st, evs).toc.len() ==> 1 <= (#[trigger] toc_steps(
                st,
                evs,
            ).toc[k]).level <= 6,
    decreases evs.len(),
{
    if evs.len() > 0 {
        let st1 = toc_step(st, evs[0]);
        assert(heading_level_bounded(evs[0]));
        assert(st1.is_open ==> 1 <= st1.open_level <= 6);
        assert forall|k: int| 0 <= k < st1.toc.len() implies 1 <= (#[trigger] st1.toc[k]).level
            <= 6 by {
            if k < st.toc.len() {
                assert(st1.toc[k] == st.toc[k]);
            }
        }
        assert forall|i: int| 0 <= i < evs.drop_first().len() implies heading_level_bounded(
            #[trigger] evs.drop_first()[i],
        ) by {
            assert(evs.drop_first()[i] == evs[i + 1]);
        }
        lemma_toc_levels_bounded(st1, evs.drop_first());
        assert(toc_steps(st, evs) == toc_steps(st1, evs.drop_first()));
    }
}

/// Extracts the table of contents from an event sequence.
pub fn extract_toc(events: &Vec<MdEvent>) -> (r: Vec<TocHeader>)
    ensures
        r.deep_view() == toc_spec(events.deep_view()),
{
    let mut toc: Vec<TocHeader> = Vec::new();
    let mut is_open = false;
    let mut open_level: u8 = 0;
    let mut open_title: Vec<char> = Vec::new();
    let mut line: usize = 0;
    let n = events.len();
    let mut i: usize = 0;
    while i < n
        invariant
            i <= n,
            n == events@.len(),
            line <= i,
            toc_steps(toc_init(), events.deep_view().take(i as int)) == (TocStateV {
                toc: toc.deep_view(),
                is_open,
                open_level,
                open_title: open_title@,
                line: line as int,
            }),
        decreases n - i,
    {
        let ghost pre = TocStateV {
            toc: toc.deep_view(),
            is_open,
            open_level,
            open_title: open_title@,
            line: line as int,
        };
        match &events[i] {
            MdEvent::HeadingStart(level) => {
                is_open = true;
                open_level = *level;
                open_title = Vec::new();
            },
            MdEvent::HeadingEnd => {
                if is_open {
                    let title = trim_chars(&open_title);
                    if title.len() > 0 {
                        let entry = TocHeader { level: open_level, title, line_number: line };
                        let ghost tdv = toc.deep_view();
                        let ghost ev_ = entry.deep_view();
                        toc.push(entry);
                        assert(toc.deep_view() =~= tdv.push(ev_));
                    }
                    is_open = false;
                    open_level = 0;
                    open_title = Vec::new();
                }
            },
            MdEvent::Text(t) => {
                if is_open {
                    append_chars(&mut open_title, t);
                }
            },
            MdEvent::InlineCode(t) => {
                if is_open {
                    append_chars(&mut open_title, t);
                }
            },
            MdEvent::SoftBreak => {
                line = line + 1;
            },
            MdEvent::HardBreak => {
                line = line + 1;
            },
            _ => {},
        }
        proof {
            assert(events.deep_view().take(i + 1) =~= events.deep_view().take(i as int).push(
                events.deep_view()[i as int],
            ));
            lemma_toc_steps_snoc(toc_init(), events.deep_view().take(i as int), events.deep_view()[i as int]);
            assert((TocStateV {
                toc: toc.deep_view(),
                is_open,
                open_level,
                open_title: open_title@,
                line: line as int,
            }) =~~= toc_step(pre, events.deep_view()[i as int]));
        }
        i += 1;
    }
    assert(events.deep_view().take(n as int) =~= events.deep_view());
    toc
}

} // verus!
