//! The streaming compiler: consumes the flat event sequence one event at a
//! time and produces the block stream.
//!
//! Open containers live in the compiler state: a heading, blockquote, code
//! block or table is a set of flags and buffers, and nested lists are a stack
//! of frames. On a container close the accumulated state is emitted as one
//! block. Text events route to exactly one destination, checked in this
//! precedence order: code block, heading, table cell, open list, image alt
//! text, then the paragraph run builder.

use vstd::prelude::*;

use crate::block::{Block, BlockV, LinkRef, LinkRefV, ListEntry, ListEntryV, rows_view, texts_view};
use crate::event::{EventV, MdEvent};
use crate::runs::{build_runs, runs_spec, RunV, StyledRun};
use crate::text::{append_chars, chars_eq, copy_chars, trim_chars, trim_spec};

verus! {

/// Takes a vector out of a place, leaving an empty one.
pub fn take_vec<T>(v: &mut Vec<T>) -> (r: Vec<T>)
    ensures
        r@ == old(v)@,
        final(v)@ == Seq::<T>::empty(),
{
    let mut t: Vec<T> = Vec::new();
    std::mem::swap(&mut t, v);
    t
}

/// One open list: whether it is ordered, and its items so far.
#[derive(Clone, PartialEq, Eq, Debug)]
pub struct ListFrame {
    /// Whether the list is ordered.
    pub ordered: bool,
    /// The items recorded so far, in document order.
    pub items: Vec<ListEntry>,
}

/// The mathematical value of an open list.
#[verifier::ext_equal]
pub struct ListFrameV {
    /// Whether the list is ordered.
    pub ordered: bool,
    /// The items recorded so far.
    pub items: Seq<ListEntryV>,
}

impl DeepView for ListFrame {
    type V = ListFrameV;

    open spec fn deep_view(&self) -> ListFrameV {
        ListFrameV { ordered: self.ordered, items: self.items.deep_view() }
    }
}

/// The compiler state: the blocks emitted so far and every open container.
pub struct Compiler {
    /// The block stream emitted so far.
    pub blocks: Vec<Block>,
    /// Whether a heading is open.
    pub in_heading: bool,
    /// The level of the open heading.
    pub heading_level: u8,
    /// Whether emphasized text is open.
    pub emphasis: bool,
    /// Whether strong text is open.
    pub strong: bool,
    /// Whether a blockquote is open.
    pub in_blockquote: bool,
    /// Whether a link is open.
    pub is_link: bool,
    /// The destination of the open link or image.
    pub link_url: Vec<char>,
    /// The accumulated heading or image alt text.
    pub accum: Vec<char>,
    /// The styled runs of the open paragraph.
    pub para_runs: Vec<StyledRun>,
    /// The links recorded in the open paragraph.
    pub para_links: Vec<LinkRef>,
    /// Whether the open paragraph recorded an inline content event.
    pub para_content: bool,
    /// Whether a code block is open.
    pub in_code: bool,
    /// The raw content of the open code block.
    pub code_text: Vec<char>,
    /// The language tag of the open code block.
    pub code_lang: Vec<char>,
    /// The stack of open lists, outermost first.
    pub lists: Vec<ListFrame>,
    /// The text of the open list item.
    pub item_text: Vec<char>,
    /// Whether a table is open.
    pub in_table: bool,
    /// The header cells of the open table.
    pub headers: Vec<Vec<char>>,
    /// The body rows of the open table.
    pub rows: Vec<Vec<Vec<char>>>,
    /// The cells of the open table row.
    pub row_cells: Vec<Vec<char>>,
    /// The text of the open table cell.
    pub cell_text: Vec<char>,
}

/// The mathematical value of the compiler state.
#[verifier::ext_equal]
pub struct StateV {
    /// The block stream emitted so far.
    pub blocks: Seq<BlockV>,
    /// Whether a heading is open.
    pub in_heading: bool,
    /// The level of the open heading.
    pub heading_level: u8,
    /// Whether emphasized text is open.
    pub emphasis: bool,
    /// Whether strong text is open.
    pub strong: bool,
    /// Whether a blockquote is open.
    pub in_blockquote: bool,
    /// Whether a link is open.
    pub is_link: bool,
    /// The destination of the open link or image.
    pub link_url: Seq<char>,
    /// The accumulated heading or image alt text.
    pub accum: Seq<char>,
    /// The styled runs of the open paragraph.
    pub para_runs: Seq<RunV>,
    /// The links recorded in the open paragraph.
    pub para_links: Seq<LinkRefV>,
    /// Whether the open paragraph recorded an inline content event.
    pub para_content: bool,
    /// Whether a code block is open.
    pub in_code: bool,
    /// The raw content of the open code block.
    pub code_text: Seq<char>,
    /// The language tag of the open code block.
    pub code_lang: Seq<char>,
    /// The stack of open lists, outermost first.
    pub lists: Seq<ListFrameV>,
    /// The text of the open list item.
    pub item_text: Seq<char>,
    /// Whether a table is open.
    pub in_table: bool,
    /// The header cells of the open table.
    pub headers: Seq<Seq<char>>,
    /// The body rows of the open table.
    pub rows: Seq<Seq<Seq<char>>>,
    /// The cells of the open table row.
    pub row_cells: Seq<Seq<char>>,
    /// The text of the open table cell.
    pub cell_text: Seq<char>,
}

impl DeepView for Compiler {
    type V = StateV;

    open spec fn deep_view(&self) -> StateV {
        StateV {
            blocks: self.blocks.deep_view(),
            in_heading: self.in_heading,
            heading_level: self.heading_level,
            emphasis: self.emphasis,
            strong: self.strong,
            in_blockquote: self.in_blockquote,
            is_link: self.is_link,
            link_url: self.link_url@,
            accum: self.accum@,
            para_runs: self.para_runs.deep_view(),
            para_links: self.para_links.deep_view(),
            para_content: self.para_content,
            in_code: self.in_code,
            code_text: self.code_text@,
            code_lang: self.code_lang@,
            lists: self.lists.deep_view(),
            item_text: self.item_text@,
            in_table: self.in_table,
            headers: texts_view(self.headers@),
            rows: rows_view(self.rows@),
            row_cells: texts_view(self.row_cells@),
            cell_text: self.cell_text@,
        }
    }
}

/// The state before the first event: no blocks, nothing open.
pub open spec fn init_state() -> StateV {
    StateV {
        blocks: Seq::empty(),
        in_heading: false,
        heading_level: 0,
        emphasis: false,
        strong: false,
        in_blockquote: false,
        is_link: false,
        link_url: Seq::empty(),
        accum: Seq::empty(),
        para_runs: Seq::empty(),
        para_links: Seq::empty(),
        para_content: false,
        in_code: false,
        code_text: Seq::empty(),
        code_lang: Seq::empty(),
        lists: Seq::empty(),
        item_text: Seq::empty(),
        in_table: false,
        headers: Seq::empty(),
        rows: Seq::empty(),
        row_cells: Seq::empty(),
        cell_text: Seq::empty(),
    }
}

/// Moves a non-empty pending item into the innermost open list, at the level
/// of that list, and clears the item buffer; a no-op with no open list or an
/// empty buffer.
pub open spec fn flush_item(st: StateV) -> StateV {
    if st.lists.len() > 0 && st.item_text.len() > 0 {
        let top = st.lists.last();
        StateV {
            lists: st.lists.drop_last().push(
                ListFrameV {
                    ordered: top.ordered,
                    items: top.items.push(
                        ListEntryV { text: st.item_text, level: (st.lists.len() - 1) as usize },
                    ),
                },
            ),
            item_text: Seq::empty(),
            ..st
        }
    } else {
        st
    }
}

/// Where a text fragment goes: code block, heading, table cell, open list
/// item, image alt text, or the paragraph run builder, in that order.
pub open spec fn text_step(st: StateV, t: Seq<char>, query: Seq<char>, cs: bool) -> StateV {
    if st.in_code {
        StateV { code_text: st.code_text + t, ..st }
    } else if st.in_heading {
        StateV { accum: st.accum + t, ..st }
    } else if st.in_table {
        StateV { cell_text: st.cell_text + t, ..st }
    } else if st.lists.len() > 0 {
        StateV { item_text: st.item_text + t, ..st }
    } else if st.link_url.len() > 0 && st.accum.len() == 0 {
        StateV { accum: st.accum + t, ..st }
    } else {
        let runs = st.para_runs + runs_spec(t, st.strong, st.emphasis, st.is_link, false, query, cs);
        let links = if st.is_link && st.link_url.len() > 0 {
            st.para_links.push(LinkRefV { url: st.link_url, text: t })
        } else {
            st.para_links
        };
        StateV { para_runs: runs, para_links: links, para_content: true, ..st }
    }
}

/// Where a break goes: nowhere in a code block; the heading or item buffer as
/// one character; otherwise the paragraph, without marking it as content.
pub open spec fn break_step(st: StateV, t: Seq<char>, query: Seq<char>, cs: bool) -> StateV {
    if st.in_code {
        st
    } else if st.in_heading {
        StateV { accum: st.accum + t, ..st }
    } else if st.lists.len() > 0 {
        StateV { item_text: st.item_text + t, ..st }
    } else {
        let runs = st.para_runs + runs_spec(t, st.strong, st.emphasis, st.is_link, false, query, cs);
        let links = if st.is_link && st.link_url.len() > 0 {
            st.para_links.push(LinkRefV { url: st.link_url, text: t })
        } else {
            st.para_links
        };
        StateV { para_runs: runs, para_links: links, ..st }
    }
}

/// One step of the compiler: the state after consuming one event.
pub open spec fn step_spec(st: StateV, ev: EventV, query: Seq<char>, cs: bool) -> StateV {
    match ev {
        EventV::ParagraphStart => StateV { para_runs: Seq::empty(), para_content: false, ..st },
        EventV::ParagraphEnd => {
            let st1 = if st.para_content {
                if st.in_blockquote {
                    StateV { blocks: st.blocks.push(BlockV::BlockQuote { runs: st.para_runs }), ..st }
                } else {
                    StateV {
                        blocks: st.blocks.push(
                            BlockV::Paragraph { runs: st.para_runs, links: st.para_links },
                        ),
                        ..st
                    }
                }
            } else {
                st
            };
            StateV { para_runs: Seq::empty(), para_links: Seq::empty(), para_content: false, ..st1 }
        },
        EventV::HeadingStart(level) => StateV {
            in_heading: true,
            heading_level: level,
            accum: Seq::empty(),
            ..st
        },
        EventV::HeadingEnd => {
            let title = trim_spec(st.accum);
            let st1 = if title.len() > 0 {
                StateV {
                    blocks: st.blocks.push(BlockV::Heading { level: st.heading_level, text: title }),
                    ..st
                }
            } else {
                st
            };
            StateV {
                in_heading: false,
                heading_level: 0,
                emphasis: false,
                strong: false,
                is_link: false,
                link_url: Seq::empty(),
                accum: Seq::empty(),
                ..st1
            }
        },
        EventV::BlockQuoteStart => StateV { in_blockquote: true, ..st },
        EventV::BlockQuoteEnd => StateV { in_blockquote: false, ..st },
        EventV::CodeBlockStart(lang) => StateV {
            in_code: true,
            code_text: Seq::empty(),
            code_lang: lang,
            ..st
        },
        EventV::CodeBlockEnd => StateV {
            in_code: false,
            blocks: st.blocks.push(
                BlockV::CodeBlock { content: st.code_text, language: st.code_lang },
            ),
            code_text: Seq::empty(),
            ..st
        },
        EventV::ListStart(ordered) => {
            let st1 = flush_item(st);
            StateV { lists: st1.lists.push(ListFrameV { ordered, items: Seq::empty() }), ..st1 }
        },
        EventV::ListEnd => {
            if st.lists.len() == 0 {
                st
            } else {
                let frame = st.lists.last();
                let rest = st.lists.drop_last();
                if rest.len() == 0 {
                    StateV {
                        lists: rest,
                        blocks: st.blocks.push(
                            BlockV::List { ordered: frame.ordered, items: frame.items },
                        ),
                        ..st
                    }
                } else {
                    let outer = rest.last();
                    StateV {
                        lists: rest.drop_last().push(
                            ListFrameV { ordered: outer.ordered, items: outer.items + frame.items },
                        ),
                        ..st
                    }
                }
            }
        },
        EventV::ItemStart => StateV { item_text: Seq::empty(), ..st },
        EventV::ItemEnd => {
            let st1 = flush_item(st);
            StateV { item_text: Seq::empty(), ..st1 }
        },
        EventV::TableStart => StateV {
            in_table: true,
            headers: Seq::empty(),
            rows: Seq::empty(),
            ..st
        },
        EventV::TableEnd => {
            if st.in_table {
                StateV {
                    in_table: false,
                    blocks: st.blocks.push(BlockV::Table { headers: st.headers, rows: st.rows }),
                    headers: Seq::empty(),
                    rows: Seq::empty(),
                    ..st
                }
            } else {
                StateV { in_table: false, ..st }
            }
        },
        EventV::TableHeadStart => StateV { row_cells: Seq::empty(), ..st },
        EventV::TableHeadEnd => {
            if st.in_table {
                StateV { headers: st.row_cells, row_cells: Seq::empty(), ..st }
            } else {
                st
            }
        },
        EventV::TableRowStart => StateV { row_cells: Seq::empty(), ..st },
        EventV::TableRowEnd => {
            if st.in_table && st.row_cells.len() > 0 {
                StateV { rows: st.rows.push(st.row_cells), row_cells: Seq::empty(), ..st }
            } else {
                st
            }
        },
        EventV::TableCellStart => StateV { cell_text: Seq::empty(), ..st },
        EventV::TableCellEnd => {
            if st.in_table {
                StateV { row_cells: st.row_cells.push(st.cell_text), cell_text: Seq::empty(), ..st }
            } else {
                st
            }
        },
        EventV::EmphasisStart => StateV { emphasis: true, ..st },
        EventV::EmphasisEnd => StateV { emphasis: false, ..st },
        EventV::StrongStart => StateV { strong: true, ..st },
        EventV::StrongEnd => StateV { strong: false, ..st },
        EventV::LinkStart(url) => StateV { is_link: true, link_url: url, ..st },
        EventV::LinkEnd => StateV { is_link: false, link_url: Seq::empty(), ..st },
        EventV::ImageStart(url) => StateV { link_url: url, accum: Seq::empty(), ..st },
        EventV::ImageEnd => StateV {
            blocks: st.blocks.push(BlockV::Image { url: st.link_url, alt: st.accum }),
            link_url: Seq::empty(),
            accum: Seq::empty(),
            ..st
        },
        EventV::Text(t) => text_step(st, t, query, cs),
        EventV::InlineCode(t) => {
            if st.in_heading {
                StateV { accum: st.accum + t, ..st }
            } else {
                StateV {
                    para_runs: st.para_runs + runs_spec(t, false, false, false, true, query, cs),
                    para_content: true,
                    ..st
                }
            }
        },
        EventV::SoftBreak => break_step(st, seq![' '], query, cs),
        EventV::HardBreak => break_step(st, seq!['\n'], query, cs),
        EventV::Rule => StateV { blocks: st.blocks.push(BlockV::Rule), ..st },
    }
}

/// The state after consuming a whole event sequence.
pub open spec fn run_steps(st: StateV, evs: Seq<EventV>, query: Seq<char>, cs: bool) -> StateV
    decreases evs.len(),
{
    if evs.len() == 0 {
        st
    } else {
        run_steps(step_spec(st, evs[0], query, cs), evs.drop_first(), query, cs)
    }
}

/// The block stream an event sequence compiles to under the given query.
pub open spec fn compile_spec(evs: Seq<EventV>, query: Seq<char>, cs: bool) -> Seq<BlockV> {
    run_steps(init_state(), evs, query, cs).blocks
}

/// Consuming one more event is one more step.
pub proof fn lemma_run_steps_snoc(
    st: StateV,
    evs: Seq<EventV>,
    ev: EventV,
    query: Seq<char>,
    cs: bool,
)
    ensures
        run_steps(st, evs.push(ev), query, cs) == step_spec(
            run_steps(st, evs, query, cs),
            ev,
            query,
            cs,
        ),
    decreases evs.len(),
{
    if evs.len() == 0 {
        assert(evs.push(ev)[0] == ev);
        assert(evs.push(ev).drop_first() =~= Seq::<EventV>::empty());
        assert(run_steps(st, evs, query, cs) == st);
        assert(run_steps(st, evs.push(ev), query, cs) == run_steps(
            step_spec(st, ev, query, cs),
            evs.push(ev).drop_first(),
            query,
            cs,
        ));
        assert(run_steps(step_spec(st, ev, query, cs), evs.push(ev).drop_first(), query, cs)
            == step_spec(st, ev, query, cs));
    } else {
        assert(evs.push(ev)[0] == evs[0]);
        assert(evs.push(ev).drop_first() =~= evs.drop_first().push(ev));
        lemma_run_steps_snoc(step_spec(st, evs[0], query, cs), evs.drop_first(), ev, query, cs);
        assert(run_steps(st, evs.push(ev), query, cs) == run_steps(
            step_spec(st, evs[0], query, cs),
            evs.drop_first().push(ev),
            query,
            cs,
        ));
        assert(run_steps(st, evs, query, cs) == run_steps(
            step_spec(st, evs[0], query, cs),
            evs.drop_first(),
            query,
            cs,
        ));
    }
}

/// The compiler is a function of the event sequence and the query alone:
/// consuming the same events twice yields the same block stream.
pub proof fn lemma_compile_deterministic(
    evs: Seq<EventV>,
    query: Seq<char>,
    cs: bool,
    b1: Seq<BlockV>,
    b2: Seq<BlockV>,
)
    requires
        b1 == compile_spec(evs, query, cs),
        b2 == compile_spec(evs, query, cs),
    ensures
        b1 == b2,
{
}

impl Compiler {
    /// A compiler in the initial state.
    pub fn new() -> (r: Self)
        ensures
            r.deep_view() == init_state(),
    {
        let r = Compiler {
            blocks: Vec::new(),
            in_heading: false,
            heading_level: 0,
            emphasis: false,
            strong: false,
            in_blockquote: false,
            is_link: false,
            link_url: Vec::new(),
            accum: Vec::new(),
            para_runs: Vec::new(),
            para_links: Vec::new(),
            para_content: false,
            in_code: false,
            code_text: Vec::new(),
            code_lang: Vec::new(),
            lists: Vec::new(),
            item_text: Vec::new(),
            in_table: false,
            headers: Vec::new(),
            rows: Vec::new(),
            row_cells: Vec::new(),
            cell_text: Vec::new(),
        };
        assert(r.deep_view() =~~= init_state());
        r
    }

    /// Emits one block.
    fn emit(&mut self, b: Block)
        ensures
            final(self).deep_view() == (StateV {
                blocks: old(self).deep_view().blocks.push(b.deep_view()),
                ..old(self).deep_view()
            }),
    {
        self.blocks.push(b);
        assert(self.deep_view() =~~= StateV {
            blocks: old(self).deep_view().blocks.push(b.deep_view()),
            ..old(self).deep_view()
        });
    }

    /// Moves a non-empty pending item into the innermost open list.
    fn flush_item_exec(&mut self)
        ensures
            final(self).deep_view() == flush_item(old(self).deep_view()),
    {
        if self.lists.len() > 0 && self.item_text.len() > 0 {
            let level = self.lists.len() - 1;
            let text = take_vec(&mut self.item_text);
            let mut frame = self.lists.pop().unwrap();
            frame.items.push(ListEntry { text, level });
            self.lists.push(frame);
            assert(self.deep_view() =~~= flush_item(old(self).deep_view()));
        }
    }

    /// Closes the open paragraph: emits it (or a blockquote) when it recorded
    /// content, and resets the paragraph state.
    fn end_paragraph(&mut self)
        ensures
            final(self).deep_view() == step_spec(
                old(self).deep_view(),
                EventV::ParagraphEnd,
                Seq::<char>::empty(),
                false,
            ),
    {
        if self.para_content {
            let runs = take_vec(&mut self.para_runs);
            if self.in_blockquote {
                self.emit(Block::BlockQuote { runs });
            } else {
                let links = take_vec(&mut self.para_links);
                self.emit(Block::Paragraph { runs, links });
            }
        }
        self.para_runs = Vec::new();
        self.para_links = Vec::new();
        self.para_content = false;
        assert(self.deep_view() =~~= step_spec(
            old(self).deep_view(),
            EventV::ParagraphEnd,
            Seq::<char>::empty(),
            false,
        ));
    }

    /// Consumes one event.
    pub fn step(&mut self, ev: &MdEvent, query: &Vec<char>, case_sensitive: bool)
        ensures
            final(self).deep_view() == step_spec(
                old(self).deep_view(),
                ev.deep_view(),
                query@,
                case_sensitive,
            ),
    {
        match ev {
            MdEvent::ParagraphStart | MdEvent::ParagraphEnd | MdEvent::HeadingStart(_)
            | MdEvent::HeadingEnd | MdEvent::BlockQuoteStart | MdEvent::BlockQuoteEnd
            | MdEvent::CodeBlockStart(_) | MdEvent::CodeBlockEnd | MdEvent::Rule => {
                self.step_structure(ev, query, case_sensitive);
            },
            MdEvent::ListStart(_) | MdEvent::ListEnd | MdEvent::ItemStart | MdEvent::ItemEnd => {
                self.step_list(ev, query, case_sensitive);
            },
            MdEvent::TableStart | MdEvent::TableEnd | MdEvent::TableHeadStart
            | MdEvent::TableHeadEnd | MdEvent::TableRowStart | MdEvent::TableRowEnd
            | MdEvent::TableCellStart | MdEvent::TableCellEnd => {
                self.step_table(ev, query, case_sensitive);
            },
            MdEvent::LinkStart(_) | MdEvent::LinkEnd | MdEvent::ImageStart(_)
            | MdEvent::ImageEnd => {
                self.step_span(ev, query, case_sensitive);
            },
            MdEvent::EmphasisStart | MdEvent::EmphasisEnd | MdEvent::StrongStart
            | MdEvent::StrongEnd | MdEvent::Text(_) | MdEvent::InlineCode(_)
            | MdEvent::SoftBreak | MdEvent::HardBreak => {
                self.step_inline(ev, query, case_sensitive);
            },
        }
    }

    /// Consumes a paragraph, heading, blockquote, code block, or rule event.
    #[verifier::rlimit(100)]
    #[verifier::spinoff_prover]
    fn step_structure(&mut self, ev: &MdEvent, query: &Vec<char>, case_sensitive: bool)
        requires
            ev is ParagraphStart || ev is ParagraphEnd || ev is HeadingStart || ev is HeadingEnd || ev is BlockQuoteStart || ev is BlockQuoteEnd || ev is CodeBlockStart || ev is CodeBlockEnd || ev is Rule,
        ensures
            final(self).deep_view() == step_spec(
                old(self).deep_view(),
                ev.deep_view(),
                query@,
                case_sensitive,
            ),
    {
        let ghost st0 = old(self).deep_view();
        let ghost evv = ev.deep_view();
        match ev {
            MdEvent::ParagraphStart => {
                self.para_runs = Vec::new();
                self.para_content = false;
                assert(self.deep_view() =~~= step_spec(st0, evv, query@, case_sensitive));
            },
            MdEvent::ParagraphEnd => {
                self.end_paragraph();
                assert(self.deep_view() =~~= step_spec(st0, evv, query@, case_sensitive));
            },
            MdEvent::HeadingStart(level) => {
                self.in_heading = true;
                self.heading_level = *level;
                self.accum = Vec::new();
                assert(self.deep_view() =~~= step_spec(st0, evv, query@, case_sensitive));
            },
            MdEvent::HeadingEnd => {
                let title = trim_chars(&self.accum);
                if title.len() > 0 {
                    let level = self.heading_level;
                    self.emit(Block::Heading { level, text: title });
                }
                self.in_heading = false;
                self.heading_level = 0;
                self.emphasis = false;
                self.strong = false;
                self.is_link = false;
                self.link_url = Vec::new();
                self.accum = Vec::new();
                assert(self.deep_view() =~~= step_spec(st0, evv, query@, case_sensitive));
            },
            MdEvent::BlockQuoteStart => {
                self.in_blockquote = true;
                assert(self.deep_view() =~~= step_spec(st0, evv, query@, case_sensitive));
            },
            MdEvent::BlockQuoteEnd => {
                self.in_blockquote = false;
                assert(self.deep_view() =~~= step_spec(st0, evv, query@, case_sensitive));
            },
            MdEvent::CodeBlockStart(lang) => {
                self.in_code = true;
                self.code_text = Vec::new();
                self.code_lang = copy_chars(lang);
                assert(self.deep_view() =~~= step_spec(st0, evv, query@, case_sensitive));
            },
            MdEvent::CodeBlockEnd => {
                self.in_code = false;
                let content = take_vec(&mut self.code_text);
                let language = copy_chars(&self.code_lang);
                self.emit(Block::CodeBlock { content, language });
                assert(self.deep_view() =~~= step_spec(st0, evv, query@, case_sensitive));
            },
            MdEvent::Rule => {
                self.emit(Block::Rule);
                assert(self.deep_view() =~~= step_spec(st0, evv, query@, case_sensitive));
            },
            _ => {
                proof {
                    assert(false);
                }
            },
        }
    }

    /// Consumes a list or item event.
    #[verifier::rlimit(100)]
    #[verifier::spinoff_prover]
    fn step_list(&mut self, ev: &MdEvent, query: &Vec<char>, case_sensitive: bool)
        requires
            ev is ListStart || ev is ListEnd || ev is ItemStart || ev is ItemEnd,
        ensures
            final(self).deep_view() == step_spec(
                old(self).deep_view(),
                ev.deep_view(),
                query@,
                case_sensitive,
            ),
    {
        let ghost st0 = old(self).deep_view();
        let ghost evv = ev.deep_view();
        match ev {
            MdEvent::ListStart(ordered) => {
                self.flush_item_exec();
                self.lists.push(ListFrame { ordered: *ordered, items: Vec::new() });
                assert(self.deep_view() =~~= step_spec(st0, evv, query@, case_sensitive));
            },
            MdEvent::ListEnd => {
                if self.lists.len() > 0 {
                    let frame = self.lists.pop().unwrap();
                    if self.lists.len() == 0 {
                        self.emit(Block::List { ordered: frame.ordered, items: frame.items });
                    } else {
                        let mut outer = self.lists.pop().unwrap();
                        let mut items = frame.items;
                        outer.items.append(&mut items);
                        self.lists.push(outer);
                    }
                }
                assert(self.deep_view() =~~= step_spec(st0, evv, query@, case_sensitive));
            },
            MdEvent::ItemStart => {
                self.item_text = Vec::new();
                assert(self.deep_view() =~~= step_spec(st0, evv, query@, case_sensitive));
            },
            MdEvent::ItemEnd => {
                self.flush_item_exec();
                self.item_text = Vec::new();
                assert(self.deep_view() =~~= step_spec(st0, evv, query@, case_sensitive));
            },
            _ => {
                proof {
                    assert(false);
                }
            },
        }
    }

    /// Consumes a table event.
    #[verifier::rlimit(100)]
    #[verifier::spinoff_prover]
    fn step_table(&mut self, ev: &MdEvent, query: &Vec<char>, case_sensitive: bool)
        requires
            ev is TableStart || ev is TableEnd || ev is TableHeadStart || ev is TableHeadEnd || ev is TableRowStart || ev is TableRowEnd || ev is TableCellStart || ev is TableCellEnd,
        ensures
            final(self).deep_view() == step_spec(
                old(self).deep_view(),
                ev.deep_view(),
                query@,
                case_sensitive,
            ),
    {
        let ghost st0 = old(self).deep_view();
        let ghost evv = ev.deep_view();
        match ev {
            MdEvent::TableStart => {
                self.in_table = true;
                self.headers = Vec::new();
                self.rows = Vec::new();
                assert(self.deep_view() =~~= step_spec(st0, evv, query@, case_sensitive));
            },
            MdEvent::TableEnd => {
                if self.in_table {
                    let headers = take_vec(&mut self.headers);
                    let rows = take_vec(&mut self.rows);
                    self.emit(Block::Table { headers, rows });
                }
                self.in_table = false;
                assert(self.deep_view() =~~= step_spec(st0, evv, query@, case_sensitive));
            },
            MdEvent::TableHeadStart => {
                self.row_cells = Vec::new();
                assert(self.deep_view() =~~= step_spec(st0, evv, query@, case_sensitive));
            },
            MdEvent::TableHeadEnd => {
                if self.in_table {
                    let cells = take_vec(&mut self.row_cells);
                    self.headers = cells;
                }
                assert(self.deep_view() =~~= step_spec(st0, evv, query@, case_sensitive));
            },
            MdEvent::TableRowStart => {
                self.row_cells = Vec::new();
                assert(self.deep_view() =~~= step_spec(st0, evv, query@, case_sensitive));
            },
            MdEvent::TableRowEnd => {
                if self.in_table && self.row_cells.len() > 0 {
                    let cells = take_vec(&mut self.row_cells);
                    self.rows.push(cells);
                }
                assert(self.deep_view() =~~= step_spec(st0, evv, query@, case_sensitive));
            },
            MdEvent::TableCellStart => {
                self.cell_text = Vec::new();
                assert(self.deep_view() =~~= step_spec(st0, evv, query@, case_sensitive));
            },
            MdEvent::TableCellEnd => {
                if self.in_table {
                    let text = take_vec(&mut self.cell_text);
                    self.row_cells.push(text);
                }
                assert(self.deep_view() =~~= step_spec(st0, evv, query@, case_sensitive));
            },
            _ => {
                proof {
                    assert(false);
                }
            },
        }
    }

    /// Consumes a link or image event.
    #[verifier::rlimit(100)]
    #[verifier::spinoff_prover]
    fn step_span(&mut self, ev: &MdEvent, query: &Vec<char>, case_sensitive: bool)
        requires
            ev is LinkStart || ev is LinkEnd || ev is ImageStart || ev is ImageEnd,
        ensures
            final(self).deep_view() == step_spec(
                old(self).deep_view(),
                ev.deep_view(),
                query@,
                case_sensitive,
            ),
    {
        let ghost st0 = old(self).deep_view();
        let ghost evv = ev.deep_view();
        match ev {
            MdEvent::LinkStart(url) => {
                self.is_link = true;
                self.link_url = copy_chars(url);
                assert(self.deep_view() =~~= step_spec(st0, evv, query@, case_sensitive));
            },
            MdEvent::LinkEnd => {
                self.is_link = false;
                self.link_url = Vec::new();
                assert(self.deep_view() =~~= step_spec(st0, evv, query@, case_sensitive));
            },
            MdEvent::ImageStart(url) => {
                self.link_url = copy_chars(url);
                self.accum = Vec::new();
                assert(self.deep_view() =~~= step_spec(st0, evv, query@, case_sensitive));
            },
            MdEvent::ImageEnd => {
                let url = take_vec(&mut self.link_url);
                let alt = take_vec(&mut self.accum);
                self.emit(Block::Image { url, alt });
                assert(self.deep_view() =~~= step_spec(st0, evv, query@, case_sensitive));
            },
            _ => {
                proof {
                    assert(false);
                }
            },
        }
    }

    /// Consumes an emphasis, strong, text, inline code, or break event.
    #[verifier::rlimit(100)]
    #[verifier::spinoff_prover]
    fn step_inline(&mut self, ev: &MdEvent, query: &Vec<char>, case_sensitive: bool)
        requires
            ev is EmphasisStart || ev is EmphasisEnd || ev is StrongStart || ev is StrongEnd || ev is Text || ev is InlineCode || ev is SoftBreak || ev is HardBreak,
        ensures
            final(self).deep_view() == step_spec(
                old(self).deep_view(),
                ev.deep_view(),
                query@,
                case_sensitive,
            ),
    {
        let ghost st0 = old(self).deep_view();
        let ghost evv = ev.deep_view();
        match ev {
            MdEvent::EmphasisStart => {
                self.emphasis = true;
                assert(self.deep_view() =~~= step_spec(st0, evv, query@, case_sensitive));
            },
            MdEvent::EmphasisEnd => {
                self.emphasis = false;
                assert(self.deep_view() =~~= step_spec(st0, evv, query@, case_sensitive));
            },
            MdEvent::StrongStart => {
                self.strong = true;
                assert(self.deep_view() =~~= step_spec(st0, evv, query@, case_sensitive));
            },
            MdEvent::StrongEnd => {
                self.strong = false;
                assert(self.deep_view() =~~= step_spec(st0, evv, query@, case_sensitive));
            },
            MdEvent::Text(t) => {
                self.on_text(t, query, case_sensitive);
                assert(self.deep_view() =~~= step_spec(st0, evv, query@, case_sensitive));
            },
            MdEvent::InlineCode(t) => {
                if self.in_heading {
                    append_chars(&mut self.accum, t);
                } else {
                    let mut runs = build_runs(t, false, false, false, true, query, case_sensitive);
                    let ghost pre = self.para_runs.deep_view();
                    let ghost added = runs.deep_view();
                    self.para_runs.append(&mut runs);
                    assert(self.para_runs.deep_view() =~= pre + added);
                    self.para_content = true;
                }
                assert(self.deep_view() =~~= step_spec(st0, evv, query@, case_sensitive));
            },
            MdEvent::SoftBreak => {
                self.on_break(' ', query, case_sensitive);
                assert(self.deep_view() =~~= step_spec(st0, evv, query@, case_sensitive));
            },
            MdEvent::HardBreak => {
                self.on_break('\n', query, case_sensitive);
                assert(self.deep_view() =~~= step_spec(st0, evv, query@, case_sensitive));
            },
            _ => {
                proof {
                    assert(false);
                }
            },
        }
    }

    /// Routes one text fragment.
    fn on_text(&mut self, t: &Vec<char>, query: &Vec<char>, case_sensitive: bool)
        ensures
            final(self).deep_view() == text_step(old(self).deep_view(), t@, query@, case_sensitive),
    {
        if self.in_code {
            append_chars(&mut self.code_text, t);
        } else if self.in_heading {
            append_chars(&mut self.accum, t);
        } else if self.in_table {
            append_chars(&mut self.cell_text, t);
        } else if self.lists.len() > 0 {
            append_chars(&mut self.item_text, t);
        } else if self.link_url.len() > 0 && self.accum.len() == 0 {
            append_chars(&mut self.accum, t);
        } else {
            let mut runs = build_runs(
                t,
                self.strong,
                self.emphasis,
                self.is_link,
                false,
                query,
                case_sensitive,
            );
            let ghost pre = self.para_runs.deep_view();
            let ghost added = runs.deep_view();
            self.para_runs.append(&mut runs);
            assert(self.para_runs.deep_view() =~= pre + added);
            if self.is_link && self.link_url.len() > 0 {
                let url = copy_chars(&self.link_url);
                let text = copy_chars(t);
                self.para_links.push(LinkRef { url, text });
            }
            self.para_content = true;
        }
        assert(self.deep_view() =~~= text_step(
            old(self).deep_view(),
            t@,
            query@,
            case_sensitive,
        ));
    }

    /// Routes one break, given as its one character.
    fn on_break(&mut self, c: char, query: &Vec<char>, case_sensitive: bool)
        ensures
            final(self).deep_view() == break_step(
                old(self).deep_view(),
                seq![c],
                query@,
                case_sensitive,
            ),
    {
        if self.in_code {
        } else if self.in_heading {
            self.accum.push(c);
            assert(self.accum@ =~= old(self).accum@ + seq![c]);
        } else if self.lists.len() > 0 {
            self.item_text.push(c);
            assert(self.item_text@ =~= old(self).item_text@ + seq![c]);
        } else {
            let mut t: Vec<char> = Vec::new();
            t.push(c);
            assert(t@ =~= seq![c]);
            let mut runs = build_runs(
                &t,
                self.strong,
                self.emphasis,
                self.is_link,
                false,
                query,
                case_sensitive,
            );
            let ghost pre = self.para_runs.deep_view();
            let ghost added = runs.deep_view();
            self.para_runs.append(&mut runs);
            assert(self.para_runs.deep_view() =~= pre + added);
            if self.is_link && self.link_url.len() > 0 {
                let url = copy_chars(&self.link_url);
                let text = copy_chars(&t);
                self.para_links.push(LinkRef { url, text });
            }
        }
        assert(self.deep_view() =~~= break_step(
            old(self).deep_view(),
            seq![c],
            query@,
            case_sensitive,
        ));
    }
}

/// Compiles a whole event sequence into its block stream.
pub fn compile_events(events: &Vec<MdEvent>, query: &Vec<char>, case_sensitive: bool) -> (r: Vec<
    Block,
>)
    ensures
        r.deep_view() == compile_spec(events.deep_view(), query@, case_sensitive),
{
    let mut c = Compiler::new();
    let n = events.len();
    let mut i: usize = 0;
    while i < n
        invariant
            i <= n,
            n == events@.len(),
            c.deep_view() == run_steps(
                init_state(),
                events.deep_view().take(i as int),
                query@,
                case_sensitive,
            ),
        decreases n - i,
    {
        c.step(&events[i], query, case_sensitive);
        proof {
            assert(events.deep_view().take(i + 1) =~= events.deep_view().take(i as int).push(
                events.deep_view()[i as int],
            ));
            lemma_run_steps_snoc(
                init_state(),
                events.deep_view().take(i as int),
                events.deep_view()[i as int],
                query@,
                case_sensitive,
            );
        }
        i += 1;
    }
    assert(events.deep_view().take(n as int) =~= events.deep_view());
    c.blocks
}

/// Whether a block is a heading whose text is exactly the given title.
pub open spec fn heading_matches(b: BlockV, title: Seq<char>) -> bool {
    match b {
        BlockV::Heading { level, text } => text == title,
        _ => false,
    }
}

/// Finds the first heading block whose text is exactly the given title: the
/// pending scroll target is consumed only on an exact string match.
pub fn find_heading(blocks: &Vec<Block>, title: &Vec<char>) -> (r: Option<usize>)
    ensures
        match r {
            Some(i) => i < blocks@.len() && heading_matches(blocks.deep_view()[i as int], title@)
                && forall|j: int|
                0 <= j < i ==> !heading_matches(blocks.deep_view()[j], title@),
            None => forall|j: int|
                0 <= j < blocks@.len() ==> !heading_matches(blocks.deep_view()[j], title@),
        },
{
    let n = blocks.len();
    let mut i: usize = 0;
    while i < n
        invariant
            i <= n,
            n == blocks@.len(),
            forall|j: int| 0 <= j < i ==> !heading_matches(blocks.deep_view()[j], title@),
        decreases n - i,
    {
        match &blocks[i] {
            Block::Heading { level, text } => {
                if chars_eq(text, title) {
                    return Some(i);
                }
            },
            _ => {},
        }
        assert(!heading_matches(blocks.deep_view()[i as int], title@));
        i += 1;
    }
    None
}

} // verus!
