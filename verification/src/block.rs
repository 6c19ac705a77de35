//! The block stream: one finished, renderable unit of document structure per
//! closed container, plus the layout rules for lists and tables.

use vstd::prelude::*;

use crate::runs::{RunV, StyledRun};
use crate::text::{trim_chars, trim_spec};

verus! {

/// A link recorded for a paragraph: destination and display text.
#[derive(Clone, PartialEq, Eq, Debug)]
pub struct LinkRef {
    /// The destination of the link.
    pub url: Vec<char>,
    /// The display text the link contributed.
    pub text: Vec<char>,
}

/// The mathematical value of a recorded link.
#[verifier::ext_equal]
pub struct LinkRefV {
    /// The destination of the link.
    pub url: Seq<char>,
    /// The display text the link contributed.
    pub text: Seq<char>,
}

impl DeepView for LinkRef {
    type V = LinkRefV;

    open spec fn deep_view(&self) -> LinkRefV {
        LinkRefV { url: self.url@, text: self.text@ }
    }
}

/// One list item: its raw text and the nesting level it was closed at.
#[derive(Clone, PartialEq, Eq, Debug)]
pub struct ListEntry {
    /// The raw accumulated text of the item.
    pub text: Vec<char>,
    /// The nesting level: the depth of open lists above this item, zero-based.
    pub level: usize,
}

/// The mathematical value of a list item.
#[verifier::ext_equal]
pub struct ListEntryV {
    /// The raw accumulated text of the item.
    pub text: Seq<char>,
    /// The nesting level, zero-based.
    pub level: usize,
}

impl DeepView for ListEntry {
    type V = ListEntryV;

    open spec fn deep_view(&self) -> ListEntryV {
        ListEntryV { text: self.text@, level: self.level }
    }
}

/// The texts of a sequence of character vectors.
pub open spec fn texts_view(v: Seq<Vec<char>>) -> Seq<Seq<char>> {
    Seq::new(v.len(), |i: int| v[i]@)
}

/// The texts of a sequence of rows of character vectors.
pub open spec fn rows_view(v: Seq<Vec<Vec<char>>>) -> Seq<Seq<Seq<char>>> {
    Seq::new(v.len(), |i: int| texts_view(v[i]@))
}

/// One finished, renderable unit of document structure. Produced exactly once
/// per closed container and immutable once emitted.
#[derive(Clone, PartialEq, Eq, Debug)]
pub enum Block {
    /// A heading with its level (1 to 6) and trimmed title text.
    Heading { level: u8, text: Vec<char> },
    /// A paragraph: its styled runs and the links recorded inside it.
    Paragraph { runs: Vec<StyledRun>, links: Vec<LinkRef> },
    /// A code block: raw content and language tag.
    CodeBlock { content: Vec<char>, language: Vec<char> },
    /// A list: ordered or not, with its items in document order.
    List { ordered: bool, items: Vec<ListEntry> },
    /// A table: header cells and body rows, as accumulated.
    Table { headers: Vec<Vec<char>>, rows: Vec<Vec<Vec<char>>> },
    /// A quoted paragraph: its styled runs.
    BlockQuote { runs: Vec<StyledRun> },
    /// An image: its reference and accumulated alt text.
    Image { url: Vec<char>, alt: Vec<char> },
    /// A thematic break.
    Rule,
}

/// The mathematical value of a block.
#[verifier::ext_equal]
pub enum BlockV {
    /// A heading with its level and trimmed title text.
    Heading { level: u8, text: Seq<char> },
    /// A paragraph: styled runs and recorded links.
    Paragraph { runs: Seq<RunV>, links: Seq<LinkRefV> },
    /// A code block: raw content and language tag.
    CodeBlock { content: Seq<char>, language: Seq<char> },
    /// A list: ordered or not, with its items.
    List { ordered: bool, items: Seq<ListEntryV> },
    /// A table: header cells and body rows.
    Table { headers: Seq<Seq<char>>, rows: Seq<Seq<Seq<char>>> },
    /// A quoted paragraph: its styled runs.
    BlockQuote { runs: Seq<RunV> },
    /// An image: reference and alt text.
    Image { url: Seq<char>, alt: Seq<char> },
    /// A thematic break.
    Rule,
}

impl DeepView for Block {
    type V = BlockV;

    open spec fn deep_view(&self) -> BlockV {
        match self {
            Block::Heading { level, text } => BlockV::Heading { level: *level, text: text@ },
            Block::Paragraph { runs, links } => BlockV::Paragraph {
                runs: runs.deep_view(),
                links: links.deep_view(),
            },
            Block::CodeBlock { content, language } => BlockV::CodeBlock {
                content: content@,
                language: language@,
            },
            Block::List { ordered, items } => BlockV::List {
                ordered: *ordered,
                items: items.deep_view(),
            },
            Block::Table { headers, rows } => BlockV::Table {
                headers: texts_view(headers@),
                rows: rows_view(rows@),
            },
            Block::BlockQuote { runs } => BlockV::BlockQuote { runs: runs.deep_view() },
            Block::Image { url, alt } => BlockV::Image { url: url@, alt: alt@ },
            Block::Rule => BlockV::Rule,
        }
    }
}

/// The label in front of a rendered list item.
#[derive(Clone, Copy, PartialEq, Eq, Structural, Debug)]
pub enum ListLabel {
    /// A bullet, for unordered lists.
    Bullet,
    /// A one-based ordinal within the list, for ordered lists.
    Ordinal(usize),
}

/// One rendered list line: label, indent level, and trimmed text.
#[derive(Clone, PartialEq, Eq, Debug)]
pub struct ListLine {
    /// The bullet or ordinal in front of the item.
    pub label: ListLabel,
    /// The nesting level the indent is proportional to.
    pub indent: usize,
    /// The trimmed item text.
    pub text: Vec<char>,
}

/// The mathematical value of a rendered list line.
#[verifier::ext_equal]
pub struct ListLineV {
    /// The bullet or ordinal in front of the item.
    pub label: ListLabel,
    /// The nesting level the indent is proportional to.
    pub indent: usize,
    /// The trimmed item text.
    pub text: Seq<char>,
}

impl DeepView for ListLine {
    type V = ListLineV;

    open spec fn deep_view(&self) -> ListLineV {
        ListLineV { label: self.label, indent: self.indent, text: self.text@ }
    }
}

/// The per-depth counters adjusted for an item at the given depth: counters
/// deeper than the item are discarded (its nested frames have closed), and
/// missing shallower slots start at zero.
pub open spec fn resize_counters(counters: Seq<int>, depth: int) -> Seq<int> {
    Seq::new(
        (depth + 1) as nat,
        |k: int|
            if k < counters.len() {
                counters[k]
            } else {
                0
            },
    )
}

/// The 1-based ordinals of the items from position `i` on, given the counts
/// already assigned at each open depth. An item's ordinal counts within its
/// own frame: entering a deeper level starts a fresh count, and returning to
/// a shallower level drops the deeper counts.
pub open spec fn ordinals_from(items: Seq<ListEntryV>, i: int, counters: Seq<int>) -> Seq<int>
    decreases items.len() - i,
    when 0 <= i
{
    if i >= items.len() {
        Seq::empty()
    } else {
        let depth = items[i].level as int;
        let c = resize_counters(counters, depth);
        let o = c[depth] + 1;
        seq![o] + ordinals_from(items, i + 1, c.update(depth, o))
    }
}

/// The ordinal of each item: a 1-based index within the item's own frame, not
/// global across nesting.
pub open spec fn ordinals_spec(items: Seq<ListEntryV>) -> Seq<int> {
    ordinals_from(items, 0, Seq::empty())
}

/// How a list renders: each item gets a bullet, or its 1-based ordinal within
/// its own frame when the list is ordered, an indent equal to its nesting
/// level, and its text trimmed.
pub open spec fn list_layout_spec(ordered: bool, items: Seq<ListEntryV>) -> Seq<ListLineV> {
    Seq::new(
        items.len(),
        |i: int|
            ListLineV {
                label: if ordered {
                    ListLabel::Ordinal(ordinals_spec(items)[i] as usize)
                } else {
                    ListLabel::Bullet
                },
                indent: items[i].level,
                text: trim_spec(items[i].text),
            },
    )
}

/// Lays a closed list out for rendering.
pub fn list_layout(ordered: bool, items: &Vec<ListEntry>) -> (r: Vec<ListLine>)
    ensures
        r.deep_view() == list_layout_spec(ordered, items.deep_view()),
{
    let n = items.len();
    let ghost iv = items.deep_view();
    let mut r: Vec<ListLine> = Vec::new();
    let mut counters: Vec<usize> = Vec::new();
    let mut i: usize = 0;
    proof {
        lemma_ordinals_len(iv, 0, Seq::<int>::empty());
        assert(Seq::new(counters@.len(), |k: int| counters@[k] as int) =~= Seq::<int>::empty());
        assert(ordinals_spec(iv).take(0) =~= Seq::<int>::empty());
        assert(ordinals_spec(iv).take(0) + ordinals_from(iv, 0, Seq::<int>::empty())
            =~= ordinals_from(iv, 0, Seq::<int>::empty()));
    }
    while i < n
        invariant
            i <= n,
            n == items@.len(),
            iv == items.deep_view(),
            ordinals_spec(iv).len() == n,
            forall|k: int| 0 <= k < counters@.len() ==> counters@[k] <= i,
            ordinals_spec(iv) =~= ordinals_spec(iv).take(i as int) + ordinals_from(
                iv,
                i as int,
                Seq::new(counters@.len(), |k: int| counters@[k] as int),
            ),
            r.deep_view() =~= Seq::new(
                i as nat,
                |j: int|
                    ListLineV {
                        label: if ordered {
                            ListLabel::Ordinal(ordinals_spec(iv)[j] as usize)
                        } else {
                            ListLabel::Bullet
                        },
                        indent: iv[j].level,
                        text: trim_spec(iv[j].text),
                    },
            ),
        decreases n - i,
    {
        let ghost cv = Seq::new(counters@.len(), |k: int| counters@[k] as int);
        proof {
            lemma_ordinals_len(iv, i as int, cv);
        }
        let depth = items[i].level;
        let mut fresh: Vec<usize> = Vec::new();
        let mut k: usize = 0;
        let mut done = false;
        while !done
            invariant
                k <= depth,
                !done ==> fresh@.len() == k,
                done ==> fresh@.len() == depth + 1,
                forall|idx: int|
                    0 <= idx < fresh@.len() ==> fresh@[idx] as int == resize_counters(
                        cv,
                        depth as int,
                    )[idx],
                forall|idx: int| 0 <= idx < fresh@.len() ==> fresh@[idx] <= i,
                forall|idx: int| 0 <= idx < counters@.len() ==> counters@[idx] <= i,
                cv == Seq::new(counters@.len(), |idx: int| counters@[idx] as int),
            decreases depth - k + (if done {
                0int
            } else {
                1int
            }),
        {
            let slot = if k < counters.len() {
                counters[k]
            } else {
                0
            };
            fresh.push(slot);
            if k == depth {
                done = true;
            } else {
                k += 1;
            }
        }
        let o = fresh[depth] + 1;
        fresh[depth] = o;
        counters = fresh;
        proof {
            let c = resize_counters(cv, depth as int);
            let updated = c.update(depth as int, c[depth as int] + 1);
            lemma_ordinals_len(iv, i + 1, updated);
            assert(ordinals_from(iv, i as int, cv) == seq![c[depth as int] + 1]
                + ordinals_from(iv, i + 1, updated));
            assert(ordinals_from(iv, i as int, cv)[0] == c[depth as int] + 1);
            assert(ordinals_spec(iv)[i as int] == ordinals_from(iv, i as int, cv)[0]) by {
                assert(ordinals_spec(iv) == ordinals_spec(iv).take(i as int) + ordinals_from(
                    iv,
                    i as int,
                    cv,
                ));
            }
            assert(o as int == ordinals_spec(iv)[i as int]);
            assert(Seq::new(counters@.len(), |idx: int| counters@[idx] as int) =~= updated);
            assert(ordinals_spec(iv).take(i + 1) + ordinals_from(iv, i + 1, updated)
                =~= ordinals_spec(iv).take(i as int) + ordinals_from(iv, i as int, cv));
        }
        let label = if ordered {
            ListLabel::Ordinal(o)
        } else {
            ListLabel::Bullet
        };
        let line = ListLine { label, indent: depth, text: trim_chars(&items[i].text) };
        let ghost rdv = r.deep_view();
        let ghost lv = line.deep_view();
        r.push(line);
        assert(r.deep_view() =~= rdv.push(lv));
        assert(r.deep_view() =~~= Seq::new(
            (i + 1) as nat,
            |j: int|
                ListLineV {
                    label: if ordered {
                        ListLabel::Ordinal(ordinals_spec(iv)[j] as usize)
                    } else {
                        ListLabel::Bullet
                    },
                    indent: iv[j].level,
                    text: trim_spec(iv[j].text),
                },
        ));
        i += 1;
    }
    assert(r.deep_view() =~~= list_layout_spec(ordered, items.deep_view()));
    r
}

/// Each item from position `i` on gets exactly one ordinal.
proof fn lemma_ordinals_len(items: Seq<ListEntryV>, i: int, counters: Seq<int>)
    requires
        0 <= i <= items.len(),
    ensures
        ordinals_from(items, i, counters).len() == items.len() - i,
    decreases items.len() - i,
{
    if i < items.len() {
        let depth = items[i].level as int;
        let c = resize_counters(counters, depth);
        lemma_ordinals_len(items, i + 1, c.update(depth, c[depth] + 1));
    }
}

/// The length of the longest row.
pub open spec fn max_row_len(rows: Seq<Seq<Seq<char>>>) -> int
    decreases rows.len(),
{
    if rows.len() == 0 {
        0
    } else {
        let rest = max_row_len(rows.drop_last());
        if rows.last().len() > rest {
            rows.last().len() as int
        } else {
            rest
        }
    }
}

/// A body row as it renders against the headers: padded on the right with
/// empty cells up to the larger of the header count and its own length, each
/// present cell trimmed.
pub open spec fn row_padded(headers: Seq<Seq<char>>, row: Seq<Seq<char>>) -> Seq<Seq<char>> {
    let m = if headers.len() > row.len() {
        headers.len() as int
    } else {
        row.len() as int
    };
    Seq::new(
        m as nat,
        |i: int|
            if i < row.len() {
                trim_spec(row[i])
            } else {
                Seq::<char>::empty()
            },
    )
}

/// How a table renders: its column count and the trimmed header and body
/// cells, rows padded with empty cells.
#[derive(Clone, PartialEq, Eq, Debug)]
pub struct TableLayout {
    /// The column count: the larger of the header count and the longest row.
    pub columns: usize,
    /// The header cells, trimmed.
    pub header_cells: Vec<Vec<char>>,
    /// The body rows, each padded and trimmed.
    pub row_cells: Vec<Vec<Vec<char>>>,
}

/// Lays a closed table out for rendering. Rows are never rejected for being
/// short or long: short rows pad with empty cells, long rows widen the grid.
pub fn table_layout(headers: &Vec<Vec<char>>, rows: &Vec<Vec<Vec<char>>>) -> (r: TableLayout)
    ensures
        r.columns as int == (if headers@.len() > max_row_len(rows_view(rows@)) {
            headers@.len() as int
        } else {
            max_row_len(rows_view(rows@))
        }),
        texts_view(r.header_cells@) == texts_view(headers@).map_values(
            |c: Seq<char>| trim_spec(c),
        ),
        rows_view(r.row_cells@) == rows_view(rows@).map_values(
            |row: Seq<Seq<char>>| row_padded(texts_view(headers@), row),
        ),
{
    let hn = headers.len();
    let rn = rows.len();
    let mut widest: usize = 0;
    let mut i: usize = 0;
    while i < rn
        invariant
            i <= rn,
            rn == rows@.len(),
            widest as int == max_row_len(rows_view(rows@).take(i as int)),
        decreases rn - i,
    {
        let w = rows[i].len();
        proof {
            assert(rows_view(rows@).take(i + 1).drop_last() =~= rows_view(rows@).take(i as int));
            assert(rows_view(rows@).take(i + 1).last() == rows_view(rows@)[i as int]);
        }
        if w > widest {
            widest = w;
        }
        i += 1;
    }
    assert(rows_view(rows@).take(rn as int) =~= rows_view(rows@));
    let columns = if hn > widest {
        hn
    } else {
        widest
    };

    let mut header_cells: Vec<Vec<char>> = Vec::new();
    let mut i: usize = 0;
    while i < hn
        invariant
            i <= hn,
            hn == headers@.len(),
            texts_view(header_cells@) =~~= texts_view(headers@).map_values(
                |c: Seq<char>| trim_spec(c),
            ).take(i as int),
        decreases hn - i,
    {
        let cell = trim_chars(&headers[i]);
        let ghost pre = header_cells@;
        header_cells.push(cell);
        assert(texts_view(header_cells@) =~= texts_view(pre).push(trim_spec(headers@[i as int]@)));
        assert(texts_view(header_cells@) =~~= texts_view(headers@).map_values(
            |c: Seq<char>| trim_spec(c),
        ).take(i + 1));
        i += 1;
    }
    assert(texts_view(headers@).map_values(|c: Seq<char>| trim_spec(c)).take(hn as int)
        =~~= texts_view(headers@).map_values(|c: Seq<char>| trim_spec(c)));

    let mut row_cells: Vec<Vec<Vec<char>>> = Vec::new();
    let mut i: usize = 0;
    while i < rn
        invariant
            i <= rn,
            rn == rows@.len(),
            hn == headers@.len(),
            rows_view(row_cells@) =~~= rows_view(rows@).map_values(
                |row: Seq<Seq<char>>| row_padded(texts_view(headers@), row),
            ).take(i as int),
        decreases rn - i,
    {
        let row = &rows[i];
        let rl = row.len();
        let m = if hn > rl {
            hn
        } else {
            rl
        };
        let mut cells: Vec<Vec<char>> = Vec::new();
        let mut j: usize = 0;
        while j < m
            invariant
                j <= m,
                rl == row@.len(),
                m == (if hn > rl {
                    hn as int
                } else {
                    rl as int
                }),
                texts_view(cells@) =~~= row_padded(texts_view(headers@), texts_view(row@)).take(
                    j as int,
                ),
                hn == headers@.len(),
            decreases m - j,
        {
            let ghost pre = cells@;
            if j < rl {
                let cell = trim_chars(&row[j]);
                cells.push(cell);
                assert(texts_view(cells@) =~= texts_view(pre).push(trim_spec(row@[j as int]@)));
            } else {
                let cell: Vec<char> = Vec::new();
                cells.push(cell);
                assert(texts_view(cells@) =~= texts_view(pre).push(Seq::<char>::empty()));
            }
            assert(texts_view(cells@) =~~= row_padded(texts_view(headers@), texts_view(row@)).take(
                j + 1,
            ));
            j += 1;
        }
        assert(texts_view(cells@) =~~= row_padded(texts_view(headers@), texts_view(row@)));
        let ghost cv = texts_view(cells@);
        let ghost pre = row_cells@;
        row_cells.push(cells);
        assert(rows_view(row_cells@) =~= rows_view(pre).push(cv));
        assert(rows_view(row_cells@) =~~= rows_view(rows@).map_values(
            |row: Seq<Seq<char>>| row_padded(texts_view(headers@), row),
        ).take(i + 1));
        i += 1;
    }
    assert(rows_view(rows@).map_values(|row: Seq<Seq<char>>| row_padded(texts_view(headers@), row))
        .take(rn as int) =~~= rows_view(rows@).map_values(
        |row: Seq<Seq<char>>| row_padded(texts_view(headers@), row),
    ));

    TableLayout { columns, header_cells, row_cells }
}

} // verus!
