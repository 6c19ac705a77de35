//! The event source: the markdown parser, behind a trusted boundary.
//!
//! The parser is a black box to the rest of the crate: what it produces for a
//! text is named by `events_of`, and everything downstream (the compiler, the
//! table of contents) is verified against that name.

use vstd::prelude::*;

use crate::event::{heading_level_bounded, EventV, MdEvent};
use pulldown_cmark::{CodeBlockKind, Event, Tag, TagEnd};

verus! {

#[verifier::external_type_specification]
#[verifier::external_body]
pub struct ExEvent<'a>(pulldown_cmark::Event<'a>);

/// The event sequence the markdown parser produces for a text, carried into
/// this crate's event model. Named rather than written out: the mapping is
/// the CommonMark grammar with tables and strikethrough enabled, and it is a
/// function of the text alone.
pub uninterp spec fn events_of(text: Seq<char>) -> Seq<EventV>;

/// Relies on the shape of `pulldown_cmark::Event`: carries each leaf event
/// over, moving its text.
#[verifier::external_body]
fn convert_leaf(e: &pulldown_cmark::Event) -> (r: Option<MdEvent>) {
    match e {
        Event::Text(t) => Some(MdEvent::Text(t.chars().collect())),
        Event::Code(t) => Some(MdEvent::InlineCode(t.chars().collect())),
        Event::SoftBreak => Some(MdEvent::SoftBreak),
        Event::HardBreak => Some(MdEvent::HardBreak),
        Event::Rule => Some(MdEvent::Rule),
        _ => None,
    }
}

/// Relies on the shape of `pulldown_cmark::Tag`: carries each block-level
/// open over, moving the heading level and the fenced language tag.
#[verifier::external_body]
fn convert_block_start(e: &pulldown_cmark::Event) -> (r: Option<MdEvent>) {
    match e {
        Event::Start(Tag::Paragraph) => Some(MdEvent::ParagraphStart),
        Event::Start(Tag::Heading { level, .. }) => Some(MdEvent::HeadingStart(*level as u8)),
        Event::Start(Tag::BlockQuote(_)) => Some(MdEvent::BlockQuoteStart),
        Event::Start(Tag::CodeBlock(CodeBlockKind::Fenced(l))) => Some(MdEvent::CodeBlockStart(l.chars().collect())),
        Event::Start(Tag::CodeBlock(CodeBlockKind::Indented)) => Some(MdEvent::CodeBlockStart(Vec::new())),
        Event::Start(Tag::List(n)) => Some(MdEvent::ListStart(n.is_some())),
        Event::Start(Tag::Item) => Some(MdEvent::ItemStart),
        _ => None,
    }
}

/// Relies on the shape of `pulldown_cmark::Tag`: carries each table and
/// inline-span open over, moving the link or image destination.
#[verifier::external_body]
fn convert_span_start(e: &pulldown_cmark::Event) -> (r: Option<MdEvent>) {
    match e {
        Event::Start(Tag::Table(_)) => Some(MdEvent::TableStart),
        Event::Start(Tag::TableHead) => Some(MdEvent::TableHeadStart),
        Event::Start(Tag::TableRow) => Some(MdEvent::TableRowStart),
        Event::Start(Tag::TableCell) => Some(MdEvent::TableCellStart),
        Event::Start(Tag::Emphasis) => Some(MdEvent::EmphasisStart),
        Event::Start(Tag::Strong) => Some(MdEvent::StrongStart),
        Event::Start(Tag::Link { dest_url, .. }) => Some(MdEvent::LinkStart(dest_url.chars().collect())),
        Event::Start(Tag::Image { dest_url, .. }) => Some(MdEvent::ImageStart(dest_url.chars().collect())),
        _ => None,
    }
}

/// Relies on the shape of `pulldown_cmark::TagEnd`: carries each block-level
/// close over.
#[verifier::external_body]
fn convert_block_end(e: &pulldown_cmark::Event) -> (r: Option<MdEvent>) {
    match e {
        Event::End(TagEnd::Paragraph) => Some(MdEvent::ParagraphEnd),
        Event::End(TagEnd::Heading(_)) => Some(MdEvent::HeadingEnd),
        Event::End(TagEnd::BlockQuote(_)) => Some(MdEvent::BlockQuoteEnd),
        Event::End(TagEnd::CodeBlock) => Some(MdEvent::CodeBlockEnd),
        Event::End(TagEnd::List(_)) => Some(MdEvent::ListEnd),
        Event::End(TagEnd::Item) => Some(MdEvent::ItemEnd),
        _ => None,
    }
}

/// Relies on the shape of `pulldown_cmark::TagEnd`: carries each table and
/// inline-span close over.
#[verifier::external_body]
fn convert_span_end(e: &pulldown_cmark::Event) -> (r: Option<MdEvent>) {
    match e {
        Event::End(TagEnd::Table) => Some(MdEvent::TableEnd),
        Event::End(TagEnd::TableHead) => Some(MdEvent::TableHeadEnd),
        Event::End(TagEnd::TableRow) => Some(MdEvent::TableRowEnd),
        Event::End(TagEnd::TableCell) => Some(MdEvent::TableCellEnd),
        Event::End(TagEnd::Emphasis) => Some(MdEvent::EmphasisEnd),
        Event::End(TagEnd::Strong) => Some(MdEvent::StrongEnd),
        Event::End(TagEnd::Link) => Some(MdEvent::LinkEnd),
        Event::End(TagEnd::Image) => Some(MdEvent::ImageEnd),
        _ => None,
    }
}

/// Relies on the shape of `pulldown_cmark::Event`: one event of the crate's
/// model per parser event, or none for the constructs the compiler ignores.
#[verifier::external_body]
fn convert_event(e: &pulldown_cmark::Event) -> (r: Option<MdEvent>) {
    if let Some(m) = convert_leaf(e) {
        return Some(m);
    }
    if let Some(m) = convert_block_start(e) {
        return Some(m);
    }
    if let Some(m) = convert_span_start(e) {
        return Some(m);
    }
    if let Some(m) = convert_block_end(e) {
        return Some(m);
    }
    convert_span_end(e)
}

/// Relies on `pulldown_cmark::Parser::new_ext`: parses a markdown text into
/// its flat event sequence, with tables and strikethrough enabled; the result
/// is a function of the text alone. Every heading open carries a level
/// between 1 and 6: `pulldown_cmark::HeadingLevel` has exactly the variants
/// `H1` to `H6`, with those discriminants.
#[verifier::external_body]
pub fn parse_events(text: &Vec<char>) -> (r: Vec<MdEvent>)
    ensures
        r.deep_view() == events_of(text@),
        forall|i: int|
            0 <= i < r.deep_view().len() ==> heading_level_bounded(#[trigger] r.deep_view()[i]),
{
    let s: String = text.iter().collect();
    let opts = pulldown_cmark::Options::ENABLE_TABLES | pulldown_cmark::Options::ENABLE_STRIKETHROUGH;
    let mut out: Vec<MdEvent> = Vec::new();
    for e in pulldown_cmark::Parser::new_ext(&s, opts) {
        if let Some(m) = convert_event(&e) {
            out.push(m);
        }
    }
    out
}

} // verus!
