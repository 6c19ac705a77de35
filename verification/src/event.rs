//! The flat event model the compiler consumes.
//!
//! An event source produces an ordered sequence of these events from raw
//! markdown text: open/close pairs for block-level containers and inline
//! spans, plus leaf events for text, inline code, breaks, and rules. Every
//! open is balanced by a matching close, in document order.

use vstd::prelude::*;

verus! {

/// One markdown parse event.
#[derive(Clone, PartialEq, Eq, Debug)]
pub enum MdEvent {
    /// A paragraph opens.
    ParagraphStart,
    /// A paragraph closes.
    ParagraphEnd,
    /// A heading of the given level (1 to 6) opens.
    HeadingStart(u8),
    /// A heading closes.
    HeadingEnd,
    /// A blockquote opens.
    BlockQuoteStart,
    /// A blockquote closes.
    BlockQuoteEnd,
    /// A code block opens, with its fenced language tag (empty when indented).
    CodeBlockStart(Vec<char>),
    /// A code block closes.
    CodeBlockEnd,
    /// A list opens; `true` for an ordered list.
    ListStart(bool),
    /// A list closes.
    ListEnd,
    /// A list item opens.
    ItemStart,
    /// A list item closes.
    ItemEnd,
    /// A table opens.
    TableStart,
    /// A table closes.
    TableEnd,
    /// The table header row opens.
    TableHeadStart,
    /// The table header row closes.
    TableHeadEnd,
    /// A table body row opens.
    TableRowStart,
    /// A table body row closes.
    TableRowEnd,
    /// A table cell opens.
    TableCellStart,
    /// A table cell closes.
    TableCellEnd,
    /// Emphasized text opens.
    EmphasisStart,
    /// Emphasized text closes.
    EmphasisEnd,
    /// Strong text opens.
    StrongStart,
    /// Strong text closes.
    StrongEnd,
    /// A link with the given destination opens.
    LinkStart(Vec<char>),
    /// A link closes.
    LinkEnd,
    /// An image with the given reference opens; the alt text follows as text.
    ImageStart(Vec<char>),
    /// An image closes.
    ImageEnd,
    /// A text fragment.
    Text(Vec<char>),
    /// An inline code span.
    InlineCode(Vec<char>),
    /// A soft line break.
    SoftBreak,
    /// A hard line break.
    HardBreak,
    /// A thematic break (horizontal rule).
    Rule,
}

/// The mathematical value of one event.
#[verifier::ext_equal]
pub enum EventV {
    /// A paragraph opens.
    ParagraphStart,
    /// A paragraph closes.
    ParagraphEnd,
    /// A heading of the given level opens.
    HeadingStart(u8),
    /// A heading closes.
    HeadingEnd,
    /// A blockquote opens.
    BlockQuoteStart,
    /// A blockquote closes.
    BlockQuoteEnd,
    /// A code block opens with its language tag.
    CodeBlockStart(Seq<char>),
    /// A code block closes.
    CodeBlockEnd,
    /// A list opens; `true` for an ordered list.
    ListStart(bool),
    /// A list closes.
    ListEnd,
    /// A list item opens.
    ItemStart,
    /// A list item closes.
    ItemEnd,
    /// A table opens.
    TableStart,
    /// A table closes.
    TableEnd,
    /// The table header row opens.
    TableHeadStart,
    /// The table header row closes.
    TableHeadEnd,
    /// A table body row opens.
    TableRowStart,
    /// A table body row closes.
    TableRowEnd,
    /// A table cell opens.
    TableCellStart,
    /// A table cell closes.
    TableCellEnd,
    /// Emphasized text opens.
    EmphasisStart,
    /// Emphasized text closes.
    EmphasisEnd,
    /// Strong text opens.
    StrongStart,
    /// Strong text closes.
    StrongEnd,
    /// A link with the given destination opens.
    LinkStart(Seq<char>),
    /// A link closes.
    LinkEnd,
    /// An image with the given reference opens.
    ImageStart(Seq<char>),
    /// An image closes.
    ImageEnd,
    /// A text fragment.
    Text(Seq<char>),
    /// An inline code span.
    InlineCode(Seq<char>),
    /// A soft line break.
    SoftBreak,
    /// A hard line break.
    HardBreak,
    /// A thematic break (horizontal rule).
    Rule,
}

/// A heading open carries a level between 1 and 6; every other event is
/// unconstrained.
pub open spec fn heading_level_bounded(ev: EventV) -> bool {
    match ev {
        EventV::HeadingStart(level) => 1 <= level <= 6,
        _ => true,
    }
}

impl DeepView for MdEvent {
    type V = EventV;

    open spec fn deep_view(&self) -> EventV {
        match self {
            MdEvent::ParagraphStart => EventV::ParagraphStart,
            MdEvent::ParagraphEnd => EventV::ParagraphEnd,
            MdEvent::HeadingStart(l) => EventV::HeadingStart(*l),
            MdEvent::HeadingEnd => EventV::HeadingEnd,
            MdEvent::BlockQuoteStart => EventV::BlockQuoteStart,
            MdEvent::BlockQuoteEnd => EventV::BlockQuoteEnd,
            MdEvent::CodeBlockStart(lang) => EventV::CodeBlockStart(lang@),
            MdEvent::CodeBlockEnd => EventV::CodeBlockEnd,
            MdEvent::ListStart(ordered) => EventV::ListStart(*ordered),
            MdEvent::ListEnd => EventV::ListEnd,
            MdEvent::ItemStart => EventV::ItemStart,
            MdEvent::ItemEnd => EventV::ItemEnd,
            MdEvent::TableStart => EventV::TableStart,
            MdEvent::TableEnd => EventV::TableEnd,
            MdEvent::TableHeadStart => EventV::TableHeadStart,
            MdEvent::TableHeadEnd => EventV::TableHeadEnd,
            MdEvent::TableRowStart => EventV::TableRowStart,
            MdEvent::TableRowEnd => EventV::TableRowEnd,
            MdEvent::TableCellStart => EventV::TableCellStart,
            MdEvent::TableCellEnd => EventV::TableCellEnd,
            MdEvent::EmphasisStart => EventV::EmphasisStart,
            MdEvent::EmphasisEnd => EventV::EmphasisEnd,
            MdEvent::StrongStart => EventV::StrongStart,
            MdEvent::StrongEnd => EventV::StrongEnd,
            MdEvent::LinkStart(url) => EventV::LinkStart(url@),
            MdEvent::LinkEnd => EventV::LinkEnd,
            MdEvent::ImageStart(url) => EventV::ImageStart(url@),
            MdEvent::ImageEnd => EventV::ImageEnd,
            MdEvent::Text(t) => EventV::Text(t@),
            MdEvent::InlineCode(t) => EventV::InlineCode(t@),
            MdEvent::SoftBreak => EventV::SoftBreak,
            MdEvent::HardBreak => EventV::HardBreak,
            MdEvent::Rule => EventV::Rule,
        }
    }
}

} // verus!
