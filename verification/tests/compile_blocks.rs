//! Tests for the event compiler: block emission, routing, and determinism.

use mdzen::block::Block;
use mdzen::compile::compile_events;
use mdzen::event::MdEvent;
use mdzen::parse::parse_events;
use mdzen::toc::extract_toc;

fn chars(s: &str) -> Vec<char> {
    s.chars().collect()
}

#[test]
fn heading_paragraph_and_nested_list() {
    let text = chars("# Title\n\nHello **world**\n\n- a\n  - b\n");
    let events = parse_events(&text);
    let blocks = compile_events(&events, &chars(""), false);

    assert_eq!(blocks.len(), 3);
    match &blocks[0] {
        Block::Heading { level, text } => {
            assert_eq!(*level, 1);
            assert_eq!(text, &chars("Title"));
        }
        other => panic!("expected a heading, got {other:?}"),
    }
    match &blocks[1] {
        Block::Paragraph { runs, links } => {
            assert_eq!(runs.len(), 2);
            assert_eq!(runs[0].text, chars("Hello "));
            assert!(!runs[0].style.strong);
            assert_eq!(runs[1].text, chars("world"));
            assert!(runs[1].style.strong);
            assert!(links.is_empty());
        }
        other => panic!("expected a paragraph, got {other:?}"),
    }
    match &blocks[2] {
        Block::List { ordered, items } => {
            assert!(!*ordered);
            assert_eq!(items.len(), 2);
            assert_eq!(items[0].text, chars("a"));
            assert_eq!(items[0].level, 0);
            assert_eq!(items[1].text, chars("b"));
            assert_eq!(items[1].level, 1);
        }
        other => panic!("expected a list, got {other:?}"),
    }

    let toc = extract_toc(&events);
    assert_eq!(toc.len(), 1);
    assert_eq!(toc[0].level, 1);
    assert_eq!(toc[0].title, chars("Title"));
}

#[test]
fn same_document_compiles_identically() {
    let text = chars("# A\n\npara *x*\n\n```rust\nfn f() {}\n```\n\n---\n");
    let events = parse_events(&text);
    let first = compile_events(&events, &chars(""), false);
    let second = compile_events(&parse_events(&text), &chars(""), false);
    assert_eq!(first, second);
}

#[test]
fn code_block_keeps_content_and_language() {
    let text = chars("```rust\nlet x = 1;\n```\n");
    let blocks = compile_events(&parse_events(&text), &chars(""), false);
    assert_eq!(blocks.len(), 1);
    match &blocks[0] {
        Block::CodeBlock { content, language } => {
            assert_eq!(content, &chars("let x = 1;\n"));
            assert_eq!(language, &chars("rust"));
        }
        other => panic!("expected a code block, got {other:?}"),
    }
}

#[test]
fn blockquote_paragraph_becomes_blockquote_block() {
    let text = chars("> quoted words\n");
    let blocks = compile_events(&parse_events(&text), &chars(""), false);
    assert_eq!(blocks.len(), 1);
    match &blocks[0] {
        Block::BlockQuote { runs } => {
            assert_eq!(runs.len(), 1);
            assert_eq!(runs[0].text, chars("quoted words"));
        }
        other => panic!("expected a blockquote, got {other:?}"),
    }
}

#[test]
fn table_rows_are_collected() {
    let text = chars("| h1 | h2 |\n| --- | --- |\n| a | b |\n| c | d |\n");
    let blocks = compile_events(&parse_events(&text), &chars(""), false);
    assert_eq!(blocks.len(), 1);
    match &blocks[0] {
        Block::Table { headers, rows } => {
            assert_eq!(headers.len(), 2);
            let h0: String = headers[0].iter().collect();
            assert_eq!(h0.trim(), "h1");
            assert_eq!(rows.len(), 2);
            let c00: String = rows[0][0].iter().collect();
            assert_eq!(c00.trim(), "a");
            let c11: String = rows[1][1].iter().collect();
            assert_eq!(c11.trim(), "d");
        }
        other => panic!("expected a table, got {other:?}"),
    }
}

#[test]
fn rule_and_image_blocks() {
    let text = chars("![alt text](missing.png)\n\n---\n");
    let blocks = compile_events(&parse_events(&text), &chars(""), false);
    let mut saw_image = false;
    let mut saw_rule = false;
    for b in &blocks {
        match b {
            Block::Image { url, alt } => {
                assert_eq!(url, &chars("missing.png"));
                assert_eq!(alt, &chars("alt text"));
                saw_image = true;
            }
            Block::Rule => {
                saw_rule = true;
            }
            _ => {}
        }
    }
    assert!(saw_image);
    assert!(saw_rule);
}

#[test]
fn empty_paragraph_and_blank_heading_emit_nothing() {
    // A heading whose accumulated text trims to nothing emits no block,
    // and a paragraph without an inline content event emits none either.
    let events = vec![
        MdEvent::HeadingStart(2),
        MdEvent::Text(chars("   ")),
        MdEvent::HeadingEnd,
        MdEvent::ParagraphStart,
        MdEvent::ParagraphEnd,
    ];
    let blocks = compile_events(&events, &chars(""), false);
    assert!(blocks.is_empty());
    let toc = extract_toc(&events);
    assert!(toc.is_empty());
}

#[test]
fn heading_title_is_trimmed_and_breaks_count_lines() {
    let events = vec![
        MdEvent::SoftBreak,
        MdEvent::HardBreak,
        MdEvent::HeadingStart(3),
        MdEvent::Text(chars("  spaced  ")),
        MdEvent::HeadingEnd,
    ];
    let toc = extract_toc(&events);
    assert_eq!(toc.len(), 1);
    assert_eq!(toc[0].title, chars("spaced"));
    assert_eq!(toc[0].level, 3);
    assert_eq!(toc[0].line_number, 2);
}

#[test]
fn search_query_splits_paragraph_runs() {
    let text = chars("Hello world\n");
    let blocks = compile_events(&parse_events(&text), &chars("wor"), false);
    assert_eq!(blocks.len(), 1);
    match &blocks[0] {
        Block::Paragraph { runs, .. } => {
            assert_eq!(runs.len(), 3);
            assert_eq!(runs[0].text, chars("Hello "));
            assert!(!runs[0].style.highlight);
            assert_eq!(runs[1].text, chars("wor"));
            assert!(runs[1].style.highlight);
            assert_eq!(runs[2].text, chars("ld"));
            assert!(!runs[2].style.highlight);
        }
        other => panic!("expected a paragraph, got {other:?}"),
    }
}

#[test]
fn link_text_is_swallowed_until_more_text_follows() {
    // The first text inside a link routes to the alt-text buffer; only later
    // fragments reach the paragraph as link-styled runs.
    let text = chars("[anchor](https://example.com) tail\n");
    let blocks = compile_events(&parse_events(&text), &chars(""), false);
    assert_eq!(blocks.len(), 1);
    match &blocks[0] {
        Block::Paragraph { runs, links } => {
            assert_eq!(runs.len(), 1);
            assert_eq!(runs[0].text, chars(" tail"));
            assert!(links.is_empty());
        }
        other => panic!("expected a paragraph, got {other:?}"),
    }
}

#[test]
fn soft_break_becomes_a_space_and_hard_break_a_newline() {
    let events = vec![
        MdEvent::ParagraphStart,
        MdEvent::Text(chars("one")),
        MdEvent::SoftBreak,
        MdEvent::Text(chars("two")),
        MdEvent::HardBreak,
        MdEvent::Text(chars("three")),
        MdEvent::ParagraphEnd,
    ];
    let blocks = compile_events(&events, &chars(""), false);
    assert_eq!(blocks.len(), 1);
    match &blocks[0] {
        Block::Paragraph { runs, .. } => {
            let text: String = runs.iter().flat_map(|r| r.text.iter()).collect();
            assert_eq!(text, "one two\nthree");
        }
        other => panic!("expected a paragraph, got {other:?}"),
    }
}

#[test]
fn a_started_table_emits_a_block_even_with_no_rows() {
    let events = vec![MdEvent::TableStart, MdEvent::TableEnd];
    let blocks = compile_events(&events, &chars(""), false);
    assert_eq!(blocks.len(), 1);
    match &blocks[0] {
        Block::Table { headers, rows } => {
            assert!(headers.is_empty());
            assert!(rows.is_empty());
        }
        other => panic!("expected a table, got {other:?}"),
    }
}

#[test]
fn breaks_inside_a_code_block_change_nothing() {
    let events = vec![
        MdEvent::CodeBlockStart(chars("")),
        MdEvent::Text(chars("a\nb")),
        MdEvent::SoftBreak,
        MdEvent::HardBreak,
        MdEvent::CodeBlockEnd,
    ];
    let blocks = compile_events(&events, &chars(""), false);
    assert_eq!(blocks.len(), 1);
    match &blocks[0] {
        Block::CodeBlock { content, .. } => {
            assert_eq!(content, &chars("a\nb"));
        }
        other => panic!("expected a code block, got {other:?}"),
    }
}
