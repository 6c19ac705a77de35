//! Tests for the image resolver's verified side and the list and table
//! layout rules.

use mdzen::block::{list_layout, table_layout, ListEntry, ListLabel};
use mdzen::image::{image_placeholder, is_remote, local_target, ImageCache, ImageEntry};
use mdzen::text::trim_chars;

fn chars(s: &str) -> Vec<char> {
    s.chars().collect()
}

#[test]
fn remote_references_are_recognized_by_scheme() {
    assert!(is_remote(&chars("http://host/a.png")));
    assert!(is_remote(&chars("https://host/a.png")));
    assert!(!is_remote(&chars("images/a.png")));
    assert!(!is_remote(&chars("ftp://host/a.png")));
    assert!(!is_remote(&chars("")));
}

#[test]
fn local_references_resolve_against_the_document_directory() {
    assert_eq!(
        local_target(&chars("img/cat.png"), &Some(chars("/docs"))),
        chars("/docs/img/cat.png")
    );
    assert_eq!(local_target(&chars("/abs.png"), &Some(chars("/docs"))), chars("/abs.png"));
    assert_eq!(local_target(&chars("img/cat.png"), &None), chars("img/cat.png"));
}

#[test]
fn cache_records_and_returns_outcomes() {
    let mut cache = ImageCache::new();
    assert!(cache.is_empty());
    assert!(cache.get(&chars("a.png")).is_none());
    cache.insert(chars("a.png"), ImageEntry::Ready(7));
    cache.insert(chars("b.png"), ImageEntry::Failed(chars("decode error")));
    assert_eq!(cache.get(&chars("a.png")), Some(&ImageEntry::Ready(7)));
    assert_eq!(
        cache.get(&chars("b.png")),
        Some(&ImageEntry::Failed(chars("decode error")))
    );
    assert!(cache.get(&chars("c.png")).is_none());
    cache.clear();
    assert!(cache.is_empty());
    assert!(cache.get(&chars("a.png")).is_none());
}

#[test]
fn placeholder_carries_the_literal_reference() {
    let p = image_placeholder(&chars("img/cat.png"), &chars(""));
    assert_eq!(p.caption, chars("Image: img/cat.png"));
    assert_eq!(p.reference, chars("img/cat.png"));

    let q = image_placeholder(&chars("img/cat.png"), &chars("a cat"));
    assert_eq!(q.caption, chars("Image: a cat"));
    assert_eq!(q.reference, chars("img/cat.png"));
}

#[test]
fn ordered_lists_get_one_based_ordinals_within_the_frame() {
    // Ordinals count within the item's own frame, not globally: a nested
    // frame starts a fresh count, and leaving it resumes the outer count.
    let items = vec![
        ListEntry { text: chars(" first "), level: 0 },
        ListEntry { text: chars("inner one"), level: 1 },
        ListEntry { text: chars("inner two"), level: 1 },
        ListEntry { text: chars("second"), level: 0 },
    ];
    let lines = list_layout(true, &items);
    assert_eq!(lines.len(), 4);
    assert_eq!(lines[0].label, ListLabel::Ordinal(1));
    assert_eq!(lines[0].indent, 0);
    assert_eq!(lines[0].text, chars("first"));
    assert_eq!(lines[1].label, ListLabel::Ordinal(1));
    assert_eq!(lines[1].indent, 1);
    assert_eq!(lines[2].label, ListLabel::Ordinal(2));
    assert_eq!(lines[3].label, ListLabel::Ordinal(2));
    assert_eq!(lines[3].indent, 0);

    let bullets = list_layout(false, &items);
    assert_eq!(bullets[2].label, ListLabel::Bullet);
}

#[test]
fn short_and_long_rows_are_never_rejected() {
    let headers = vec![chars(" h1 "), chars("h2")];
    let rows = vec![vec![chars("only")], vec![chars("a"), chars("b"), chars(" c ")]];
    let t = table_layout(&headers, &rows);
    assert_eq!(t.columns, 3);
    assert_eq!(t.header_cells, vec![chars("h1"), chars("h2")]);
    assert_eq!(t.row_cells[0], vec![chars("only"), chars("")]);
    assert_eq!(t.row_cells[1], vec![chars("a"), chars("b"), chars("c")]);
}

#[test]
fn trimming_removes_unicode_whitespace() {
    assert_eq!(trim_chars(&chars("  a b\t\n")), chars("a b"));
    assert_eq!(trim_chars(&chars("\u{a0}x\u{a0}")), chars("x"));
    assert_eq!(trim_chars(&chars("   ")), chars(""));
    assert_eq!(trim_chars(&chars("")), chars(""));
}
