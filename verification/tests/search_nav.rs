//! Tests for the search index, the circular cursor, and document loading.

use mdzen::image::ImageEntry;
use mdzen::search::search;
use mdzen::session::ReaderSession;

fn chars(s: &str) -> Vec<char> {
    s.chars().collect()
}

#[test]
fn case_insensitive_query_finds_match_offsets() {
    let mut s = ReaderSession::new();
    s.load_document(chars("Hello World"));
    s.set_search_query(chars("wor"), false);
    s.perform_search();
    assert_eq!(s.search_results.len(), 1);
    let r = &s.search_results[0];
    assert_eq!(r.line_number, 0);
    assert_eq!(r.line_content, chars("Hello World"));
    assert_eq!(r.match_start, 6);
    assert_eq!(r.match_end, 9);
    let slice: String = r.line_content[r.match_start..r.match_end].iter().collect();
    assert_eq!(slice.to_lowercase(), "wor");
}

#[test]
fn uppercase_query_matches_lowercase_text() {
    let results = search(&chars("world"), &chars("WOR"), false);
    assert_eq!(results.len(), 1);
    assert_eq!(results[0].match_start, 0);
}

#[test]
fn case_sensitive_mode_respects_case() {
    assert!(search(&chars("world"), &chars("Wor"), true).is_empty());
    assert_eq!(search(&chars("World"), &chars("Wor"), true).len(), 1);
}

#[test]
fn empty_query_yields_no_results() {
    assert!(search(&chars("anything at all"), &chars(""), false).is_empty());
}

#[test]
fn matches_do_not_overlap() {
    // Scanning resumes at the end of a match, so "aa" occurs once in "aaa".
    let results = search(&chars("aaa"), &chars("aa"), false);
    assert_eq!(results.len(), 1);
    assert_eq!(results[0].match_start, 0);
    assert_eq!(results[0].match_end, 2);
}

#[test]
fn results_come_in_line_then_offset_order() {
    let results = search(&chars("b\na b\n\nab"), &chars("b"), false);
    assert_eq!(results.len(), 3);
    assert_eq!((results[0].line_number, results[0].match_start), (0, 0));
    assert_eq!((results[1].line_number, results[1].match_start), (1, 2));
    assert_eq!((results[2].line_number, results[2].match_start), (3, 1));
}

#[test]
fn queries_never_match_across_line_boundaries() {
    assert!(search(&chars("ab\ncd"), &chars("bc"), false).is_empty());
}

#[test]
fn carriage_return_is_stripped_from_line_content() {
    let results = search(&chars("abc\r\ndef"), &chars("abc"), false);
    assert_eq!(results.len(), 1);
    assert_eq!(results[0].line_content, chars("abc"));
}

#[test]
fn navigation_on_empty_results_is_a_no_op() {
    let mut s = ReaderSession::new();
    s.load_document(chars("some text"));
    s.set_search_query(chars("zzz"), false);
    s.perform_search();
    assert!(s.search_results.is_empty());
    assert_eq!(s.current_search_index, 0);
    s.next_search_result();
    assert_eq!(s.current_search_index, 0);
    s.previous_search_result();
    assert_eq!(s.current_search_index, 0);
}

#[test]
fn navigation_wraps_both_ways() {
    let mut s = ReaderSession::new();
    s.load_document(chars("a a a"));
    s.set_search_query(chars("a"), false);
    s.perform_search();
    assert_eq!(s.search_results.len(), 3);
    assert_eq!(s.current_search_index, 0);
    s.next_search_result();
    assert_eq!(s.current_search_index, 1);
    s.next_search_result();
    assert_eq!(s.current_search_index, 2);
    s.next_search_result();
    assert_eq!(s.current_search_index, 0);
    s.previous_search_result();
    assert_eq!(s.current_search_index, 2);
    s.previous_search_result();
    assert_eq!(s.current_search_index, 1);
}

#[test]
fn loading_a_document_clears_derived_state() {
    let mut s = ReaderSession::new();
    s.load_document(chars("# One\n\nalpha alpha\n"));
    s.set_search_query(chars("alpha"), false);
    s.perform_search();
    s.next_search_result();
    s.record_image(chars("pic.png"), ImageEntry::Failed(chars("no such file")));
    assert!(s.cached_image(&chars("pic.png")).is_some());
    assert_eq!(s.search_results.len(), 2);
    assert_eq!(s.current_search_index, 1);
    assert_eq!(s.toc_headers.len(), 1);
    assert_eq!(s.toc_headers[0].title, chars("One"));

    s.load_document(chars("# Two\n\nbeta\n"));
    assert!(s.image_cache.is_empty());
    assert!(s.cached_image(&chars("pic.png")).is_none());
    assert!(s.search_results.is_empty());
    assert_eq!(s.current_search_index, 0);
    assert_eq!(s.toc_headers.len(), 1);
    assert_eq!(s.toc_headers[0].title, chars("Two"));
}

#[test]
fn scroll_target_is_consumed_on_exact_heading_match() {
    let mut s = ReaderSession::new();
    s.load_document(chars("# Alpha\n\ntext\n\n# Beta\n"));
    s.select_toc_entry(1);
    assert!(s.scroll_to_header.is_some());
    let (blocks, hit) = s.compile_document();
    assert_eq!(hit, Some(2));
    assert!(blocks.len() > 2);
    assert!(s.scroll_to_header.is_none());
    let (_, second_hit) = s.compile_document();
    assert_eq!(second_hit, None);
}

#[test]
fn scroll_target_matches_the_first_equal_heading() {
    let mut s = ReaderSession::new();
    s.load_document(chars("# Same\n\nx\n\n# Same\n"));
    assert_eq!(s.toc_headers.len(), 2);
    s.select_toc_entry(1);
    let (_, hit) = s.compile_document();
    assert_eq!(hit, Some(0));
}

#[test]
fn search_rebuild_preserves_and_clamps_the_cursor() {
    let mut s = ReaderSession::new();
    s.load_document(chars("a a a"));
    s.set_search_query(chars("a"), false);
    s.perform_search();
    assert_eq!(s.search_results.len(), 3);
    s.next_search_result();
    s.next_search_result();
    assert_eq!(s.current_search_index, 2);

    // Re-running the same search keeps the cursor where it was.
    s.perform_search();
    assert_eq!(s.current_search_index, 2);

    // A narrower query shrinks the results; the cursor clamps to the last.
    s.set_search_query(chars("a a"), false);
    s.perform_search();
    assert_eq!(s.search_results.len(), 1);
    assert_eq!(s.current_search_index, 0);

    // An empty rebuild clears the cursor.
    s.set_search_query(chars("zzz"), false);
    s.perform_search();
    assert!(s.search_results.is_empty());
    assert_eq!(s.current_search_index, 0);
}
