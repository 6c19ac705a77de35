//! Tests for the styled-run builder and its search-highlight splitting.

use mdzen::runs::{build_runs, heading_runs};

fn chars(s: &str) -> Vec<char> {
    s.chars().collect()
}

fn concat(runs: &[mdzen::runs::StyledRun]) -> Vec<char> {
    let mut out = Vec::new();
    for r in runs {
        out.extend(r.text.iter().copied());
    }
    out
}

#[test]
fn split_is_lossless_and_alternates_highlights() {
    let text = chars("xAbcAx");
    let runs = build_runs(&text, false, false, false, false, &chars("a"), false);
    assert_eq!(runs.len(), 5);
    assert_eq!(runs[0].text, chars("x"));
    assert!(!runs[0].style.highlight);
    assert_eq!(runs[1].text, chars("A"));
    assert!(runs[1].style.highlight);
    assert_eq!(runs[2].text, chars("bc"));
    assert_eq!(runs[3].text, chars("A"));
    assert!(runs[3].style.highlight);
    assert_eq!(runs[4].text, chars("x"));
    assert_eq!(concat(&runs), text);
}

#[test]
fn no_query_gives_one_run_with_base_style() {
    let runs = build_runs(&chars("plain"), true, true, false, false, &chars(""), false);
    assert_eq!(runs.len(), 1);
    assert_eq!(runs[0].text, chars("plain"));
    assert!(runs[0].style.strong);
    assert!(runs[0].style.emphasis);
    assert!(!runs[0].style.highlight);
}

#[test]
fn base_style_is_kept_on_highlighted_runs() {
    let runs = build_runs(&chars("go go"), false, false, true, false, &chars("go"), false);
    assert_eq!(runs.len(), 3);
    assert!(runs[0].style.link && runs[0].style.highlight);
    assert_eq!(runs[1].text, chars(" "));
    assert!(runs[1].style.link && !runs[1].style.highlight);
    assert!(runs[2].style.link && runs[2].style.highlight);
    assert_eq!(concat(&runs), chars("go go"));
}

#[test]
fn inline_code_runs_carry_the_code_style() {
    let runs = build_runs(&chars("let x"), false, false, false, true, &chars("x"), false);
    assert_eq!(runs.len(), 2);
    assert!(runs[0].style.code && !runs[0].style.highlight);
    assert!(runs[1].style.code && runs[1].style.highlight);
}

#[test]
fn match_at_fragment_start_and_end() {
    let runs = build_runs(&chars("abca"), false, false, false, false, &chars("a"), false);
    assert_eq!(runs.len(), 3);
    assert!(runs[0].style.highlight);
    assert_eq!(runs[1].text, chars("bc"));
    assert!(runs[2].style.highlight);
}

#[test]
fn whole_fragment_can_be_one_match() {
    let runs = build_runs(&chars("word"), false, false, false, false, &chars("word"), false);
    assert_eq!(runs.len(), 1);
    assert!(runs[0].style.highlight);
}

#[test]
fn empty_fragment_with_query_gives_no_runs() {
    let runs = build_runs(&chars(""), false, false, false, false, &chars("q"), false);
    assert!(runs.is_empty());
}

#[test]
fn heading_runs_highlight_the_query() {
    let runs = heading_runs(&chars("My Title"), &chars("tit"), false);
    assert_eq!(runs.len(), 3);
    assert_eq!(runs[0].text, chars("My "));
    assert_eq!(runs[1].text, chars("Tit"));
    assert!(runs[1].style.highlight);
    assert_eq!(runs[2].text, chars("le"));
    assert_eq!(concat(&runs), chars("My Title"));
}

#[test]
fn case_sensitive_split_skips_other_case() {
    let runs = build_runs(&chars("aA"), false, false, false, false, &chars("a"), true);
    assert_eq!(runs.len(), 2);
    assert!(runs[0].style.highlight);
    assert!(!runs[1].style.highlight);
    assert_eq!(runs[1].text, chars("A"));
}
