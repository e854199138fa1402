//! Tests of the hierarchy assembler, the title selector and the
//! plain-text pipeline.

use pdf_outline::hierarchy::establish_hierarchy;
use pdf_outline::model::{Heading, Level};
use pdf_outline::pipeline::{outline_from_text, try_plain_pipeline};
use pdf_outline::title::extract_document_title;

fn h(level: Level, text: &str, page: usize) -> Heading {
    Heading { level, text: text.to_string(), page }
}

#[test]
fn hierarchy_removes_near_duplicates() {
    let input = vec![
        h(Level::H1, "1. Introduction", 2),
        h(Level::H2, "Introduction 5", 4),
        h(Level::H2, "Intro", 1),
        h(Level::H2, "Intro", 3),
    ];
    let out = establish_hierarchy(input);
    // "Introduction 5" normalizes like "1. Introduction" and is dropped;
    // "Intro" normalizes to five characters and is too short to dedupe
    assert_eq!(out.len(), 3);
    assert_eq!(out[0].text, "Intro");
    assert_eq!(out[0].page, 1);
    assert_eq!(out[1].text, "1. Introduction");
    assert_eq!(out[1].page, 2);
    assert_eq!(out[2].text, "Intro");
    assert_eq!(out[2].page, 3);
}

#[test]
fn hierarchy_sorts_stably_by_page() {
    let input = vec![
        h(Level::H1, "Second Page Alpha", 2),
        h(Level::H2, "First Page Entry", 1),
        h(Level::H3, "Second Page Beta", 2),
    ];
    let out = establish_hierarchy(input);
    assert_eq!(out.len(), 3);
    assert_eq!(out[0].text, "First Page Entry");
    assert_eq!(out[1].text, "Second Page Alpha");
    assert_eq!(out[2].text, "Second Page Beta");
    for w in out.windows(2) {
        assert!(w[0].page <= w[1].page);
    }
}

#[test]
fn title_selector_scores_and_falls_back() {
    let lines = vec![
        "it is tiny one.".to_string(),
        "Methodology Guide for Engineers".to_string(),
    ];
    assert_eq!(
        extract_document_title(&lines, ""),
        Some("Methodology Guide for Engineers".to_string())
    );
    let fallback_only = vec!["You will find this.".to_string()];
    assert_eq!(
        extract_document_title(&fallback_only, ""),
        Some("You will find this.".to_string())
    );
    let nothing = vec!["it is tiny one.".to_string()];
    assert_eq!(extract_document_title(&nothing, ""), None);
    assert_eq!(extract_document_title(&Vec::new(), ""), None);
}

#[test]
fn two_page_document_outline() {
    let text = "PROJECT CHARTER\n\n\u{c}\n1. Introduction\n1.1 Background\n";
    let outline = outline_from_text(text, &None);
    assert_eq!(outline.title, "PROJECT CHARTER");
    // the chosen title line is not repeated as a heading
    assert_eq!(outline.outline.len(), 2);
    assert_eq!(outline.outline[0].level, Level::H1);
    assert_eq!(outline.outline[0].text, "1. Introduction");
    assert_eq!(outline.outline[0].page, 2);
    assert_eq!(outline.outline[1].level, Level::H2);
    assert_eq!(outline.outline[1].text, "1.1 Background");
    assert_eq!(outline.outline[1].page, 2);
}

#[test]
fn extraction_is_idempotent() {
    let text = "PROJECT CHARTER\n\n\u{c}\n1. Introduction\n1.1 Background\n\u{c}2 Delivery Plan\n";
    let first = outline_from_text(text, &None);
    let second = outline_from_text(text, &None);
    assert_eq!(first.title, second.title);
    assert_eq!(first.outline, second.outline);
}

#[test]
fn triple_newline_page_split() {
    let text = "OPERATIONS HANDBOOK\n\n\n2. Delivery Schedule\nbody line\n";
    let outline = outline_from_text(text, &None);
    assert_eq!(outline.title, "OPERATIONS HANDBOOK");
    assert_eq!(outline.outline.len(), 1);
    assert_eq!(outline.outline[0].text, "2. Delivery Schedule");
    assert_eq!(outline.outline[0].page, 2);
}

#[test]
fn stem_and_placeholder_titles() {
    let text = "it is tiny one.\n";
    let with_stem = outline_from_text(text, &Some("quarterly_report".to_string()));
    assert_eq!(with_stem.title, "quarterly_report");
    let without = outline_from_text(text, &None);
    assert_eq!(without.title, "Untitled Document");
    assert_eq!(without.outline.len(), 0);
}

#[test]
fn duplicate_lines_collected_once() {
    let text = "Operations Manual Overview\n3. Safety Rules\nfiller body here\n3. Safety Rules\n";
    let outline = outline_from_text(text, &None);
    assert_eq!(outline.title, "Operations Manual Overview");
    let count = outline
        .outline
        .iter()
        .filter(|e| e.text == "3. Safety Rules")
        .count();
    assert_eq!(count, 1);
}

#[test]
fn plain_pipeline_signals_fallback() {
    // blank text asks for the font-metric fallback
    assert!(try_plain_pipeline("   \n  ", &None).is_none());
    // text without headings asks for the fallback too
    assert!(try_plain_pipeline("it is tiny one.\n", &None).is_none());
    // text with a heading is accepted, with the full outline
    let text = "PROJECT CHARTER\n\n\u{c}\n1. Introduction\n";
    let accepted = try_plain_pipeline(text, &None).unwrap();
    let direct = outline_from_text(text, &None);
    assert_eq!(accepted.title, direct.title);
    assert_eq!(accepted.outline, direct.outline);
    assert_eq!(accepted.outline.len(), 1);
}
