//! Tests of the line-level heuristics: numbering levels, cleaning,
//! exclusion, context checks and font-style classification.

use pdf_outline::exclude::is_excluded_text;
use pdf_outline::fontclass::{analyze_font_style, classify_heading, is_good_heading_candidate};
use pdf_outline::heading::{
    analyze_potential_heading, clean_heading_text, determine_heading_level_by_content,
    determine_numbered_level, has_following_content, has_meaningful_words, is_line_isolated,
};
use pdf_outline::model::Level;
use pdf_outline::text::chars_of;

fn lines_of(ls: &[&str]) -> Vec<Vec<char>> {
    ls.iter().map(|l| chars_of(l)).collect()
}

#[test]
fn numbered_level_depths() {
    assert_eq!(determine_numbered_level("9 Introduction"), Level::H1);
    assert_eq!(determine_numbered_level("9.1 Scope"), Level::H2);
    assert_eq!(determine_numbered_level("9.1.1 Detail"), Level::H3);
    assert_eq!(determine_numbered_level("9.1.1.1 Note"), Level::H4);
    assert_eq!(determine_numbered_level("9. Introduction"), Level::H1);
}

#[test]
fn cleaning_strips_leaders_and_colons() {
    assert_eq!(clean_heading_text("Introduction .......... 5"), "Introduction");
    assert_eq!(clean_heading_text("Overview:"), "Overview");
}

#[test]
fn cleaning_strips_page_numbers_and_collapses() {
    assert_eq!(clean_heading_text("Background   12"), "Background");
    assert_eq!(clean_heading_text("  Spaced   out   text  "), "Spaced out text");
    assert_eq!(clean_heading_text("Scope 5:"), "Scope");
    assert_eq!(clean_heading_text("Results 1234"), "Results 1234");
}

#[test]
fn exclusion_examples() {
    assert!(is_excluded_text("see www.example.com for details"));
    assert!(!is_excluded_text("Implementation Strategy"));
}

#[test]
fn exclusion_reasons() {
    assert!(is_excluded_text("ab"));
    assert!(is_excluded_text("Copyright 2020 Example Corp"));
    assert!(is_excluded_text("$100 for 20 units"));
    assert!(is_excluded_text("1 2 3 4 5 6 7 8"));
    assert!(is_excluded_text("This section covers the following"));
    assert!(is_excluded_text("Reaching for the"));
    assert!(is_excluded_text("introduction without capital"));
    assert!(is_excluded_text("Page 4"));
    assert!(!is_excluded_text("(a) Special Provisions Here"));
    assert!(!is_excluded_text("Risk Management Approach"));
}

#[test]
fn isolation_and_following_content() {
    let ls = lines_of(&["First Heading", "body text", "Last Line"]);
    assert!(!is_line_isolated(1, &ls));
    let single = lines_of(&["ONLY LINE HERE"]);
    assert!(is_line_isolated(0, &single));
    let ctx = lines_of(&[
        "Heading Line:",
        "a continuation sentence that is quite long indeed",
    ]);
    assert!(has_following_content(0, &ctx));
    assert!(!has_following_content(1, &ctx));
}

#[test]
fn meaningful_words() {
    let good = lines_of(&["Implementation", "Strategy"]);
    assert!(has_meaningful_words(&good));
    let bad = lines_of(&["The", "And", "For"]);
    assert!(!has_meaningful_words(&bad));
}

#[test]
fn level_by_content_keywords() {
    assert_eq!(determine_heading_level_by_content("Project Background"), Level::H1);
    assert_eq!(determine_heading_level_by_content("Key Objectives"), Level::H2);
    assert_eq!(determine_heading_level_by_content("Miscellaneous Notes"), Level::H2);
}

#[test]
fn analyze_numbered_and_section_rules() {
    let ctx = vec!["1. Introduction".to_string(), "1.1 Background".to_string()];
    let h = analyze_potential_heading("1. Introduction", 0, &ctx, 2).unwrap();
    assert_eq!(h.level, Level::H1);
    assert_eq!(h.text, "1. Introduction");
    assert_eq!(h.page, 2);
    let h2 = analyze_potential_heading(
        "Chapter 2 Planning and Delivery",
        0,
        &vec!["Chapter 2 Planning and Delivery".to_string()],
        3,
    )
    .unwrap();
    assert_eq!(h2.level, Level::H1);
    let h3 = analyze_potential_heading(
        "Appendix B Supporting Material",
        0,
        &vec!["Appendix B Supporting Material".to_string()],
        9,
    )
    .unwrap();
    assert_eq!(h3.level, Level::H1);
}

#[test]
fn analyze_alpha_and_roman_enumerators() {
    let ctx = vec!["A. Background Material".to_string()];
    let h = analyze_potential_heading("A. Background Material", 0, &ctx, 1).unwrap();
    assert_eq!(h.level, Level::H1);
    let ctx2 = vec!["IV. Scope Statement".to_string()];
    let h2 = analyze_potential_heading("IV. Scope Statement", 0, &ctx2, 1).unwrap();
    assert_eq!(h2.level, Level::H1);
}

#[test]
fn analyze_all_caps_needs_isolation() {
    let alone = vec!["PROJECT CHARTER".to_string()];
    let h = analyze_potential_heading("PROJECT CHARTER", 0, &alone, 1).unwrap();
    assert_eq!(h.level, Level::H1);
    assert_eq!(h.text, "PROJECT CHARTER");
    let crowded = vec![
        "PROJECT CHARTER".to_string(),
        "Some Neighbour Line Follows".to_string(),
    ];
    assert!(analyze_potential_heading("PROJECT CHARTER", 0, &crowded, 1).is_none());
}

#[test]
fn analyze_colon_rule() {
    let ctx = vec![
        "Delivery Milestones:".to_string(),
        "each milestone is listed with its planned completion date".to_string(),
    ];
    let h = analyze_potential_heading("Delivery Milestones:", 0, &ctx, 4).unwrap();
    assert_eq!(h.level, Level::H2);
    assert_eq!(h.text, "Delivery Milestones");
}

#[test]
fn analyze_title_case_rule() {
    let ctx = vec!["Project Background Summary".to_string()];
    let h = analyze_potential_heading("Project Background Summary", 0, &ctx, 5).unwrap();
    assert_eq!(h.level, Level::H1);
    let ctx2 = vec!["Quality Gates Checklist".to_string()];
    let h2 = analyze_potential_heading("Quality Gates Checklist", 0, &ctx2, 5).unwrap();
    assert_eq!(h2.level, Level::H2);
}

#[test]
fn analyze_rejects_excluded_and_short() {
    let ctx = vec!["x".to_string()];
    assert!(analyze_potential_heading("x", 0, &ctx, 1).is_none());
    let ctx2 = vec!["see www.example.com for details".to_string()];
    assert!(analyze_potential_heading("see www.example.com for details", 0, &ctx2, 1).is_none());
}

#[test]
fn font_style_from_name() {
    assert_eq!(analyze_font_style("Arial-BoldMT"), (true, false));
    assert_eq!(analyze_font_style("Times-Italic"), (false, true));
    assert_eq!(analyze_font_style("Helvetica-BlackOblique"), (true, true));
    assert_eq!(analyze_font_style("Courier"), (false, false));
}

#[test]
fn classify_by_size_and_style() {
    assert_eq!(classify_heading(1800, false, false), (Some(Level::H1), 90));
    assert_eq!(classify_heading(1400, false, false), (Some(Level::H2), 80));
    assert_eq!(classify_heading(1100, false, false), (Some(Level::H3), 60));
    assert_eq!(classify_heading(900, false, false), (None, 10));
    assert_eq!(classify_heading(1800, true, true), (Some(Level::H1), 100));
    assert_eq!(classify_heading(1100, false, true), (Some(Level::H3), 65));
    assert_eq!(classify_heading(1500, false, false), (Some(Level::H2), 80));
    assert_eq!(classify_heading(1501, false, false), (Some(Level::H1), 90));
}

#[test]
fn good_candidate_checks() {
    assert!(is_good_heading_candidate("Implementation Plan"));
    assert!(!is_good_heading_candidate("abc"));
    assert!(!is_good_heading_candidate("it is expected that all forms arrive"));
    assert!(!is_good_heading_candidate("lowercase start"));
    assert!(!is_good_heading_candidate(
        "1 very long numbered item with far too many words inside"
    ));
}
