//! Tests of the text-run builder and the candidate extraction of the
//! font-metric path.

use pdf_outline::fontclass::{extract_heading_candidates, extract_runs, try_decode_text};
use pdf_outline::model::{Level, PdfObj, PdfOp, TextRun};

fn op(name: &str, operands: Vec<PdfObj>) -> PdfOp {
    PdfOp { operator: name.to_string(), operands }
}

fn run(text: &str, size: u32, page: usize, bold: bool) -> TextRun {
    TextRun {
        text: text.to_string(),
        size,
        page,
        font_name: "F".to_string(),
        is_bold: bold,
        is_italic: false,
    }
}

#[test]
fn decode_text_operand() {
    let t = try_decode_text(&PdfObj::Text(b"Hello".to_vec())).unwrap();
    assert_eq!(t, "Hello");
    assert!(try_decode_text(&PdfObj::Number(100)).is_none());
    assert!(try_decode_text(&PdfObj::Name(b"F1".to_vec())).is_none());
}

#[test]
fn run_builder_state_machine() {
    let page1 = vec![
        op(
            "Tf",
            vec![PdfObj::Name(b"F1".to_vec()), PdfObj::Number(2400)],
        ),
        op("Tj", vec![PdfObj::Text(b"Heading One".to_vec())]),
        op("Tj", vec![PdfObj::Text(b"   ".to_vec())]),
        op(
            "TJ",
            vec![PdfObj::Array(vec![
                PdfObj::Text(b"Hel".to_vec()),
                PdfObj::Number(120),
                PdfObj::Text(b"lo".to_vec()),
            ])],
        ),
        op("BT", vec![]),
    ];
    let page2 = vec![op("Tj", vec![PdfObj::Text(b"Second Page".to_vec())])];
    let runs = extract_runs(&vec![page1, page2]);
    assert_eq!(runs.len(), 3);
    assert_eq!(runs[0].text, "Heading One");
    assert_eq!(runs[0].size, 2400);
    assert_eq!(runs[0].page, 1);
    assert_eq!(runs[0].font_name, "F1");
    assert!(!runs[0].is_bold);
    assert_eq!(runs[1].text, "Hello");
    assert_eq!(runs[1].size, 2400);
    // the font state is reset at the start of each page
    assert_eq!(runs[2].text, "Second Page");
    assert_eq!(runs[2].size, 1200);
    assert_eq!(runs[2].page, 2);
    assert_eq!(runs[2].font_name, "");
}

#[test]
fn run_builder_font_style_and_malformed_ops() {
    let page = vec![
        op(
            "Tf",
            vec![
                PdfObj::Name(b"Arial-BoldMT".to_vec()),
                PdfObj::Number(1600),
            ],
        ),
        // a malformed font-setting operation leaves the state untouched
        op("Tf", vec![PdfObj::Name(b"Other".to_vec())]),
        // a non-numeric size operand leaves the size untouched
        op(
            "Tf",
            vec![PdfObj::Name(b"Times-Italic".to_vec()), PdfObj::Other],
        ),
        op("Tj", vec![PdfObj::Text(b"Styled Text".to_vec())]),
    ];
    let runs = extract_runs(&vec![page]);
    assert_eq!(runs.len(), 1);
    assert_eq!(runs[0].font_name, "Times-Italic");
    assert_eq!(runs[0].size, 1600);
    assert!(!runs[0].is_bold);
    assert!(runs[0].is_italic);
}

#[test]
fn candidates_group_by_page_and_text() {
    let runs = vec![
        run("  Main Title  ", 1800, 1, false),
        run("Main Title", 1100, 1, false),
        run("Some body text here", 900, 1, false),
        run("Main Title", 1800, 2, false),
    ];
    let cands = extract_heading_candidates(&runs);
    // one candidate per distinct (page, trimmed text); the last run of a
    // group provides size and style, so the page-1 title scores as H3
    assert_eq!(cands.len(), 2);
    assert_eq!(cands[0].text, "Main Title");
    assert_eq!(cands[0].page, 1);
    assert_eq!(cands[0].level, Level::H3);
    assert_eq!(cands[0].confidence, 60);
    assert_eq!(cands[1].text, "Main Title");
    assert_eq!(cands[1].page, 2);
    assert_eq!(cands[1].level, Level::H1);
    assert_eq!(cands[1].confidence, 90);
}

#[test]
fn candidates_drop_body_text_and_implausible_lines() {
    let runs = vec![
        run("Valid Heading Candidate", 1800, 1, false),
        run("too small to matter", 900, 1, false),
        run("lowercase start at large size", 1800, 1, false),
        run("abc", 1800, 1, false),
    ];
    let cands = extract_heading_candidates(&runs);
    assert_eq!(cands.len(), 1);
    assert_eq!(cands[0].text, "Valid Heading Candidate");
    assert_eq!(cands[0].confidence, 90);
}

#[test]
fn candidates_boost_confidence_for_style() {
    let runs = vec![run("Bold Banner Heading", 1300, 1, true)];
    let cands = extract_heading_candidates(&runs);
    assert_eq!(cands.len(), 1);
    assert_eq!(cands[0].level, Level::H2);
    assert_eq!(cands[0].confidence, 95);
}
