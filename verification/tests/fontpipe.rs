//! Tests of the font-metric pipeline: confidence gating, truncation
//! order, title handling.

use pdf_outline::model::{Level, PdfObj, PdfOp, TextRun};
use pdf_outline::pipeline::{font_outline_from_runs, outline_from_ops};

fn run(text: &str, size: u32, page: usize) -> TextRun {
    TextRun {
        text: text.to_string(),
        size,
        page,
        font_name: "Helvetica".to_string(),
        is_bold: false,
        is_italic: false,
    }
}

#[test]
fn large_runs_surface_small_runs_do_not() {
    let runs = vec![
        run("Quality Framework Overview", 1800, 1),
        run("Quality Framework Overview", 1800, 1),
        run("Body Sentence One Here", 1100, 1),
        run("Body Sentence Two Here", 1100, 1),
        run("Body Sentence Three Here", 1100, 1),
    ];
    // with the strict threshold only the 18-point heading surfaces:
    // the 11-point runs score H3 at confidence 60, which is not enough
    let strict = font_outline_from_runs(&runs, "", &None, 60);
    assert_eq!(strict.outline.len(), 1);
    assert_eq!(strict.outline[0].level, Level::H1);
    assert_eq!(strict.outline[0].text, "Quality Framework Overview");
    assert_eq!(strict.outline[0].page, 1);
    // with the permissive threshold the 11-point headings surface too
    let permissive = font_outline_from_runs(&runs, "", &None, 50);
    assert_eq!(permissive.outline.len(), 4);
    assert_eq!(permissive.outline[0].level, Level::H1);
}

#[test]
fn font_path_title_from_first_page_text() {
    let runs = vec![run("Delivery Approach Detail", 1800, 2)];
    let o = font_outline_from_runs(
        &runs,
        "Methodology Guide for Engineers\nsome body text\n",
        &None,
        60,
    );
    assert_eq!(o.title, "Methodology Guide for Engineers");
    assert_eq!(o.outline.len(), 1);
    assert_eq!(o.outline[0].text, "Delivery Approach Detail");
}

#[test]
fn font_path_stem_fallback_title() {
    let runs = vec![run("Delivery Approach Detail", 1800, 2)];
    let o = font_outline_from_runs(&runs, "", &Some("annual_plan".to_string()), 60);
    assert_eq!(o.title, "annual_plan");
    let o2 = font_outline_from_runs(&runs, "", &None, 60);
    assert_eq!(o2.title, "Untitled Document");
}

#[test]
fn font_path_drops_title_heading_and_excluded_text() {
    let runs = vec![
        run("Methodology Guide for Engineers", 1800, 1),
        run("Copyright Example Corp Notice", 1800, 1),
        run("Delivery Approach Detail", 1800, 2),
    ];
    let o = font_outline_from_runs(
        &runs,
        "Methodology Guide for Engineers\nsome body text\n",
        &None,
        60,
    );
    // the chosen title and the copyright line never become headings
    assert_eq!(o.outline.len(), 1);
    assert_eq!(o.outline[0].text, "Delivery Approach Detail");
}

#[test]
fn font_path_orders_by_page_after_confidence_cut() {
    let runs = vec![
        run("Later Chapter Material Overview", 1400, 5),
        run("Front Matter Heading Overview", 1800, 1),
    ];
    let o = font_outline_from_runs(&runs, "", &None, 60);
    assert_eq!(o.outline.len(), 2);
    assert_eq!(o.outline[0].page, 1);
    assert_eq!(o.outline[1].page, 5);
}

#[test]
fn ops_to_outline_end_to_end() {
    let page = vec![
        PdfOp {
            operator: "Tf".to_string(),
            operands: vec![PdfObj::Name(b"F1".to_vec()), PdfObj::Number(1800)],
        },
        PdfOp {
            operator: "Tj".to_string(),
            operands: vec![PdfObj::Text(b"Quality Framework Overview".to_vec())],
        },
        PdfOp {
            operator: "Tf".to_string(),
            operands: vec![PdfObj::Name(b"F1".to_vec()), PdfObj::Number(900)],
        },
        PdfOp {
            operator: "Tj".to_string(),
            operands: vec![PdfObj::Text(b"ordinary body sentence".to_vec())],
        },
    ];
    let o = outline_from_ops(&vec![page], "", &None, 60);
    assert_eq!(o.outline.len(), 1);
    assert_eq!(o.outline[0].level, Level::H1);
    assert_eq!(o.outline[0].text, "Quality Framework Overview");
}
