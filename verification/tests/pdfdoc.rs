//! An end-to-end test through real document bytes: a small document is
//! assembled, saved to bytes, its text extracted, and the result run
//! through the plain-text pipeline.

use lopdf::content::{Content, Operation};
use lopdf::{Dictionary, Document, Object, Stream, StringFormat};
use pdf_outline::model::Level;
use pdf_outline::pipeline::try_plain_pipeline;

fn text_op(s: &str) -> Operation {
    Operation::new(
        "Tj",
        vec![Object::String(s.as_bytes().to_vec(), StringFormat::Literal)],
    )
}

fn build_document_bytes() -> Vec<u8> {
    let mut doc = Document::with_version("1.5");
    let pages_id = doc.new_object_id();

    let mut font = Dictionary::new();
    font.set("Type", Object::Name(b"Font".to_vec()));
    font.set("Subtype", Object::Name(b"Type1".to_vec()));
    font.set("BaseFont", Object::Name(b"Helvetica".to_vec()));
    let font_id = doc.add_object(Object::Dictionary(font));

    let mut fonts = Dictionary::new();
    fonts.set("F1", Object::Reference(font_id));
    let mut resources = Dictionary::new();
    resources.set("Font", Object::Dictionary(fonts));
    let resources_id = doc.add_object(Object::Dictionary(resources));

    let content = Content {
        operations: vec![
            Operation::new("BT", vec![]),
            Operation::new(
                "Tf",
                vec![Object::Name(b"F1".to_vec()), Object::Integer(12)],
            ),
            Operation::new("Td", vec![Object::Integer(72), Object::Integer(700)]),
            text_op("1. Introduction"),
            Operation::new("Td", vec![Object::Integer(0), Object::Integer(-50)]),
            text_op("1.1 Background"),
            Operation::new("ET", vec![]),
        ],
    };
    let content_id = doc.add_object(Object::Stream(Stream::new(
        Dictionary::new(),
        content.encode().unwrap(),
    )));

    let mut page = Dictionary::new();
    page.set("Type", Object::Name(b"Page".to_vec()));
    page.set("Parent", Object::Reference(pages_id));
    page.set("Contents", Object::Reference(content_id));
    let page_id = doc.add_object(Object::Dictionary(page));

    let mut pages = Dictionary::new();
    pages.set("Type", Object::Name(b"Pages".to_vec()));
    pages.set("Kids", Object::Array(vec![Object::Reference(page_id)]));
    pages.set("Count", Object::Integer(1));
    pages.set("Resources", Object::Reference(resources_id));
    pages.set(
        "MediaBox",
        Object::Array(vec![
            Object::Integer(0),
            Object::Integer(0),
            Object::Integer(612),
            Object::Integer(792),
        ]),
    );
    doc.objects.insert(pages_id, Object::Dictionary(pages));

    let mut catalog = Dictionary::new();
    catalog.set("Type", Object::Name(b"Catalog".to_vec()));
    catalog.set("Pages", Object::Reference(pages_id));
    let catalog_id = doc.add_object(Object::Dictionary(catalog));
    doc.trailer.set("Root", Object::Reference(catalog_id));

    let mut buf: Vec<u8> = Vec::new();
    doc.save_to(&mut buf).unwrap();
    buf
}

#[test]
fn document_bytes_to_outline() {
    let bytes = build_document_bytes();
    let text = pdf_extract::extract_text_from_mem(&bytes).unwrap();
    let outline = try_plain_pipeline(&text, &None).unwrap();
    assert_eq!(outline.title, "1. Introduction");
    assert_eq!(outline.outline.len(), 1);
    assert_eq!(outline.outline[0].level, Level::H2);
    assert_eq!(outline.outline[0].text, "1.1 Background");
    assert_eq!(outline.outline[0].page, 1);
}
