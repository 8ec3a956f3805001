use std::path::Path;

use prism_agent::parser::{
    parser_for, parser_for_extension, pdf_text_document, text_document, DocKind, DocumentParser,
    ParsedBlock, PdfPageRenderer, SelectedParser,
};

#[test]
fn parser_dispatches_pdf() {
    let p = Path::new("x.pdf");
    assert_eq!(parser_for(p.to_str().unwrap()).kind(), DocKind::Pdf);
}

#[test]
fn parser_dispatch_other_extensions() {
    assert_eq!(parser_for("notes.md").kind(), DocKind::Text);
    assert_eq!(parser_for("SCAN.PDF").kind(), DocKind::Pdf);
    assert_eq!(parser_for("no_ext").kind(), DocKind::Text);
    assert!(matches!(parser_for_extension(Some("Pdf")), SelectedParser::Pdf(_)));
    assert!(matches!(parser_for_extension(None), SelectedParser::Text(_)));
}

#[test]
fn text_document_has_one_page() {
    let d = text_document("hello world".to_string(), Some("t".to_string()));
    assert_eq!(d.pages.len(), 1);
    assert_eq!(d.pages[0].page_no, 1);
    assert_eq!(d.pages[0].text, "hello world");
    assert_eq!(d.page_count, 1);
    assert_eq!(d.title.as_deref(), Some("t"));
    assert!(matches!(&d.blocks[0], ParsedBlock::Text { text } if text == "hello world"));
}

#[test]
fn pdf_text_layer_keeps_non_blank_pages() {
    let pages = vec!["first".to_string(), "  \n".to_string(), "third".to_string()];
    let d = pdf_text_document(pages, None).unwrap();
    assert_eq!(d.page_count, 3);
    let nums: Vec<u32> = d.pages.iter().map(|p| p.page_no).collect();
    assert_eq!(nums, vec![1, 3]);
    assert_eq!(d.pages[1].text, "third");
    assert_eq!(d.blocks.len(), 2);
    assert!(pdf_text_document(vec![" ".to_string(), String::new()], None).is_none());
}

#[test]
fn rendered_pages_from_image_files() {
    let files = vec![
        "/tmp/o/page-1.png".to_string(),
        "/tmp/o/log.txt".to_string(),
        "/tmp/o/page-2.jpg".to_string(),
    ];
    let pages = PdfPageRenderer::pages_from_files(files);
    assert_eq!(pages.len(), 2);
    assert_eq!(pages[0].page_no, 1);
    assert_eq!(pages[1].page_no, 2);
    assert_eq!(pages[1].image_path.as_deref(), Some("/tmp/o/page-2.jpg"));
    assert!(pages[0].text.is_empty());
}
