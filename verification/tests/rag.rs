use prism_agent::parser::{ParsedDoc, ParsedPage};
use prism_agent::rag::{build_page_meta, embed_inputs, ingest_plan, EmbeddingConfig};

fn page(no: u32, text: &str) -> ParsedPage {
    ParsedPage { page_no: no, text: text.to_string(), image_path: None }
}

#[test]
fn single_page_has_no_page_numbers() {
    let m = build_page_meta(&vec![page(1, "abc")], &vec!["a".into(), "bc".into()]);
    assert_eq!(m, vec![(None, None), (None, None)]);
}

#[test]
fn chunks_get_their_start_page() {
    let pages = vec![page(1, "aaaa"), page(2, "bbbb"), page(5, "cc")];
    let chunks = vec!["aaa".to_string(), "ab".into(), "bbbbc".into(), "c".into()];
    let m = build_page_meta(&pages, &chunks);
    assert_eq!(
        m,
        vec![(Some(1), Some(1)), (Some(1), Some(1)), (Some(2), Some(2)), (Some(5), Some(5))]
    );
}

#[test]
fn embedding_config_defaults_to_local() {
    let c = EmbeddingConfig::default();
    assert_eq!(c.mode, "local");
    assert!(c.provider_id.is_none() && c.model.is_none() && c.dim.is_none());
}

#[test]
fn ingest_plan_joins_pages_and_clamps_settings() {
    let doc = ParsedDoc { pages: vec![page(1, "第一页"), page(2, "two")], blocks: vec![], title: None, page_count: 2 };
    let p = ingest_plan(&doc, "/docs/报告.pdf", 5000, -3);
    assert_eq!(p.content, "第一页\n\ntwo");
    assert_eq!(p.file_name, "报告.pdf");
    assert_eq!(p.mime, "application/pdf");
    assert_eq!(p.size, "第一页\n\ntwo".len() as i64);
    assert_eq!(p.chunk_size, 2000);
    assert_eq!(p.overlap, 0);
    let q = ingest_plan(&doc, "/", 100, 300);
    assert_eq!(q.file_name, "unknown");
    assert_eq!(q.chunk_size, 200);
    assert_eq!(q.overlap, 300);
}

#[test]
fn embed_inputs_prefix_context_when_enabled() {
    let chunks = vec!["c1".to_string(), "c2".to_string()];
    let plain = embed_inputs("文档", &chunks, false);
    assert_eq!(plain, chunks);
    let ctx = embed_inputs("文档", &chunks, true);
    assert_eq!(ctx[0], "文档开篇背景：文档…\nc1");
    assert_eq!(ctx[1], "文档开篇背景：文档…\nc2");
}
