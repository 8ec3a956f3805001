use prism_agent::contextualize::{Contextualizer, HeuristicContextualizer, LlmContextualizer};
use prism_agent::text::replace_str;

#[test]
fn heuristic_works() {
    let c = HeuristicContextualizer;
    let ctx = c.contextualize("这是一篇关于公司财务的文档，介绍季度收入。", "收入增长3%");
    assert!(ctx.contains("公司财务"));
}

#[test]
fn heuristic_takes_opening_120_chars() {
    let doc = "字".repeat(130);
    let ctx = HeuristicContextualizer.contextualize(&doc, "x");
    assert_eq!(ctx, format!("文档开篇背景：{}…", "字".repeat(120)));
}

#[test]
fn llm_prompt_fills_placeholders() {
    let c = LlmContextualizer::new();
    let p = c.prompt("DOC", "CHUNK");
    assert!(p.starts_with("\n<document>\nDOC\n</document>\n"));
    assert!(p.contains("<chunk>\nCHUNK\n</chunk>"));
    let q = c.prompt("has {chunk} inside", "C");
    assert!(q.contains("has C inside"));
    assert_eq!(c.finish("  note \n"), "note");
}

#[test]
fn replace_is_left_to_right() {
    assert_eq!(replace_str("aaa", "aa", "b"), "ba");
    assert_eq!(replace_str("x{a}y{a}", "{a}", "1"), "x1y1");
    assert_eq!(replace_str("", "a", "b"), "");
}
