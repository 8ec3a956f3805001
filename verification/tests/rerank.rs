use prism_agent::rerank::{parse_index_list, LlmReranker, NoopReranker, Reranker};

#[test]
fn parse_json_list() {
    let r = parse_index_list("[3, 0, 1]", 10, 3);
    assert_eq!(r, vec![3, 0, 1]);
}

#[test]
fn parse_fenced_and_extra() {
    let r = parse_index_list("```json\n[2, 1]\n```", 10, 2);
    assert_eq!(r, vec![2, 1]);
}

#[test]
fn dedup_and_clamp() {
    let r = parse_index_list("[0, 0, 99, 1, 2]", 5, 2);
    assert_eq!(r, vec![0, 1]);
}

#[test]
fn noop_preserves_order() {
    let r = NoopReranker.rerank("q", &["a".into(), "b".into()], 2);
    assert_eq!(r, vec![0, 1]);
}

#[test]
fn noop_truncates_to_top_k() {
    let docs: Vec<String> = vec!["a".into(), "b".into(), "c".into()];
    assert_eq!(NoopReranker.rerank("q", &docs, 2), vec![0, 1]);
    assert_eq!(NoopReranker.rerank("q", &docs, 9), vec![0, 1, 2]);
}

#[test]
fn prefix_text_and_negative_and_overflow_tokens() {
    let r = parse_index_list("The order is: [4, -1, 2-3, 99999999999999999999999, 1]", 10, 5);
    assert_eq!(r, vec![4, 1]);
}

#[test]
fn no_brackets_reads_all_numbers() {
    assert_eq!(parse_index_list("  2 then 0  ", 3, 5), vec![2, 0]);
}

#[test]
fn leading_zeros_are_accepted() {
    assert_eq!(parse_index_list("[007, 7]", 10, 5), vec![7]);
}

#[test]
fn llm_reranker_candidate_cap() {
    assert_eq!(LlmReranker::new().max_candidates, 150);
}

#[test]
fn llm_rerank_prompt_lists_candidates() {
    let r = LlmReranker::new();
    let docs = vec!["alpha".to_string(), "b".repeat(250)];
    let (p, n) = r.prompt("q", &docs, 2);
    assert_eq!(n, 2);
    assert!(p.starts_with("你是检索重排序器。"));
    assert!(p.contains("\n\n查询：q\n\n候选：\n[0] alpha\n[1] "));
    assert!(p.contains(&format!("[1] {}\n\n\n只返回", "b".repeat(200))));
    assert!(p.ends_with("最多 2 个，不要其他文本。"));
}
