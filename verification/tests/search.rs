use std::collections::HashMap;

use prism_agent::hyde::hyde_prompt;

#[test]
fn test_hyde_prompt_format() {
    let query = "保修政策";
    let prompt = hyde_prompt(query);
    assert!(prompt.contains("保修政策"));
}

#[test]
fn hyde_prompt_exact_layout() {
    let prompt = hyde_prompt("Q");
    assert!(prompt.starts_with("你是一个文档生成助手。"));
    assert!(prompt.contains("\n\n查询：Q\n\n请生成假设文档内容"));
    assert!(prompt.ends_with("不要加解释）："));
}

#[test]
fn test_rrf_fusion() {
    let k = 60.0;
    let mut scores: HashMap<String, f32> = HashMap::new();

    scores.insert("chunk1".into(), 1.0 / (k + 0.0));
    scores.insert("chunk2".into(), 1.0 / (k + 1.0));

    *scores.entry("chunk3".into()).or_insert(0.0) += 1.0 / (k + 0.0);
    *scores.get_mut("chunk1").unwrap() += 1.0 / (k + 1.0);

    assert!(scores["chunk1"] > scores["chunk2"]);
    assert!(scores["chunk1"] > scores["chunk3"]);
}
