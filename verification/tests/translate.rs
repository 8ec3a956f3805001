use prism_agent::translate::{
    build_translate_prompt, is_cjk, split_markdown_blocks, strip_artifacts, BlockKind,
};

#[test]
fn strip_quotes_and_prefix() {
    assert_eq!(strip_artifacts("\"hello\""), "hello");
    assert_eq!(strip_artifacts("Translation: hello"), "hello");
    assert_eq!(strip_artifacts("```\nhello\n```"), "hello");
    assert_eq!(strip_artifacts("“你好”"), "你好");
    assert_eq!(strip_artifacts("plain text"), "plain text");
}

#[test]
fn split_blocks_code_and_heading() {
    let md = "# Title\n\ntext here\n\n```rust\nfn main() {}\n```\n\nmore text";
    let blocks = split_markdown_blocks(md);
    assert!(blocks
        .iter()
        .any(|b| matches!(b.kind, BlockKind::Heading { level: 1 })));
    assert!(blocks.iter().any(|b| matches!(b.kind, BlockKind::Code)));
    assert!(blocks.iter().any(|b| matches!(b.kind, BlockKind::Text)));
}

#[test]
fn split_blocks_exact_sequence() {
    let md = "# Title\n\ntext here\n\n```rust\nfn main() {}\n```\n\nmore text";
    let blocks = split_markdown_blocks(md);
    let got: Vec<(BlockKind, String)> = blocks.into_iter().map(|b| (b.kind, b.text)).collect();
    assert_eq!(
        got,
        vec![
            (BlockKind::Heading { level: 1 }, "Title".to_string()),
            (BlockKind::Text, "\ntext here\n\n".to_string()),
            (BlockKind::Code, "```rust\nfn main() {}\n```\n".to_string()),
            (BlockKind::Text, "\nmore text\n".to_string()),
        ]
    );
}

#[test]
fn split_blocks_heading_rules() {
    let blocks = split_markdown_blocks("###### six\n####### seven\n#tag\n  ## indented  \r\n");
    let got: Vec<(BlockKind, String)> = blocks.into_iter().map(|b| (b.kind, b.text)).collect();
    assert_eq!(
        got,
        vec![
            (BlockKind::Heading { level: 6 }, "six".to_string()),
            (BlockKind::Text, "####### seven\n#tag\n".to_string()),
            (BlockKind::Heading { level: 2 }, "indented".to_string()),
        ]
    );
}

#[test]
fn split_blocks_unterminated_fence_and_empty() {
    assert!(split_markdown_blocks("").is_empty());
    let blocks = split_markdown_blocks("intro\r\n```\ncode line");
    let got: Vec<(BlockKind, String)> = blocks.into_iter().map(|b| (b.kind, b.text)).collect();
    assert_eq!(
        got,
        vec![
            (BlockKind::Text, "intro\n".to_string()),
            (BlockKind::Code, "```\ncode line\n".to_string()),
        ]
    );
}

#[test]
fn translate_prompt_layout() {
    let p = build_translate_prompt("hi", "en", "zh", "G\n");
    assert_eq!(
        p,
        "Translate the following text from en to zh.\nG\nRules: preserve code, formatting, proper nouns and placeholders like {var};\noutput ONLY the translation without quotes.\n\nhi"
    );
    let q = build_translate_prompt("x", "auto", "en", "");
    assert!(q.starts_with("Translate the following text from auto to en.\nRules:"));
}

#[test]
fn strip_artifacts_prefix_then_quotes() {
    assert_eq!(strip_artifacts("  翻译：「你好」 "), "你好");
    assert_eq!(strip_artifacts("'a'"), "a");
    assert_eq!(strip_artifacts("\"a'"), "\"a'");
}

#[test]
fn cjk_ranges() {
    assert!(is_cjk('中'));
    assert!(is_cjk('\u{3400}'));
    assert!(is_cjk('\u{20000}'));
    assert!(!is_cjk('a'));
    assert!(!is_cjk('あ'));
}

#[test]
fn detect_zh_en() {
    assert_eq!(prism_agent::translate::detect_language_label("今天天气很好"), "zh");
    assert_eq!(prism_agent::translate::detect_language_label("hello world this is a test"), "en");
}

#[test]
fn detect_unknown_and_counts() {
    assert_eq!(prism_agent::translate::detect_language_label(""), "unknown");
    assert_eq!(prism_agent::translate::detect_language_label("1234 5678 !!"), "unknown");
    assert_eq!(prism_agent::translate::language_counts("ab中文1"), (2, 2, 5));
    // exactly 30% ideographs is not enough
    assert_eq!(prism_agent::translate::detect_language_label("中文中1234567"), "unknown");
}
