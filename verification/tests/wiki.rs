use prism_agent::wiki::{
    ensure_within, make_snippet, truncate_md, validate_page_path, WikiPathError,
};

#[test]
fn snippet_cjk_char_boundary_no_panic() {
    let content = "知识库内容".repeat(60);
    let pos = content.find("知识").unwrap();
    let s = make_snippet(&content, pos, 6);
    assert!(!s.is_empty());
    assert!(s.contains("知识"));
}

#[test]
fn snippet_near_document_start() {
    let content = "短文档";
    let s = make_snippet(content, 0, 3);
    assert_eq!(s, "短文档");
}

#[test]
fn snippet_near_document_end() {
    let content = "中文".repeat(200);
    let pos = content.len() - 6;
    let s = make_snippet(&content, pos, 6);
    assert!(!s.is_empty());
    assert!(s.contains("中文"));
}

#[test]
fn snippet_window_is_floored() {
    let content = "a".repeat(300);
    let s = make_snippet(&content, 150, 2);
    assert_eq!(s.len(), 202);
    let cjk = "中".repeat(100);
    // from = 50 floors to 48, to = 152 + 100 floors to 252
    let s2 = make_snippet(&cjk, 150, 2);
    assert_eq!(s2, "中".repeat(68));
}

#[test]
fn page_path_rules() {
    assert_eq!(validate_page_path("concepts/a.md"), Ok(()));
    assert_eq!(validate_page_path("../x.md"), Err(WikiPathError::ParentSegment));
    assert_eq!(validate_page_path("a/..b.md"), Err(WikiPathError::ParentSegment));
    assert_eq!(validate_page_path("/etc/passwd"), Err(WikiPathError::Rooted));
    assert_eq!(validate_page_path("\\x.md"), Err(WikiPathError::Rooted));
    assert_eq!(WikiPathError::ParentSegment.message(), "路径不能包含 '..'");
}

#[test]
fn ensure_within_components() {
    assert_eq!(ensure_within("/w/wiki/a.md", "/w/wiki"), Ok(()));
    assert_eq!(ensure_within("/w/wikis/a.md", "/w/wiki"), Err(WikiPathError::OutsideRoot));
    assert_eq!(WikiPathError::OutsideRoot.message(), "路径越界，已拒绝");
}

#[test]
fn truncate_md_keeps_first_lines() {
    assert_eq!(truncate_md("a\nb\r\nc\n", 2), "a\nb");
    assert_eq!(truncate_md("a\nb\nc", 10), "a\nb\nc");
    assert_eq!(truncate_md("", 3), "");
    assert_eq!(truncate_md("x\n", 0), "");
}
