use prism_agent::embedding::fnv1a;
use prism_agent::memory::{
    extract_snippet, sanitize_fts_query, scope_for_head, scope_for_path, snippet_cut_allowed,
    stable_hash, MemoryDump,
};

#[test]
fn stable_hash_clears_sign_bit() {
    let h = stable_hash("global/notes.md");
    assert!(h >= 0);
    assert_eq!(h as u64, fnv1a("global/notes.md") & 0x7fff_ffff_ffff_ffff);
    assert_eq!(stable_hash(""), (0xcbf2_9ce4_8422_2325u64 & 0x7fff_ffff_ffff_ffff) as i64);
}

#[test]
fn fts_query_is_quoted_phrases() {
    assert_eq!(sanitize_fts_query("hello world").as_deref(), Some("\"hello\" \"world\""));
    assert_eq!(sanitize_fts_query("a-b (c)*").as_deref(), Some("\"a\" \"b\" \"c\""));
    assert_eq!(sanitize_fts_query("  \"*()  "), None);
    assert_eq!(sanitize_fts_query(""), None);
    assert_eq!(sanitize_fts_query("记忆 库").as_deref(), Some("\"记忆\" \"库\""));
}

#[test]
fn scope_by_first_directory() {
    assert_eq!(scope_for_path("/m", "/m/global/a.md"), "global");
    assert_eq!(scope_for_path("/m", "/m/projects/p/a.md"), "project");
    assert_eq!(scope_for_path("/m", "/m/sessions/s.md"), "session");
    assert_eq!(scope_for_path("/m", "/m/other/a.md"), "memory");
    assert_eq!(scope_for_path("/m", "/elsewhere/a.md"), "memory");
    assert_eq!(scope_for_head(None), "memory");
}

#[test]
fn snippet_around_first_hit() {
    let content = format!("{}needle{}", "a".repeat(150), "b".repeat(150));
    assert!(snippet_cut_allowed(&content, "needle"));
    let s = extract_snippet(&content, "needle");
    assert_eq!(s, format!("...{}needle{}...", "a".repeat(100), "b".repeat(100)));
}

#[test]
fn snippet_without_hit_takes_head() {
    let content = "x".repeat(250);
    assert_eq!(extract_snippet(&content, "zz"), "x".repeat(200));
    assert_eq!(extract_snippet("short", "zz"), "short");
}

#[test]
fn snippet_cut_refused_inside_character() {
    let content = format!("{}needle", "中".repeat(50));
    // 150 bytes of CJK before the hit: 150 - 100 = 50 is not a boundary (50 % 3 != 0)
    assert!(!snippet_cut_allowed(&content, "needle"));
    let ok = format!("{}aneedle", "中".repeat(50));
    assert!(snippet_cut_allowed(&ok, "needle"));
    let dump = MemoryDump { path: "p".into(), scope: "global".into(), size: 3, preview: "abc".into() };
    assert_eq!(dump.size, 3);
}

#[test]
fn dump_entry_previews_200_chars() {
    let content = "记".repeat(250);
    let d = prism_agent::memory::dump_entry("/m/global/MEMORY.md".into(), "global", &content);
    assert_eq!(d.size, 750);
    assert_eq!(d.preview.chars().count(), 200);
    assert_eq!(d.scope, "global");
    let short = prism_agent::memory::dump_entry("p".into(), "project", "abc");
    assert_eq!((short.size, short.preview.as_str()), (3, "abc"));
}

#[test]
fn context_parts_and_exchange() {
    let mut summary = String::new();
    prism_agent::memory::push_context_part(&mut summary, true, "偏好中文");
    prism_agent::memory::push_context_part(&mut summary, false, "项目A");
    assert_eq!(summary, "# 全局记忆\n偏好中文\n\n# 项目记忆\n项目A\n\n");
    assert_eq!(
        prism_agent::memory::exchange_entry("问", "答"),
        "\n## user\n问\n\n## assistant\n答\n"
    );
}

#[test]
fn stale_index_entries() {
    let indexed = vec!["a".to_string(), "b".to_string(), "c".to_string()];
    let current = vec!["c".to_string(), "a".to_string()];
    assert_eq!(prism_agent::memory::stale_paths(&indexed, &current), vec!["b".to_string()]);
    assert!(prism_agent::memory::stale_paths(&vec![], &current).is_empty());
}
