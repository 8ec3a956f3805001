use std::hash::{Hash, Hasher};

use prism_agent::skills::{compute_hash, normalize_name, parse_frontmatter, unquote_text, FrontValue};

#[test]
fn normalize_strips_spaces_case_and_suffixes() {
    assert_eq!(normalize_name("Code Review Agent"), "codereview");
    assert_eq!(normalize_name("pdf-skill"), "pdf");
    assert_eq!(normalize_name("skill"), "skill");
    assert_eq!(normalize_name("Agent"), "agent");
    assert_eq!(normalize_name("data-agent-skill"), "data-");
}

#[test]
fn compute_hash_is_default_hasher_hex() {
    let mut h = std::collections::hash_map::DefaultHasher::new();
    "hello".hash(&mut h);
    assert_eq!(compute_hash("hello"), format!("{:x}", h.finish()));
    assert_eq!(compute_hash("hello"), compute_hash("hello"));
    assert!(compute_hash("hello").chars().all(|c| c.is_ascii_hexdigit() && !c.is_ascii_uppercase()));
}

#[test]
fn frontmatter_entries_and_body() {
    let doc = "---\nname: \"pdf\"\ntags: [a, \"b\" , c]\nenabled: true\n# comment\nversion: 1.5\nnocolon\n---\n# Body\n";
    let (entries, body) = parse_frontmatter(doc);
    assert_eq!(body, "\n# Body\n");
    assert_eq!(entries.len(), 4);
    assert_eq!(entries[0], ("name".to_string(), FrontValue::Scalar("\"pdf\"".into())));
    assert_eq!(
        entries[1],
        ("tags".to_string(), FrontValue::List(vec!["a".into(), "b".into(), "c".into()]))
    );
    assert_eq!(entries[2], ("enabled".to_string(), FrontValue::Flag(true)));
    assert_eq!(entries[3], ("version".to_string(), FrontValue::Scalar("1.5".into())));
    assert_eq!(unquote_text("\"\"pdf\""), "pdf");
}

#[test]
fn frontmatter_absent_or_unclosed() {
    let (e, b) = parse_frontmatter("no front matter");
    assert!(e.is_empty());
    assert_eq!(b, "no front matter");
    let (e2, b2) = parse_frontmatter("---\nname: x\n");
    assert!(e2.is_empty());
    assert_eq!(b2, "---\nname: x\n");
}

fn numeric_flags(entries: &Vec<(String, prism_agent::skills::FrontValue)>) -> Vec<bool> {
    entries
        .iter()
        .map(|(_, v)| match v {
            prism_agent::skills::FrontValue::Scalar(s) => s.parse::<f64>().is_ok(),
            _ => false,
        })
        .collect()
}

#[test]
fn skill_meta_reads_front_matter() {
    let doc = "---\nname: \"PDF 工具\"\ndescription: 处理 PDF\nauthor: 42\ntags: [pdf, \"doc\"]\n---\n# body";
    let (entries, _) = prism_agent::skills::parse_frontmatter(doc);
    let numeric = numeric_flags(&entries);
    let meta = prism_agent::skills::skill_meta(&entries, &numeric, "pdf-folder");
    assert_eq!(meta.name, "PDF 工具");
    assert_eq!(meta.description.as_deref(), Some("处理 PDF"));
    assert_eq!(meta.author, None);
    assert_eq!(meta.tags, vec!["pdf".to_string(), "doc".to_string()]);
}

#[test]
fn skill_meta_falls_back_to_folder_name() {
    let (entries, _) = prism_agent::skills::parse_frontmatter("no front matter");
    let meta = prism_agent::skills::skill_meta(&entries, &vec![], "my-skill");
    assert_eq!(meta.name, "my-skill");
    assert!(meta.description.is_none() && meta.tags.is_empty());
    let (entries, _) = prism_agent::skills::parse_frontmatter("---\nname: a\nname: b\n---\n");
    let meta = prism_agent::skills::skill_meta(&entries, &numeric_flags(&entries), "f");
    assert_eq!(meta.name, "b");
}
