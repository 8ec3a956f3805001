use prism_agent::project::{index_action, IndexAction};
use prism_agent::project::{extension_whitelisted, is_whitelisted};

#[test]
fn whitelist_matches_design_extensions() {
    assert!(is_whitelisted("src/main.rs"));
    assert!(is_whitelisted("docs/design.md"));
    assert!(is_whitelisted("app.svelte"));
    assert!(is_whitelisted("config.yaml"));
    assert!(is_whitelisted("Cargo.toml"));
    assert!(!is_whitelisted("image.png"));
    assert!(!is_whitelisted("binary.exe"));
    assert!(!is_whitelisted("no_extension"));
}

#[test]
fn whitelist_is_case_insensitive_on_ascii() {
    assert!(is_whitelisted("README.MD"));
    assert!(extension_whitelisted(Some("TsX")));
    assert!(!extension_whitelisted(Some("")));
    assert!(!extension_whitelisted(None));
    assert!(!is_whitelisted(".bash"));
}

#[test]
fn index_actions_for_changed_paths() {
    assert_eq!(index_action("src/a.rs", true, true, None, "1:2"), IndexAction::Ingest);
    assert_eq!(index_action("src/a.rs", true, true, Some(Some("1:2".into())), "1:2"), IndexAction::Unchanged);
    assert_eq!(index_action("src/a.rs", true, true, Some(Some("0:2".into())), "1:2"), IndexAction::Reingest);
    assert_eq!(index_action("src/a.rs", true, true, Some(None), "1:2"), IndexAction::Reingest);
    assert_eq!(index_action("img.png", true, true, None, "1:2"), IndexAction::Ignore);
    assert_eq!(index_action("gone.md", false, false, Some(None), ""), IndexAction::Remove);
    assert_eq!(prism_agent::project::fingerprint_text(1700000000123, 42), "1700000000123:42");
    assert_eq!(prism_agent::project::fingerprint_text(-5, 0), "-5:0");
    assert_eq!(prism_agent::project::fingerprint_text(i64::MIN, 1), "-9223372036854775808:1");
}
