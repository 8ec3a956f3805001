use prism_agent::models::GlossaryTermRow;
use prism_agent::translate_cache::{
    cache_key, cacheable, glossary_prompt, prepare_translation, TranslateCache, TranslationStart,
    CACHE_TTL_SECS,
};

fn term(s: &str, t: &str) -> GlossaryTermRow {
    GlossaryTermRow {
        id: "1".into(),
        source_lang: "en".into(),
        target_lang: "zh".into(),
        source_term: s.into(),
        target_term: t.into(),
        category: None,
        enabled: 1,
        created_at: 0,
    }
}

#[test]
fn cache_serves_fresh_entries_only() {
    let mut c = TranslateCache::new();
    assert_eq!(c.get("k", 0), None);
    c.put("k".into(), "值".into(), 100);
    assert_eq!(c.get("k", 100 + CACHE_TTL_SECS - 1).as_deref(), Some("值"));
    assert_eq!(c.get("k", 100 + CACHE_TTL_SECS), None);
    c.put("k".into(), "新".into(), 200);
    c.put("j".into(), "other".into(), 200);
    assert_eq!(c.get("k", 300).as_deref(), Some("新"));
    assert_eq!(c.get("j", 300).as_deref(), Some("other"));
}

#[test]
fn cache_key_and_limit() {
    assert_eq!(cache_key("hello", "auto", "zh"), "hello|auto|zh");
    assert!(cacheable(&"字".repeat(500)));
    assert!(!cacheable(&"字".repeat(501)));
}

#[test]
fn prepare_blank_and_long_texts() {
    match prepare_translation("   ", None, "zh") {
        TranslationStart::Blank(r) => {
            assert_eq!(r.translated, "");
            assert_eq!(r.source_lang, "auto");
            assert!(!r.from_cache);
        }
        _ => panic!("blank text must not be sent"),
    }
    match prepare_translation("  Hi ", Some("en"), "zh") {
        TranslationStart::Request(p) => {
            assert_eq!(p.text, "Hi");
            assert_eq!(p.source_lang, "en");
            assert_eq!(p.cache_key.as_deref(), Some("Hi|en|zh"));
        }
        _ => panic!("expected a request"),
    }
    match prepare_translation(&"a".repeat(600), None, "zh") {
        TranslationStart::Request(p) => assert!(p.cache_key.is_none()),
        _ => panic!("expected a request"),
    }
}

#[test]
fn glossary_note_lists_terms() {
    assert_eq!(glossary_prompt(&vec![]), "");
    assert_eq!(
        glossary_prompt(&vec![term("agent", "智能体"), term("prompt", "提示词")]),
        "必须使用以下术语翻译（术语表）：\nagent → 智能体;\nprompt → 提示词\n"
    );
}
