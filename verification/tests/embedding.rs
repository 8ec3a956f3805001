use prism_agent::embedding::{fnv1a, is_cjk, split_words, tokenize, tokenize_local, LocalEmbedder};

#[test]
fn fnv1a_known_values() {
    assert_eq!(fnv1a(""), 0xcbf2_9ce4_8422_2325);
    assert_eq!(fnv1a("a"), 0xaf63_dc4c_8601_ec8c);
    assert_eq!(fnv1a("foobar"), 0x8594_4171_f739_67e8);
}

#[test]
fn tokenize_lowercases_and_splits() {
    assert_eq!(tokenize("Hello, World! 42x"), vec!["hello", "world", "42x"]);
    assert!(tokenize("  ,, ").is_empty());
    assert_eq!(split_words("a-b--c"), vec!["a", "b", "c"]);
}

#[test]
fn tokenize_local_words_cjk_and_bigrams() {
    assert_eq!(
        tokenize_local("Rust 是语言"),
        vec!["rust", "是", "语", "言", "##是语", "##语言"]
    );
    assert!(tokenize_local("").is_empty());
    assert_eq!(tokenize_local("AbC_d"), vec!["abc", "d"]);
}

#[test]
fn cjk_includes_kana_and_hangul() {
    assert!(is_cjk('あ'));
    assert!(is_cjk('한'));
    assert!(is_cjk('中'));
    assert!(!is_cjk('z'));
}

#[test]
fn feature_slots_follow_hash() {
    let e = LocalEmbedder::new(256);
    assert_eq!(e.dim, 256);
    assert_eq!(LocalEmbedder::default().dim, 256);
    let slots = e.feature_slots("Rust rust");
    let h = fnv1a("rust");
    let expect = ((h % 256) as usize, (h >> 32) & 1 == 1);
    assert_eq!(slots, vec![expect, expect]);
    assert!(e.feature_slots("").is_empty());
}
