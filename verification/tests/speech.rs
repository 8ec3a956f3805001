use prism_agent::speech::split_for_speech;

const MAX_SEGMENT_CHARS: usize = 200;

#[test]
fn short_text_single_segment() {
    let segs = split_for_speech("今天讨论完成。");
    assert_eq!(segs, vec!["今天讨论完成。"]);
}

#[test]
fn empty_text_no_segments() {
    assert!(split_for_speech("  \n ").is_empty());
}

#[test]
fn splits_on_sentence_boundaries() {
    let text = format!("{}。", "第一句内容".repeat(30));
    let segs = split_for_speech(&text);
    assert!(!segs.is_empty());
    assert!(segs.iter().all(|s| s.chars().count() <= MAX_SEGMENT_CHARS));
}

#[test]
fn long_sentence_without_boundary_truncates() {
    let text = "长句无标点".repeat(50);
    assert_eq!(text.chars().count(), 250);
    let segs = split_for_speech(&text);
    assert!(segs.len() > 1, "超长无边界文本应截断为多段，实际 {} 段", segs.len());
    assert!(segs.iter().all(|s| s.chars().count() <= MAX_SEGMENT_CHARS));
}

#[test]
fn multi_sentence_splits() {
    let text = format!("{}。{}。", "句子A".repeat(34), "句子B".repeat(34));
    let segs = split_for_speech(&text);
    assert!(segs.len() >= 2, "多句应拆分为多段，实际 {} 段", segs.len());
    assert!(segs.iter().any(|s| s.contains("句子A")));
    assert!(segs.iter().any(|s| s.contains("句子B")));
}

#[test]
fn exact_cut_points() {
    // 250 characters without boundary: cut at 200, remainder 50
    let text = "a".repeat(250);
    let segs = split_for_speech(&text);
    assert_eq!(segs, vec!["a".repeat(200), "a".repeat(50)]);
}

#[test]
fn short_sentences_are_merged_until_forty_characters() {
    // 30 sentences of 9 characters: each segment ends at the first boundary reaching 40
    let text = "abcdefgh.".repeat(30);
    let segs = split_for_speech(&text);
    assert_eq!(segs[0], "abcdefgh.".repeat(5));
    assert_eq!(segs.len(), 6);
}

#[test]
fn segments_keep_every_visible_character() {
    let text = format!("{}。{}！  {}", "句子A".repeat(30), "句子B ".repeat(25), "尾巴".repeat(70));
    let segs = split_for_speech(&text);
    let ink = |s: &str| s.chars().filter(|c| !c.is_whitespace()).collect::<String>();
    assert_eq!(ink(&segs.concat()), ink(&text));
}
