use prism_agent::chunker::chunk_text;

#[test]
fn empty_text() {
    assert_eq!(chunk_text("", 100, 20), Vec::<String>::new());
}

#[test]
fn short_text() {
    assert_eq!(chunk_text("hello", 100, 20), vec!["hello"]);
}

#[test]
fn paragraph_split() {
    let text = "Para one.\n\nPara two.\n\nPara three.";
    let chunks = chunk_text(text, 20, 0);
    assert!(chunks.len() >= 2);
}

#[test]
fn fixed_window() {
    let text = "abcdefghijklmnopqrstuvwxyz";
    let chunks = chunk_text(text, 10, 3);
    assert!(chunks.len() > 1);
    assert!(chunks[0].len() <= 10);
}

#[test]
fn chinese_sentence_split_no_panic() {
    let text = "今天天气很好。我们一起去公园散步。然后回家吃饭休息。最后按时睡觉。";
    let chunks = chunk_text(text, 50, 0);
    assert!(chunks.len() >= 1);
    assert!(chunks.iter().all(|c| !c.is_empty()));
    assert!(chunks.iter().any(|c| c.contains('。')));
}

#[test]
fn chinese_overlap_no_panic() {
    let text = "第一段内容描述。\n\n第二段内容描述。\n\n第三段内容描述。\n\n第四段内容描述。";
    let chunks = chunk_text(text, 30, 5);
    assert!(chunks.len() >= 1);
    assert!(chunks.iter().all(|c| !c.is_empty()));
}

#[test]
fn chinese_sentence_overlap_no_panic() {
    let text = "今天天气很好。我们一起去公园散步。然后回家吃饭休息。最后按时睡觉。";
    let chunks = chunk_text(text, 40, 7);
    assert!(chunks.len() >= 1);
    assert!(chunks.iter().all(|c| !c.is_empty()));
}

#[test]
fn fixed_window_exact_pieces() {
    // 26 bytes, window 10, overlap 3: starts at 0, 7, 14, 21
    let chunks = chunk_text("abcdefghijklmnopqrstuvwxyz", 10, 3);
    assert_eq!(chunks, vec!["abcdefghij", "hijklmnopq", "opqrstuvwx", "vwxyz"]);
}

#[test]
fn fixed_window_cut_inside_character() {
    // each char is 3 bytes; window 4, no overlap: [0,4) keeps "中"; the windows
    // starting at bytes 4 and 8 begin inside "文" and "字"
    let chunks = chunk_text("中文字", 4, 0);
    assert_eq!(chunks, vec!["中", "\u{FFFD}\u{FFFD}", "\u{FFFD}"]);
}

#[test]
fn paragraph_pass_packs_and_overlaps() {
    let chunks = chunk_text("aaaa\n\nbbbb\n\ncccc", 10, 2);
    assert_eq!(chunks, vec!["aaaa\n\nbbbb", "bb\n\n\n\ncccc"]);
}

#[test]
fn sentence_pass_keeps_terminators() {
    let chunks = chunk_text("One. Two. Three.", 10, 0);
    assert_eq!(chunks, vec!["One. Two.", "Three."]);
}

#[test]
fn chunks_are_trimmed() {
    let chunks = chunk_text("  alpha  \n\n  beta  \n\n  gamma  ", 12, 0);
    assert!(chunks.iter().all(|c| c.trim() == c.as_str()));
}
