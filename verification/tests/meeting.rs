use prism_agent::meeting::{
    pcm_to_wav_header, render_export, speaker_prefix, summary_chunks, transcript_text,
    truncate_chars, ExportError,
};
use prism_agent::models::{Meeting, TranscriptSegment};

fn seg(text: &str, speaker: Option<u32>) -> TranscriptSegment {
    TranscriptSegment {
        index: 0,
        text: text.to_string(),
        is_final: true,
        translated: None,
        speaker_id: speaker,
    }
}

fn meeting(summary: &str, duration: i32) -> Meeting {
    Meeting {
        id: "m1".into(),
        title: "周会".into(),
        date: "2024-05-01".into(),
        transcript: String::new(),
        summary: summary.into(),
        participants: vec!["甲".into(), "乙".into()],
        recording_duration: duration,
        status: "done".into(),
        created_at: 0,
        updated_at: 0,
    }
}

#[test]
fn speaker_prefix_labels() {
    assert_eq!(speaker_prefix(Some(3)), "[说话人 3] ");
    assert_eq!(speaker_prefix(Some(12)), "[说话人 12] ");
    assert_eq!(speaker_prefix(None), "");
}

#[test]
fn truncate_chars_marks_cut() {
    assert_eq!(truncate_chars("abc", 3), "abc");
    assert_eq!(truncate_chars("会议纪要", 2), "会议…[已截断]");
}

#[test]
fn streaming_wav_header_layout() {
    let h = pcm_to_wav_header();
    assert_eq!(h.len(), 44);
    assert_eq!(&h[0..4], b"RIFF");
    assert_eq!(&h[4..8], &[0, 0, 0, 0]);
    assert_eq!(&h[24..28], &16000u32.to_le_bytes());
    assert_eq!(&h[28..32], &32000u32.to_le_bytes());
    assert_eq!(&h[36..40], b"data");
}

#[test]
fn transcript_text_joins_labelled_lines() {
    let t = transcript_text(&vec![seg("你好", Some(1)), seg("hi", None)]);
    assert_eq!(t, "[说话人 1] 你好\nhi");
    assert_eq!(transcript_text(&vec![]), "");
}

#[test]
fn summary_chunks_pack_lines() {
    assert_eq!(summary_chunks("a\nb"), vec!["a\nb"]);
    let long = "x".repeat(20000);
    let full = format!("{long}\n{long}\nend");
    let chunks = summary_chunks(&full);
    assert_eq!(chunks.len(), 2);
    assert_eq!(chunks[0], long);
    assert_eq!(chunks[1], format!("{long}\nend"));
}

#[test]
fn export_markdown_and_text() {
    let m = meeting("要点", 90);
    let segs = vec![seg("开始", Some(2)), seg("结束", None)];
    let md = render_export(&m, &segs, "md", None, Some("translated".into())).unwrap();
    assert_eq!(
        md,
        "# 周会\n\n- **日期**: 2024-05-01\n- **参会人**: 甲, 乙\n- **录音时长**: 90s\n\n---\n\n## 转写\n\n[说话人 2] 开始\n\n结束\n\n## 摘要\n\n要点\n\n## 翻译稿\n\ntranslated\n"
    );
    let txt = render_export(&meeting("  ", 0), &segs, "txt", Some(true), None).unwrap();
    assert_eq!(txt, "周会 (2024-05-01)\n参会人: 甲, 乙\n----------------------\n开始\n结束\n");
    let r = render_export(&m, &segs, "pdf", None, None);
    assert_eq!(r, Err(ExportError::UnsupportedFormat));
    assert_eq!(ExportError::UnsupportedFormat.message(), "仅支持 markdown / text 格式");
}
