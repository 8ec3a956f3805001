use prism_agent::meeting_prompts::{
    clean_transcript_prompt, needs_map_reduce, push_message, push_session_title, qa_prompt,
    summary_input, summary_map_prompt, summary_once_prompt, summary_reduce_prompt,
    translate_transcript_prompt, MeetingTextError,
};
use prism_agent::models::{Meeting, TranscriptSegment};

fn m() -> Meeting {
    Meeting {
        id: "m1".into(),
        title: "周会".into(),
        date: "2024-05-01".into(),
        transcript: String::new(),
        summary: "要点".into(),
        participants: vec!["张三".into(), "李四".into()],
        recording_duration: 60,
        status: "done".into(),
        created_at: 0,
        updated_at: 0,
    }
}

fn seg(t: &str) -> TranscriptSegment {
    TranscriptSegment { index: 0, text: t.into(), is_final: true, translated: None, speaker_id: Some(1) }
}

#[test]
fn summary_material_and_prompts() {
    assert_eq!(summary_input(&m(), &vec![]), Err(MeetingTextError::NoTranscriptForSummary));
    let s = summary_input(&m(), &vec![seg("a"), seg("b")]).unwrap();
    assert_eq!(s, "会议标题：周会\n参会人：张三, 李四\n\n转写内容：\na\nb");
    assert!(!needs_map_reduce(&s));
    assert!(needs_map_reduce(&"字".repeat(30_001)));
    assert!(summary_once_prompt("X").starts_with("你是一个会议纪要整理助手。根据以下会议内容生成结构化摘要。\n\nX\n\n输出 Markdown 格式：\n## 主题"));
    assert!(summary_map_prompt("片段").ends_with("只输出要点，不要重复原文。\n\n片段"));
    assert_eq!(
        summary_reduce_prompt(&vec!["一".into(), "二".into()]),
        "以下是同一会议的多个片段要点。将它们合并为一份完整、去重的结构化会议摘要。\n\n一\n\n---\n\n二"
    );
    assert!(summary_map_prompt(&"长".repeat(28_001)).ends_with("长…[已截断]"));
}

#[test]
fn translation_clean_qa_and_push() {
    assert_eq!(translate_transcript_prompt("英文", &vec![]), Err(MeetingTextError::NoTranscript));
    assert_eq!(
        translate_transcript_prompt("英文", &vec![seg("你好")]).unwrap(),
        "将以下会议转写翻译成英文。保留原意、专有名词和术语。输出翻译后的文本。\n\n你好"
    );
    assert_eq!(clean_transcript_prompt(&vec![seg("  ")]), Err(MeetingTextError::NoTranscript));
    assert!(clean_transcript_prompt(&vec![seg("嗯")]).unwrap().ends_with("\n\n嗯"));
    assert_eq!(
        qa_prompt(&m(), &vec![seg("x")], "结论？"),
        "基于以下会议内容回答用户问题。\n\n标题：周会\n参会人：张三, 李四\n\n转写：\nx\n\n摘要：\n要点\n\n问题：结论？\n\n回答："
    );
    assert_eq!(
        push_message(&m(), &vec![seg("x"), seg("y")]),
        "[会议纪要推送] 标题：周会\n日期：2024-05-01\n参会人：张三, 李四\n\n转写：\nx\ny\n\n摘要：\n要点"
    );
    assert_eq!(push_session_title(&m()), "会议：周会");
    assert_eq!(MeetingTextError::NoTranscript.message(), "暂无转写内容");
}
