//! The texts a meeting sends to the model (summary, translation, clean-up,
//! questions) and the message pushed to an agent.
use vstd::prelude::*;

use crate::meeting::{truncate_chars, truncated_text};
use crate::models::{Meeting, TranscriptSegment};
use crate::text::{chars_of, extend_chars, join_strings, join_with, string_from, string_views, trim, trimmed};

verus! {

/// Why a meeting text could not be built.
#[derive(Debug, Clone, Copy, PartialEq, Eq, Structural)]
pub enum MeetingTextError {
    /// No transcript to summarise.
    NoTranscriptForSummary,
    /// No transcript.
    NoTranscript,
}

impl MeetingTextError {
    /// The message shown for the error.
    pub fn message(&self) -> (m: &'static str)
        ensures
            m@ == match self {
                MeetingTextError::NoTranscriptForSummary => "暂无转写内容，无法生成摘要"@,
                MeetingTextError::NoTranscript => "暂无转写内容"@,
            },
    {
        match self {
            MeetingTextError::NoTranscriptForSummary => "暂无转写内容，无法生成摘要",
            MeetingTextError::NoTranscript => "暂无转写内容",
        }
    }
}

/// The texts of the segments, one per line.
pub open spec fn plain_transcript(segs: Seq<TranscriptSegment>) -> Seq<char> {
    join_with(segs.map_values(|s: TranscriptSegment| s.text@), "\n"@)
}

/// The texts of the segments, one per line.
pub fn transcript_lines(segs: &Vec<TranscriptSegment>) -> (r: Vec<char>)
    ensures
        r@ == plain_transcript(segs@),
{
    let ghost want = segs@.map_values(|s: TranscriptSegment| s.text@);
    let mut texts: Vec<String> = Vec::new();
    let mut i: usize = 0;
    while i < segs.len()
        invariant
            i <= segs@.len(),
            want == segs@.map_values(|s: TranscriptSegment| s.text@),
            texts@.len() == i,
            forall|j: int| 0 <= j < i ==> #[trigger] texts@[j]@ == want[j],
        decreases segs@.len() - i,
    {
        texts.push(crate::text::owned(segs[i].text.as_str()));
        i += 1;
    }
    assert(string_views(texts@) =~= want);
    join_strings(&texts, "\n")
}

/// The participants, separated by commas.
pub open spec fn participants_text(m: Meeting) -> Seq<char> {
    join_with(m.participants@.map_values(|p: String| p@), ", "@)
}

/// The participants, separated by commas.
fn participants_of(m: &Meeting) -> (r: Vec<char>)
    ensures
        r@ == participants_text(*m),
{
    assert(string_views(m.participants@) =~= m.participants@.map_values(|p: String| p@));
    join_strings(&m.participants, ", ")
}

/// The material of a summary: title, participants and transcript.
pub open spec fn summary_material(m: Meeting, segs: Seq<TranscriptSegment>) -> Seq<char> {
    "会议标题："@ + m.title@ + "\n参会人："@ + participants_text(m) + "\n\n转写内容：\n"@ + plain_transcript(segs)
}

/// Builds the material of a summary; a meeting without transcript has none.
pub fn summary_input(m: &Meeting, segs: &Vec<TranscriptSegment>) -> (r: Result<String, MeetingTextError>)
    ensures
        segs@.len() == 0 ==> r == Err::<String, MeetingTextError>(MeetingTextError::NoTranscriptForSummary),
        segs@.len() > 0 ==> r is Ok && r.unwrap()@ == summary_material(*m, segs@),
{
    if segs.len() == 0 {
        return Err(MeetingTextError::NoTranscriptForSummary);
    }
    let mut out = chars_of("会议标题：");
    extend_chars(&mut out, &chars_of(m.title.as_str()));
    extend_chars(&mut out, &chars_of("\n参会人："));
    extend_chars(&mut out, &participants_of(m));
    extend_chars(&mut out, &chars_of("\n\n转写内容：\n"));
    extend_chars(&mut out, &transcript_lines(segs));
    Ok(string_from(&out))
}

/// Material longer than this many characters is summarised piece by piece.
pub const SUMMARY_SEGMENT_CHARS: usize = 30000;

/// Whether the material is summarised piece by piece (map-reduce).
pub fn needs_map_reduce(material: &str) -> (r: bool)
    ensures
        r == (material@.len() > SUMMARY_SEGMENT_CHARS),
{
    chars_of(material).len() > SUMMARY_SEGMENT_CHARS
}

/// The request for a summary in one go.
pub open spec fn summary_once_text(content: Seq<char>) -> Seq<char> {
    "你是一个会议纪要整理助手。根据以下会议内容生成结构化摘要。\n\n"@ + content
        + "\n\n输出 Markdown 格式：\n## 主题\n## 主要讨论\n## 关键决策\n## 待办事项（含负责人）\n## 行动项\n"@
}

/// Builds the request for a summary in one go.
pub fn summary_once_prompt(content: &str) -> (r: String)
    ensures
        r@ == summary_once_text(content@),
{
    let mut out = chars_of("你是一个会议纪要整理助手。根据以下会议内容生成结构化摘要。\n\n");
    extend_chars(&mut out, &chars_of(content));
    extend_chars(
        &mut out,
        &chars_of("\n\n输出 Markdown 格式：\n## 主题\n## 主要讨论\n## 关键决策\n## 待办事项（含负责人）\n## 行动项\n"),
    );
    string_from(&out)
}

/// The request that extracts the key points of one piece.
pub open spec fn summary_map_text(chunk: Seq<char>) -> Seq<char> {
    "从以下会议片段中抽取关键信息：主题要点、重要讨论、决策、待办事项（含负责人）、行动项。\n只输出要点，不要重复原文。\n\n"@
        + truncated_text(chunk, 28000)
}

/// Builds the request that extracts the key points of one piece.
pub fn summary_map_prompt(chunk: &str) -> (r: String)
    ensures
        r@ == summary_map_text(chunk@),
{
    let mut out = chars_of(
        "从以下会议片段中抽取关键信息：主题要点、重要讨论、决策、待办事项（含负责人）、行动项。\n只输出要点，不要重复原文。\n\n",
    );
    extend_chars(&mut out, &chars_of(truncate_chars(chunk, 28000).as_str()));
    string_from(&out)
}

/// The request that merges the pieces' key points.
pub open spec fn summary_reduce_text(partials: Seq<Seq<char>>) -> Seq<char> {
    "以下是同一会议的多个片段要点。将它们合并为一份完整、去重的结构化会议摘要。\n\n"@ + truncated_text(
        join_with(partials, "\n\n---\n\n"@),
        28000,
    )
}

/// Builds the request that merges the pieces' key points.
pub fn summary_reduce_prompt(partials: &Vec<String>) -> (r: String)
    ensures
        r@ == summary_reduce_text(string_views(partials@)),
{
    let joined = string_from(&join_strings(partials, "\n\n---\n\n"));
    let mut out = chars_of("以下是同一会议的多个片段要点。将它们合并为一份完整、去重的结构化会议摘要。\n\n");
    extend_chars(&mut out, &chars_of(truncate_chars(joined.as_str(), 28000).as_str()));
    string_from(&out)
}

/// The request that translates the transcript.
pub open spec fn translate_text(target_lang: Seq<char>, segs: Seq<TranscriptSegment>) -> Seq<char> {
    "将以下会议转写翻译成"@ + target_lang + "。保留原意、专有名词和术语。输出翻译后的文本。\n\n"@ + truncated_text(
        plain_transcript(segs),
        20000,
    )
}

/// Builds the request that translates the transcript; a meeting without
/// transcript has none.
pub fn translate_transcript_prompt(target_lang: &str, segs: &Vec<TranscriptSegment>) -> (r: Result<String, MeetingTextError>)
    ensures
        segs@.len() == 0 ==> r == Err::<String, MeetingTextError>(MeetingTextError::NoTranscript),
        segs@.len() > 0 ==> r is Ok && r.unwrap()@ == translate_text(target_lang@, segs@),
{
    if segs.len() == 0 {
        return Err(MeetingTextError::NoTranscript);
    }
    let t = string_from(&transcript_lines(segs));
    let mut out = chars_of("将以下会议转写翻译成");
    extend_chars(&mut out, &chars_of(target_lang));
    extend_chars(&mut out, &chars_of("。保留原意、专有名词和术语。输出翻译后的文本。\n\n"));
    extend_chars(&mut out, &chars_of(truncate_chars(t.as_str(), 20000).as_str()));
    Ok(string_from(&out))
}

/// The request that cleans up the transcript.
pub open spec fn clean_text(segs: Seq<TranscriptSegment>) -> Seq<char> {
    "你是会议转写清洗助手。修正以下转写中的错别字、补充标点、按语义分段，保留原意。\n只输出清洗后的 Markdown 文本。\n\n"@
        + truncated_text(plain_transcript(segs), 20000)
}

/// Builds the request that cleans up the transcript; a blank transcript
/// has none.
pub fn clean_transcript_prompt(segs: &Vec<TranscriptSegment>) -> (r: Result<String, MeetingTextError>)
    ensures
        trim(plain_transcript(segs@)).len() == 0 ==> r == Err::<String, MeetingTextError>(MeetingTextError::NoTranscript),
        trim(plain_transcript(segs@)).len() > 0 ==> r is Ok && r.unwrap()@ == clean_text(segs@),
{
    let raw = transcript_lines(segs);
    if trimmed(&raw).len() == 0 {
        return Err(MeetingTextError::NoTranscript);
    }
    let raw_s = string_from(&raw);
    let mut out = chars_of(
        "你是会议转写清洗助手。修正以下转写中的错别字、补充标点、按语义分段，保留原意。\n只输出清洗后的 Markdown 文本。\n\n",
    );
    extend_chars(&mut out, &chars_of(truncate_chars(raw_s.as_str(), 20000).as_str()));
    Ok(string_from(&out))
}

/// The question put to the model about a meeting.
pub open spec fn qa_text(m: Meeting, segs: Seq<TranscriptSegment>, question: Seq<char>) -> Seq<char> {
    "基于以下会议内容回答用户问题。\n\n标题："@ + m.title@ + "\n参会人："@ + participants_text(m) + "\n\n转写：\n"@
        + truncated_text(plain_transcript(segs), 20000) + "\n\n摘要：\n"@ + m.summary@ + "\n\n问题："@ + question
        + "\n\n回答："@
}

/// Builds the question put to the model about a meeting.
pub fn qa_prompt(m: &Meeting, segs: &Vec<TranscriptSegment>, question: &str) -> (r: String)
    ensures
        r@ == qa_text(*m, segs@, question@),
{
    let t = string_from(&transcript_lines(segs));
    let mut out = chars_of("基于以下会议内容回答用户问题。\n\n标题：");
    extend_chars(&mut out, &chars_of(m.title.as_str()));
    extend_chars(&mut out, &chars_of("\n参会人："));
    extend_chars(&mut out, &participants_of(m));
    extend_chars(&mut out, &chars_of("\n\n转写：\n"));
    extend_chars(&mut out, &chars_of(truncate_chars(t.as_str(), 20000).as_str()));
    extend_chars(&mut out, &chars_of("\n\n摘要：\n"));
    extend_chars(&mut out, &chars_of(m.summary.as_str()));
    extend_chars(&mut out, &chars_of("\n\n问题："));
    extend_chars(&mut out, &chars_of(question));
    extend_chars(&mut out, &chars_of("\n\n回答："));
    string_from(&out)
}

/// The message a meeting pushes into an agent's session.
pub open spec fn push_text(m: Meeting, segs: Seq<TranscriptSegment>) -> Seq<char> {
    "[会议纪要推送] 标题："@ + m.title@ + "\n日期："@ + m.date@ + "\n参会人："@ + participants_text(m)
        + "\n\n转写：\n"@ + plain_transcript(segs) + "\n\n摘要：\n"@ + m.summary@
}

/// Builds the message a meeting pushes into an agent's session.
pub fn push_message(m: &Meeting, segs: &Vec<TranscriptSegment>) -> (r: String)
    ensures
        r@ == push_text(*m, segs@),
{
    let mut out = chars_of("[会议纪要推送] 标题：");
    extend_chars(&mut out, &chars_of(m.title.as_str()));
    extend_chars(&mut out, &chars_of("\n日期："));
    extend_chars(&mut out, &chars_of(m.date.as_str()));
    extend_chars(&mut out, &chars_of("\n参会人："));
    extend_chars(&mut out, &participants_of(m));
    extend_chars(&mut out, &chars_of("\n\n转写：\n"));
    extend_chars(&mut out, &transcript_lines(segs));
    extend_chars(&mut out, &chars_of("\n\n摘要：\n"));
    extend_chars(&mut out, &chars_of(m.summary.as_str()));
    string_from(&out)
}

/// The title of a session opened for a pushed meeting.
pub fn push_session_title(m: &Meeting) -> (r: String)
    ensures
        r@ == "会议："@ + m.title@,
{
    let mut out = chars_of("会议：");
    extend_chars(&mut out, &chars_of(m.title.as_str()));
    string_from(&out)
}

} // verus!
