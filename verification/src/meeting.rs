//! Meeting transcripts: speaker labels, the recording header, summary
//! chunking and the export documents.
use vstd::prelude::*;

use crate::models::{Meeting, TranscriptSegment};
use crate::text::{
    chars_of, decimal, decimal_chars, extend_chars, find_char, find_from, join_strings, join_with,
    lemma_find_from_range, lemma_split_at_char, slice_chars, split_at_char, string_from,
    string_views, trim, trimmed,
};

verus! {

/// The label put before a transcript segment: `[说话人 N] ` when the
/// recogniser identified a speaker, nothing otherwise.
pub open spec fn speaker_label(speaker_id: Option<u32>) -> Seq<char> {
    match speaker_id {
        Some(n) => "[说话人 "@ + decimal(n as nat) + "] "@,
        None => seq![],
    }
}

/// The speaker label of a transcript segment.
pub fn speaker_prefix(speaker_id: Option<u32>) -> (r: String)
    ensures
        r@ == speaker_label(speaker_id),
{
    match speaker_id {
        Some(n) => {
            let mut out: Vec<char> = Vec::new();
            extend_chars(&mut out, &chars_of("[说话人 "));
            extend_chars(&mut out, &decimal_chars(n as u64));
            extend_chars(&mut out, &chars_of("] "));
            string_from(&out)
        },
        None => String::new(),
    }
}

/// `s` cut to its first `max` characters, with a truncation mark, when it is
/// longer than that.
pub open spec fn truncated_text(s: Seq<char>, max: nat) -> Seq<char> {
    if s.len() <= max {
        s
    } else {
        s.take(max as int) + "…[已截断]"@
    }
}

/// Cuts `s` to at most `max` characters (then marks the cut).
pub fn truncate_chars(s: &str, max: usize) -> (r: String)
    ensures
        r@ == truncated_text(s@, max as nat),
{
    let cs = chars_of(s);
    if cs.len() <= max {
        string_from(&cs)
    } else {
        let mut head = slice_chars(&cs, 0, max);
        assert(head@ =~= s@.take(max as int));
        extend_chars(&mut head, &chars_of("…[已截断]"));
        string_from(&head)
    }
}

/// The WAV header written before a live recording.
pub fn pcm_to_wav_header() -> (wav: Vec<u8>)
    ensures
        wav@ == seq![
            0x52u8, 0x49, 0x46, 0x46, 0, 0, 0, 0, 0x57, 0x41, 0x56, 0x45, 0x66, 0x6d, 0x74, 0x20,
            16, 0, 0, 0, 1, 0, 1, 0, 0x80, 0x3e, 0, 0, 0x00, 0x7d, 0, 0, 2, 0, 16, 0,
            0x64, 0x61, 0x74, 0x61, 0, 0, 0, 0,
        ],
        wav@.len() == 44,
{
    let sample_rate: u32 = 16000;
    let channels: u16 = 1;
    let bits_per_sample: u16 = 16;
    let byte_rate: u32 = sample_rate * (channels as u32) * ((bits_per_sample / 8) as u32);
    let block_align: u16 = channels * (bits_per_sample / 8);
    let mut wav: Vec<u8> = Vec::new();
    wav.push(0x52);
    wav.push(0x49);
    wav.push(0x46);
    wav.push(0x46);
    push_u32(&mut wav, 0);
    wav.push(0x57);
    wav.push(0x41);
    wav.push(0x56);
    wav.push(0x45);
    wav.push(0x66);
    wav.push(0x6d);
    wav.push(0x74);
    wav.push(0x20);
    push_u32(&mut wav, 16);
    push_u16(&mut wav, 1);
    push_u16(&mut wav, channels);
    push_u32(&mut wav, sample_rate);
    push_u32(&mut wav, byte_rate);
    push_u16(&mut wav, block_align);
    push_u16(&mut wav, bits_per_sample);
    wav.push(0x64);
    wav.push(0x61);
    wav.push(0x74);
    wav.push(0x61);
    push_u32(&mut wav, 0);
    assert(wav@ =~= seq![
        0x52u8, 0x49, 0x46, 0x46, 0, 0, 0, 0, 0x57, 0x41, 0x56, 0x45, 0x66, 0x6d, 0x74, 0x20,
        16, 0, 0, 0, 1, 0, 1, 0, 0x80, 0x3e, 0, 0, 0x00, 0x7d, 0, 0, 2, 0, 16, 0,
        0x64, 0x61, 0x74, 0x61, 0, 0, 0, 0,
    ]);
    wav
}

/// Appends the little-endian bytes of `x`.
fn push_u32(v: &mut Vec<u8>, x: u32)
    ensures
        final(v)@ == old(v)@ + seq![(x % 256) as u8, ((x / 256) % 256) as u8, ((x / 65536) % 256) as u8, (x / 16777216) as u8],
{
    assert((x & 0xff) as u8 == (x % 256) as u8) by (bit_vector);
    assert(((x >> 8) & 0xff) as u8 == ((x / 256) % 256) as u8) by (bit_vector);
    assert(((x >> 16) & 0xff) as u8 == ((x / 65536) % 256) as u8) by (bit_vector);
    assert(((x >> 24) & 0xff) as u8 == (x / 16777216) as u8) by (bit_vector);
    v.push((x & 0xff) as u8);
    v.push(((x >> 8) & 0xff) as u8);
    v.push(((x >> 16) & 0xff) as u8);
    v.push(((x >> 24) & 0xff) as u8);
    assert(final(v)@ =~= old(v)@ + seq![(x % 256) as u8, ((x / 256) % 256) as u8, ((x / 65536) % 256) as u8, (x / 16777216) as u8]);
}

/// Appends the little-endian bytes of `x`.
fn push_u16(v: &mut Vec<u8>, x: u16)
    ensures
        final(v)@ == old(v)@ + seq![(x % 256) as u8, (x / 256) as u8],
{
    assert((x & 0xff) as u8 == (x % 256) as u8) by (bit_vector);
    assert(((x >> 8) & 0xff) as u8 == (x / 256) as u8) by (bit_vector);
    v.push((x & 0xff) as u8);
    v.push(((x >> 8) & 0xff) as u8);
    assert(final(v)@ =~= old(v)@ + seq![(x % 256) as u8, (x / 256) as u8]);
}

/// Each segment's speaker label and text.
pub open spec fn labelled_lines(segs: Seq<TranscriptSegment>) -> Seq<Seq<char>> {
    segs.map_values(|s: TranscriptSegment| speaker_label(s.speaker_id) + s.text@)
}

/// The full transcript: one line per segment, each with its speaker label.
pub fn transcript_text(segments: &Vec<TranscriptSegment>) -> (r: String)
    ensures
        r@ == join_with(labelled_lines(segments@), seq!['\n']),
{
    let mut lines: Vec<String> = Vec::new();
    let mut i: usize = 0;
    while i < segments.len()
        invariant
            i <= segments@.len(),
            string_views(lines@) == labelled_lines(segments@.take(i as int)),
        decreases segments@.len() - i,
    {
        let ghost before = lines@;
        let p = speaker_prefix(segments[i].speaker_id);
        let mut line = chars_of(p.as_str());
        extend_chars(&mut line, &chars_of(segments[i].text.as_str()));
        lines.push(string_from(&line));
        assert(string_views(lines@) =~= string_views(before).push(line@));
        assert(labelled_lines(segments@.take(i + 1)) =~= labelled_lines(segments@.take(i as int)).push(line@));
        i += 1;
    }
    assert(segments@.take(segments@.len() as int) =~= segments@);
    let out = join_strings(&lines, "\n");
    assert("\n"@ =~= seq!['\n']) by {
        reveal_strlit("\n");
    }
    string_from(&out)
}

/// The characters a summary chunk may hold before a new one is started.
pub open spec fn summary_chunk_limit() -> nat {
    28000
}

/// One step of the summary chunking: close the current chunk when the next
/// piece (and its newline) would not fit, then append the piece.
pub open spec fn chunk_step(st: (Seq<Seq<char>>, Seq<char>), p: Seq<char>) -> (Seq<Seq<char>>, Seq<char>) {
    let (chunks, cur) = st;
    let (chunks1, cur1) = if cur.len() + p.len() + 1 > summary_chunk_limit() && cur.len() > 0 {
        (chunks.push(cur), Seq::<char>::empty())
    } else {
        (chunks, cur)
    };
    let cur2 = if cur1.len() > 0 {
        cur1.push('\n')
    } else {
        cur1
    };
    (chunks1, cur2 + p)
}

/// The chunking state after the given pieces.
pub open spec fn chunk_run(pieces: Seq<Seq<char>>) -> (Seq<Seq<char>>, Seq<char>)
    decreases pieces.len(),
{
    if pieces.len() == 0 {
        (seq![], seq![])
    } else {
        chunk_step(chunk_run(pieces.drop_last()), pieces.last())
    }
}

/// The chunks a long transcript is summarised in: its lines packed in order,
/// a chunk closed before it would exceed the limit.
pub open spec fn summary_chunks_of(full: Seq<char>) -> Seq<Seq<char>> {
    let (chunks, cur) = chunk_run(split_at_char(full, '\n', 0));
    if cur.len() > 0 {
        chunks.push(cur)
    } else {
        chunks
    }
}

/// Splits a long transcript into chunks along line boundaries.
pub fn summary_chunks(full: &str) -> (r: Vec<String>)
    ensures
        string_views(r@) == summary_chunks_of(full@),
{
    let cs = chars_of(full);
    let mut chunks: Vec<String> = Vec::new();
    let mut cur: Vec<char> = Vec::new();
    let mut pos: usize = 0;
    let mut done = false;
    let ghost all = split_at_char(cs@, '\n', 0);
    let ghost mut k: int = 0;
    assert(string_views(chunks@) =~= seq![]);
    assert(all.take(0) =~= seq![]);
    while !done
        invariant
            cs@ == full@,
            all == split_at_char(cs@, '\n', 0),
            pos <= cs@.len(),
            0 <= k <= all.len(),
            !done ==> all.skip(k) == split_at_char(cs@, '\n', pos as int),
            done ==> k == all.len(),
            (string_views(chunks@), cur@) == chunk_run(all.take(k)),
        decreases cs@.len() + 1 - pos + if done { 0int } else { 1int },
    {
        proof {
            lemma_split_at_char(cs@, '\n', pos as int);
        }
        let found = find_char(&cs, '\n', pos);
        let end = match found {
            Some(i) => i,
            None => cs.len(),
        };
        let next: usize = if end < cs.len() {
            end + 1
        } else {
            end
        };
        let piece = slice_chars(&cs, pos, end);
        proof {
            lemma_find_from_range(cs@, '\n', pos as int);
            assert(all.skip(k)[0] == piece@);
            assert(all.take(k + 1).drop_last() =~= all.take(k));
            assert(all.take(k + 1).last() == all.skip(k)[0]);
        }
        let limit: usize = 28000;
        if cur.len() > 0 && (cur.len() >= limit || piece.len() >= limit - cur.len()) {
            let ghost before = chunks@;
            chunks.push(string_from(&cur));
            assert(string_views(chunks@) =~= string_views(before).push(cur@));
            cur = Vec::new();
        }
        if cur.len() > 0 {
            cur.push('\n');
        }
        extend_chars(&mut cur, &piece);
        proof {
            k = k + 1;
        }
        match found {
            Some(_) => {
                proof {
                    assert(all.skip(k) =~= all.skip(k - 1).drop_first());
                }
                pos = next;
            },
            None => {
                proof {
                    assert(all.skip(k - 1).len() == 1);
                }
                done = true;
            },
        }
    }
    assert(all.take(k) =~= all);
    if cur.len() > 0 {
        let ghost before = chunks@;
        chunks.push(string_from(&cur));
        assert(string_views(chunks@) =~= string_views(before).push(cur@));
    }
    chunks
}

/// Why an export was refused.
#[derive(Debug, Clone, Copy, PartialEq, Eq, Structural)]
pub enum ExportError {
    /// Only Markdown and plain text are supported.
    UnsupportedFormat,
}

impl ExportError {
    /// The message shown to the user.
    pub fn message(&self) -> (m: &'static str)
        ensures
            m@ == "仅支持 markdown / text 格式"@,
    {
        "仅支持 markdown / text 格式"
    }
}

/// The Markdown lines of the transcript: label, text and a blank line each.
pub open spec fn markdown_segments(segs: Seq<TranscriptSegment>) -> Seq<char>
    decreases segs.len(),
{
    if segs.len() == 0 {
        seq![]
    } else {
        markdown_segments(segs.drop_last()) + speaker_label(segs.last().speaker_id)
            + segs.last().text@ + "\n\n"@
    }
}

/// The plain-text lines of the transcript: each text and a newline.
pub open spec fn text_segments(segs: Seq<TranscriptSegment>) -> Seq<char>
    decreases segs.len(),
{
    if segs.len() == 0 {
        seq![]
    } else {
        text_segments(segs.drop_last()) + segs.last().text@ + "\n"@
    }
}

/// The summary goes into the export when asked for (the default) and not
/// blank.
pub open spec fn shows_summary(m: Meeting, include_summary: Option<bool>) -> bool {
    (match include_summary {
        Some(b) => b,
        None => true,
    }) && trim(m.summary@).len() > 0
}

/// The Markdown export: title, date, participants, duration when recorded,
/// the labelled transcript, then the summary and the translation if present.
pub open spec fn markdown_export(
    m: Meeting,
    segs: Seq<TranscriptSegment>,
    include_summary: Option<bool>,
    translated: Option<Seq<char>>,
) -> Seq<char> {
    "# "@ + m.title@ + "\n\n"@ + "- **日期**: "@ + m.date@ + "\n"@ + "- **参会人**: "@ + join_with(
        string_views(m.participants@),
        ", "@,
    ) + "\n"@ + (if m.recording_duration > 0 {
        "- **录音时长**: "@ + decimal(m.recording_duration as nat) + "s\n"@
    } else {
        seq![]
    }) + "\n---\n\n## 转写\n\n"@ + markdown_segments(segs) + (if shows_summary(m, include_summary) {
        "## 摘要\n\n"@ + m.summary@ + "\n\n"@
    } else {
        seq![]
    }) + (match translated {
        Some(t) => "## 翻译稿\n\n"@ + t + "\n"@,
        None => seq![],
    })
}

/// The plain-text export: title and date, participants, a rule, the
/// transcript texts, then the summary if shown.
pub open spec fn text_export(m: Meeting, segs: Seq<TranscriptSegment>, include_summary: Option<bool>) -> Seq<char> {
    m.title@ + " ("@ + m.date@ + ")\n"@ + "参会人: "@ + join_with(string_views(m.participants@), ", "@)
        + "\n"@ + "----------------------\n"@ + text_segments(segs) + (if shows_summary(
        m,
        include_summary,
    ) {
        "\n===== 摘要 =====\n"@ + m.summary@ + "\n"@
    } else {
        seq![]
    })
}

/// The export in the named format (`markdown`/`md` or `text`/`txt`).
pub open spec fn export_of(
    m: Meeting,
    segs: Seq<TranscriptSegment>,
    format: Seq<char>,
    include_summary: Option<bool>,
    translated: Option<Seq<char>>,
) -> Result<Seq<char>, ExportError> {
    if format == "markdown"@ || format == "md"@ {
        Ok(markdown_export(m, segs, include_summary, translated))
    } else if format == "text"@ || format == "txt"@ {
        Ok(text_export(m, segs, include_summary))
    } else {
        Err(ExportError::UnsupportedFormat)
    }
}

/// Appends a string literal or slice.
fn push_str(out: &mut Vec<char>, s: &str)
    ensures
        final(out)@ == old(out)@ + s@,
{
    let cs = chars_of(s);
    extend_chars(out, &cs);
}

/// Whether the summary goes into the export.
fn summary_shown(meeting: &Meeting, include_summary: Option<bool>) -> (r: bool)
    ensures
        r == shows_summary(*meeting, include_summary),
{
    let inc_summary = match include_summary {
        Some(b) => b,
        None => true,
    };
    let summary_chars = chars_of(meeting.summary.as_str());
    inc_summary && trimmed(&summary_chars).len() > 0
}

/// The Markdown export.
fn render_markdown(
    meeting: &Meeting,
    transcript: &Vec<TranscriptSegment>,
    include_summary: Option<bool>,
    translated: Option<String>,
) -> (r: String)
    ensures
        r@ == markdown_export(
            *meeting,
            transcript@,
            include_summary,
            match translated {
                Some(t) => Some(t@),
                None => None,
            },
        ),
{
    let show_summary = summary_shown(meeting, include_summary);
    let participants = join_strings(&meeting.participants, ", ");
    let mut out: Vec<char> = Vec::new();
    push_str(&mut out, "# ");
    push_str(&mut out, meeting.title.as_str());
    push_str(&mut out, "\n\n");
    push_str(&mut out, "- **日期**: ");
    push_str(&mut out, meeting.date.as_str());
    push_str(&mut out, "\n");
    push_str(&mut out, "- **参会人**: ");
    extend_chars(&mut out, &participants);
    push_str(&mut out, "\n");
    if meeting.recording_duration > 0 {
        push_str(&mut out, "- **录音时长**: ");
        extend_chars(&mut out, &decimal_chars(meeting.recording_duration as u64));
        push_str(&mut out, "s\n");
    }
    push_str(&mut out, "\n---\n\n## 转写\n\n");
    let ghost head = out@;
    assert(head =~= "# "@ + meeting.title@ + "\n\n"@ + "- **日期**: "@ + meeting.date@ + "\n"@
        + "- **参会人**: "@ + join_with(string_views(meeting.participants@), ", "@) + "\n"@ + (
    if meeting.recording_duration > 0 {
        "- **录音时长**: "@ + decimal(meeting.recording_duration as nat) + "s\n"@
    } else {
        seq![]
    }) + "\n---\n\n## 转写\n\n"@);
    let mut i: usize = 0;
    while i < transcript.len()
        invariant
            i <= transcript@.len(),
            out@ == head + markdown_segments(transcript@.take(i as int)),
        decreases transcript@.len() - i,
    {
        assert(transcript@.take(i + 1).drop_last() =~= transcript@.take(i as int));
        let p = speaker_prefix(transcript[i].speaker_id);
        push_str(&mut out, p.as_str());
        push_str(&mut out, transcript[i].text.as_str());
        push_str(&mut out, "\n\n");
        i += 1;
    }
    assert(transcript@.take(transcript@.len() as int) =~= transcript@);
    let ghost body = out@;
    if show_summary {
        push_str(&mut out, "## 摘要\n\n");
        push_str(&mut out, meeting.summary.as_str());
        push_str(&mut out, "\n\n");
    }
    let ghost sum_part = if shows_summary(*meeting, include_summary) {
        "## 摘要\n\n"@ + meeting.summary@ + "\n\n"@
    } else {
        Seq::<char>::empty()
    };
    assert(out@ =~= body + sum_part);
    let ghost mid = out@;
    match &translated {
        Some(t) => {
            push_str(&mut out, "## 翻译稿\n\n");
            push_str(&mut out, t.as_str());
            push_str(&mut out, "\n");
            assert(out@ =~= mid + ("## 翻译稿\n\n"@ + t@ + "\n"@));
        },
        None => {
            assert(out@ =~= mid + Seq::<char>::empty());
        },
    }
    string_from(&out)
}

/// The plain-text export.
fn render_text(meeting: &Meeting, transcript: &Vec<TranscriptSegment>, include_summary: Option<bool>) -> (r: String)
    ensures
        r@ == text_export(*meeting, transcript@, include_summary),
{
    let show_summary = summary_shown(meeting, include_summary);
    let participants = join_strings(&meeting.participants, ", ");
    let mut out: Vec<char> = Vec::new();
    push_str(&mut out, meeting.title.as_str());
    push_str(&mut out, " (");
    push_str(&mut out, meeting.date.as_str());
    push_str(&mut out, ")\n");
    push_str(&mut out, "参会人: ");
    extend_chars(&mut out, &participants);
    push_str(&mut out, "\n");
    push_str(&mut out, "----------------------\n");
    let ghost head = out@;
    assert(head =~= meeting.title@ + " ("@ + meeting.date@ + ")\n"@ + "参会人: "@ + join_with(
        string_views(meeting.participants@),
        ", "@,
    ) + "\n"@ + "----------------------\n"@);
    let mut i: usize = 0;
    while i < transcript.len()
        invariant
            i <= transcript@.len(),
            out@ == head + text_segments(transcript@.take(i as int)),
        decreases transcript@.len() - i,
    {
        assert(transcript@.take(i + 1).drop_last() =~= transcript@.take(i as int));
        push_str(&mut out, transcript[i].text.as_str());
        push_str(&mut out, "\n");
        i += 1;
    }
    assert(transcript@.take(transcript@.len() as int) =~= transcript@);
    let ghost body = out@;
    if show_summary {
        push_str(&mut out, "\n===== 摘要 =====\n");
        push_str(&mut out, meeting.summary.as_str());
        push_str(&mut out, "\n");
        assert(out@ =~= body + ("\n===== 摘要 =====\n"@ + meeting.summary@ + "\n"@));
    } else {
        assert(out@ =~= body + Seq::<char>::empty());
    }
    string_from(&out)
}

/// Renders a meeting for export.  `translated` is the saved translation, when
/// one was asked for and found.
pub fn render_export(
    meeting: &Meeting,
    transcript: &Vec<TranscriptSegment>,
    format: &str,
    include_summary: Option<bool>,
    translated: Option<String>,
) -> (r: Result<String, ExportError>)
    ensures
        match r {
            Ok(s) => export_of(
                *meeting,
                transcript@,
                format@,
                include_summary,
                match translated {
                    Some(t) => Some(t@),
                    None => None,
                },
            ) == Ok::<Seq<char>, ExportError>(s@),
            Err(e) => export_of(
                *meeting,
                transcript@,
                format@,
                include_summary,
                match translated {
                    Some(t) => Some(t@),
                    None => None,
                },
            ) == Err::<Seq<char>, ExportError>(e),
        },
{
    if crate::text::str_eq(format, "markdown") || crate::text::str_eq(format, "md") {
        Ok(render_markdown(meeting, transcript, include_summary, translated))
    } else if crate::text::str_eq(format, "text") || crate::text::str_eq(format, "txt") {
        Ok(render_text(meeting, transcript, include_summary))
    } else {
        Err(ExportError::UnsupportedFormat)
    }
}

} // verus!
