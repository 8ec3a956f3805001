//! Buffering of streamed audio for the HTTP recognition backends.
//!
//! Audio arrives as 16 kHz 16-bit mono PCM chunks.  The OpenAI-compatible
//! backend sends every 3 seconds of audio (96 000 bytes) and gets back the
//! full text so far, of which only the new part is reported.  The Whisper
//! backend sends 15-second slices that overlap by one second.  In both, what
//! is left when the stream ends is sent once more.
//!
//! The caller reads the stream, sends the audio and hands the replies back;
//! these types decide when to send what, and what to report.
use vstd::prelude::*;

use crate::asr::{asr_error_text, diff_text, text_increment, AsrError};
use crate::asr_backends::RecognizedSegment;
use crate::text::{chars_of, extend_chars, slice_chars, starts_with_chars, string_from, trim, trimmed};

verus! {

/// Bytes of audio per request of the OpenAI-compatible backend (3 s).
pub const MERGE_BYTES: usize = 96000;

/// Bytes per Whisper slice (15 s).
pub const SLICE_BYTES: usize = 480000;

/// Bytes kept from one Whisper slice to the next (1 s).
pub const SLICE_OVERLAP_BYTES: usize = 32000;

/// A final segment with the given index and text.
pub open spec fn final_segment(s: RecognizedSegment, index: u64, text: Seq<char>) -> bool {
    &&& s.index == index
    &&& s.text@ == text
    &&& s.is_final
    &&& s.start_ms == 0
    &&& s.end_ms == 0
    &&& s.speaker_id is None
}

/// The OpenAI-compatible backend's buffer: the audio not yet sent, the
/// index of the next segment, and the full text of the last reply.
#[derive(Debug, Clone)]
pub struct MergedStream {
    pub buf: Vec<u8>,
    pub index: u64,
    pub prev_full: String,
}

impl MergedStream {
    /// An empty buffer at segment 0.
    pub fn new() -> (r: MergedStream)
        ensures
            r.buf@.len() == 0,
            r.index == 0,
            r.prev_full@.len() == 0,
    {
        MergedStream { buf: Vec::new(), index: 0, prev_full: String::new() }
    }

    /// Takes a chunk of audio.  Once 3 seconds have gathered, returns all
    /// of the buffered audio to send and empties the buffer.
    pub fn push(&mut self, chunk: &[u8]) -> (r: Option<Vec<u8>>)
        ensures
            final(self).index == old(self).index,
            final(self).prev_full == old(self).prev_full,
            old(self).buf@.len() + chunk@.len() >= MERGE_BYTES ==> r is Some && r.unwrap()@ == old(self).buf@ + chunk@ && final(self).buf@.len() == 0,
            old(self).buf@.len() + chunk@.len() < MERGE_BYTES ==> r is None && final(self).buf@ == old(self).buf@ + chunk@,
    {
        let mut i: usize = 0;
        while i < chunk.len()
            invariant
                i <= chunk@.len(),
                self.buf@ == old(self).buf@ + chunk@.take(i as int),
                self.index == old(self).index,
                self.prev_full == old(self).prev_full,
            decreases chunk@.len() - i,
        {
            self.buf.push(chunk[i]);
            assert(chunk@.take(i + 1) =~= chunk@.take(i as int).push(chunk@[i as int]));
            i += 1;
        }
        assert(chunk@.take(chunk@.len() as int) =~= chunk@);
        if self.buf.len() >= MERGE_BYTES {
            let mut out: Vec<u8> = Vec::new();
            std::mem::swap(&mut out, &mut self.buf);
            Some(out)
        } else {
            None
        }
    }

    /// Takes the full text the backend returned for the audio sent so far:
    /// the part not seen before, when there is one, becomes the next final
    /// segment.
    pub fn transcribed(&mut self, full: String) -> (r: Option<RecognizedSegment>)
        requires
            old(self).index < u64::MAX,
        ensures
            final(self).buf == old(self).buf,
            final(self).prev_full@ == full@,
            text_increment(full@, old(self).prev_full@).len() == 0 ==> r is None && final(self).index == old(self).index,
            text_increment(full@, old(self).prev_full@).len() > 0 ==> r is Some && final_segment(
                r.unwrap(),
                old(self).index,
                text_increment(full@, old(self).prev_full@),
            ) && final(self).index == old(self).index + 1,
    {
        let new_text = diff_text(full.as_str(), self.prev_full.as_str());
        self.prev_full = full;
        if new_text.as_str().is_empty() {
            None
        } else {
            let seg = RecognizedSegment {
                index: self.index,
                text: new_text,
                is_final: true,
                start_ms: 0,
                end_ms: 0,
                speaker_id: None,
            };
            self.index = self.index + 1;
            Some(seg)
        }
    }

    /// The status reported when a request fails (the buffer was already
    /// handed out, so that audio is dropped).
    pub fn failure_status(e: &AsrError) -> (r: String)
        ensures
            r@ == "识别错误: "@ + asr_error_text(*e),
    {
        let mut out = chars_of("识别错误: ");
        extend_chars(&mut out, &chars_of(e.message().as_str()));
        string_from(&out)
    }

    /// At the end of the stream: the audio still buffered, if any.
    pub fn finish(&mut self) -> (r: Option<Vec<u8>>)
        ensures
            final(self).buf@.len() == 0,
            final(self).index == old(self).index,
            final(self).prev_full == old(self).prev_full,
            old(self).buf@.len() == 0 ==> r is None,
            old(self).buf@.len() > 0 ==> r is Some && r.unwrap()@ == old(self).buf@,
    {
        if self.buf.len() == 0 {
            None
        } else {
            let mut out: Vec<u8> = Vec::new();
            std::mem::swap(&mut out, &mut self.buf);
            Some(out)
        }
    }
}

/// The Whisper backend's buffer: the audio not yet sent and the index of
/// the next segment.
#[derive(Debug, Clone)]
pub struct SlicedStream {
    pub buf: Vec<u8>,
    pub index: u64,
}

impl SlicedStream {
    /// An empty buffer at segment 0.
    pub fn new() -> (r: SlicedStream)
        ensures
            r.buf@.len() == 0,
            r.index == 0,
    {
        SlicedStream { buf: Vec::new(), index: 0 }
    }

    /// Takes a chunk of audio.  Once 15 seconds have gathered, returns the
    /// first 15 seconds to send and keeps the buffer from 14 seconds on (one
    /// second of overlap with the next slice).
    pub fn push(&mut self, chunk: &[u8]) -> (r: Option<Vec<u8>>)
        ensures
            final(self).index == old(self).index,
            ({
                let all = old(self).buf@ + chunk@;
                &&& all.len() >= SLICE_BYTES ==> r is Some && r.unwrap()@ == all.take(SLICE_BYTES as int)
                    && final(self).buf@ == all.skip(SLICE_BYTES - SLICE_OVERLAP_BYTES)
                &&& all.len() < SLICE_BYTES ==> r is None && final(self).buf@ == all
            }),
    {
        let ghost all = self.buf@ + chunk@;
        let mut i: usize = 0;
        while i < chunk.len()
            invariant
                i <= chunk@.len(),
                all == old(self).buf@ + chunk@,
                self.buf@ == old(self).buf@ + chunk@.take(i as int),
                self.index == old(self).index,
            decreases chunk@.len() - i,
        {
            self.buf.push(chunk[i]);
            assert(chunk@.take(i + 1) =~= chunk@.take(i as int).push(chunk@[i as int]));
            i += 1;
        }
        assert(chunk@.take(chunk@.len() as int) =~= chunk@);
        assert(self.buf@ == all);
        let n = self.buf.len();
        if n >= SLICE_BYTES {
            let mut slice: Vec<u8> = Vec::new();
            let mut j: usize = 0;
            while j < SLICE_BYTES
                invariant
                    j <= SLICE_BYTES <= n,
                    n == self.buf@.len(),
                    slice@ == self.buf@.take(j as int),
                decreases SLICE_BYTES - j,
            {
                slice.push(self.buf[j]);
                assert(self.buf@.take(j + 1) =~= self.buf@.take(j as int).push(self.buf@[j as int]));
                j += 1;
            }
            let mut rest: Vec<u8> = Vec::new();
            let mut k: usize = SLICE_BYTES - SLICE_OVERLAP_BYTES;
            while k < n
                invariant
                    SLICE_BYTES - SLICE_OVERLAP_BYTES <= k <= n,
                    n == self.buf@.len(),
                    rest@ == self.buf@.subrange(SLICE_BYTES - SLICE_OVERLAP_BYTES, k as int),
                decreases n - k,
            {
                rest.push(self.buf[k]);
                assert(self.buf@.subrange(SLICE_BYTES - SLICE_OVERLAP_BYTES, k + 1) =~= self.buf@.subrange(
                    SLICE_BYTES - SLICE_OVERLAP_BYTES,
                    k as int,
                ).push(self.buf@[k as int]));
                k += 1;
            }
            assert(rest@ =~= all.skip(SLICE_BYTES - SLICE_OVERLAP_BYTES));
            self.buf = rest;
            Some(slice)
        } else {
            None
        }
    }

    /// Takes the text the backend returned for a slice: a non-empty text
    /// becomes the next final segment.
    pub fn transcribed(&mut self, text: String) -> (r: Option<RecognizedSegment>)
        requires
            old(self).index < u64::MAX,
        ensures
            final(self).buf == old(self).buf,
            text@.len() == 0 ==> r is None && final(self).index == old(self).index,
            text@.len() > 0 ==> r is Some && final_segment(r.unwrap(), old(self).index, text@) && final(self).index == old(self).index + 1,
    {
        if text.as_str().is_empty() {
            None
        } else {
            let seg = RecognizedSegment {
                index: self.index,
                text,
                is_final: true,
                start_ms: 0,
                end_ms: 0,
                speaker_id: None,
            };
            self.index = self.index + 1;
            Some(seg)
        }
    }

    /// At the end of the stream: the audio still buffered, if any.
    pub fn finish(&mut self) -> (r: Option<Vec<u8>>)
        ensures
            final(self).buf@.len() == 0,
            final(self).index == old(self).index,
            old(self).buf@.len() == 0 ==> r is None,
            old(self).buf@.len() > 0 ==> r is Some && r.unwrap()@ == old(self).buf@,
    {
        if self.buf.len() == 0 {
            None
        } else {
            let mut out: Vec<u8> = Vec::new();
            std::mem::swap(&mut out, &mut self.buf);
            Some(out)
        }
    }
}

/// The new text of a speech segment: when the recognizer's text extends the
/// previous segment's text, what follows it, trimmed; else all of it.
pub open spec fn vad_increment(text: Seq<char>, prev: Seq<char>) -> Seq<char> {
    if prev.len() <= text.len() && text.take(prev.len() as int) == prev {
        trim(text.skip(prev.len() as int))
    } else {
        text
    }
}

/// The local recognizer's state in voice-activity mode: the index of the
/// next segment and the text recognized for the previous speech segment.
#[derive(Debug, Clone)]
pub struct VadStream {
    pub index: u64,
    pub prev_text: String,
}

impl VadStream {
    /// No segment yet.
    pub fn new() -> (r: VadStream)
        ensures
            r.index == 0,
            r.prev_text@.len() == 0,
    {
        VadStream { index: 0, prev_text: String::new() }
    }

    /// Takes the text recognized for one speech segment.  Blank text is
    /// ignored.  Otherwise its new part, when there is one, becomes the next
    /// final segment, and the text is kept for the next comparison.
    pub fn transcribed(&mut self, text: String) -> (r: Option<RecognizedSegment>)
        requires
            old(self).index < u64::MAX,
        ensures
            trim(text@).len() == 0 ==> r is None && final(self).index == old(self).index
                && final(self).prev_text@ == old(self).prev_text@,
            trim(text@).len() > 0 ==> final(self).prev_text@ == text@,
            trim(text@).len() > 0 && vad_increment(text@, old(self).prev_text@).len() == 0 ==> r is None
                && final(self).index == old(self).index,
            trim(text@).len() > 0 && vad_increment(text@, old(self).prev_text@).len() > 0 ==> r is Some
                && final_segment(r.unwrap(), old(self).index, vad_increment(text@, old(self).prev_text@))
                && final(self).index == old(self).index + 1,
    {
        let t = chars_of(text.as_str());
        if trimmed(&t).len() == 0 {
            return None;
        }
        let p = chars_of(self.prev_text.as_str());
        let new_text = if starts_with_chars(&t, &p) {
            let rest = slice_chars(&t, p.len(), t.len());
            assert(rest@ =~= t@.skip(p@.len() as int));
            string_from(&trimmed(&rest))
        } else {
            string_from(&t)
        };
        self.prev_text = text;
        if new_text.as_str().is_empty() {
            None
        } else {
            let seg = RecognizedSegment {
                index: self.index,
                text: new_text,
                is_final: true,
                start_ms: 0,
                end_ms: 0,
                speaker_id: None,
            };
            self.index = self.index + 1;
            Some(seg)
        }
    }
}

} // verus!
