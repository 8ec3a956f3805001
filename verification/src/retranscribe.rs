//! Transcribing a stored meeting recording again: the PCM audio after the
//! WAV header is fed to the backend in 2-second blocks, and of the segments
//! that come back the final ones are kept, ordered by index.
use vstd::prelude::*;
use vstd::relations::sorted_by;
use vstd::seq_lib::to_multiset_build;
use vstd::seq_lib::to_multiset_insert;

use crate::models::TranscriptSegment;

verus! {

/// Bytes of the WAV header before the audio.
pub const WAV_HEADER_BYTES: usize = 44;

/// Bytes of audio per block fed to the backend (2 s of 16 kHz 16-bit mono).
pub const BLOCK_BYTES: usize = 64000;

/// Why a recording could not be transcribed again.
#[derive(Debug, Clone, Copy, PartialEq, Eq, Structural)]
pub enum RetranscribeError {
    /// The meeting has no recording.
    NoRecording,
    /// The recording holds no audio.
    EmptyRecording,
    /// The backend returned nothing.
    NoResult,
}

impl RetranscribeError {
    /// The message shown for the error.
    pub fn message(&self) -> (m: &'static str)
        ensures
            m@ == match self {
                RetranscribeError::NoRecording => "无录音文件，无法重新转写"@,
                RetranscribeError::EmptyRecording => "录音文件为空"@,
                RetranscribeError::NoResult => "转写无结果，请检查 ASR 配置"@,
            },
    {
        match self {
            RetranscribeError::NoRecording => "无录音文件，无法重新转写",
            RetranscribeError::EmptyRecording => "录音文件为空",
            RetranscribeError::NoResult => "转写无结果，请检查 ASR 配置",
        }
    }
}

/// The audio of a WAV file: what follows the 44-byte header, refused when
/// there is none.
pub fn recording_pcm(wav: &Vec<u8>) -> (r: Result<Vec<u8>, RetranscribeError>)
    ensures
        wav@.len() > WAV_HEADER_BYTES ==> r is Ok && r.unwrap()@ == wav@.skip(WAV_HEADER_BYTES as int),
        wav@.len() <= WAV_HEADER_BYTES ==> r == Err::<Vec<u8>, RetranscribeError>(RetranscribeError::EmptyRecording),
{
    let n = wav.len();
    if n <= WAV_HEADER_BYTES {
        return Err(RetranscribeError::EmptyRecording);
    }
    let mut out: Vec<u8> = Vec::new();
    let mut i: usize = WAV_HEADER_BYTES;
    while i < n
        invariant
            WAV_HEADER_BYTES <= i <= n,
            n == wav@.len(),
            out@ == wav@.subrange(WAV_HEADER_BYTES as int, i as int),
        decreases n - i,
    {
        out.push(wav[i]);
        assert(wav@.subrange(WAV_HEADER_BYTES as int, i + 1) =~= wav@.subrange(WAV_HEADER_BYTES as int, i as int).push(
            wav@[i as int],
        ));
        i += 1;
    }
    assert(out@ =~= wav@.skip(WAV_HEADER_BYTES as int));
    Ok(out)
}

/// Splits audio into 2-second blocks (the last may be shorter).
pub fn pcm_blocks(pcm: &Vec<u8>) -> (r: Vec<Vec<u8>>)
    ensures
        r@.len() == (pcm@.len() + BLOCK_BYTES - 1) / (BLOCK_BYTES as int),
        forall|k: int|
            0 <= k < r@.len() ==> #[trigger] r@[k]@ == pcm@.subrange(
                k * BLOCK_BYTES,
                if (k + 1) * BLOCK_BYTES < pcm@.len() {
                    (k + 1) * BLOCK_BYTES
                } else {
                    pcm@.len() as int
                },
            ),
{
    let n = pcm.len();
    let mut out: Vec<Vec<u8>> = Vec::new();
    let mut start: usize = 0;
    while start < n
        invariant
            n == pcm@.len(),
            start <= n,
            start < n ==> start == out@.len() * BLOCK_BYTES,
            start <= out@.len() * BLOCK_BYTES,
            out@.len() > 0 ==> (out@.len() - 1) * BLOCK_BYTES < start,
            forall|k: int|
                0 <= k < out@.len() ==> #[trigger] out@[k]@ == pcm@.subrange(
                    k * BLOCK_BYTES,
                    if (k + 1) * BLOCK_BYTES < pcm@.len() {
                        (k + 1) * BLOCK_BYTES
                    } else {
                        pcm@.len() as int
                    },
                ),
        decreases n - start,
    {
        let end = if n - start > BLOCK_BYTES {
            start + BLOCK_BYTES
        } else {
            n
        };
        let mut block: Vec<u8> = Vec::new();
        let mut i = start;
        while i < end
            invariant
                start <= i <= end <= n,
                n == pcm@.len(),
                block@ == pcm@.subrange(start as int, i as int),
            decreases end - i,
        {
            block.push(pcm[i]);
            assert(pcm@.subrange(start as int, i + 1) =~= pcm@.subrange(start as int, i as int).push(pcm@[i as int]));
            i += 1;
        }
        proof {
            let k = out@.len() as int;
            assert((k + 1) * BLOCK_BYTES == start + BLOCK_BYTES) by (nonlinear_arith)
                requires
                    start == k * BLOCK_BYTES,
            ;
        }
        let ghost k0 = out@.len() as int;
        out.push(block);
        start = end;
        assert(out@.len() * BLOCK_BYTES == k0 * BLOCK_BYTES + BLOCK_BYTES) by (nonlinear_arith)
            requires
                out@.len() == k0 + 1,
        ;
    }
    proof {
        let m = out@.len() as int;
        if n > 0 {
            assert((m - 1) * BLOCK_BYTES < n) by (nonlinear_arith)
                requires
                    m >= 1,
                    start == n,
                    start <= m * BLOCK_BYTES,
                    (m - 1) * BLOCK_BYTES < start || m == 0,
            ;
        }
        assert(m == (n + BLOCK_BYTES - 1) / (BLOCK_BYTES as int)) by (nonlinear_arith)
            requires
                m * BLOCK_BYTES >= n,
                n == 0 ==> m == 0,
                n > 0 ==> (m - 1) * BLOCK_BYTES < n,
                m >= 0,
        ;
    }
    out
}

/// Segment `a` may come before `b`: its index is not larger.
pub open spec fn index_le(a: TranscriptSegment, b: TranscriptSegment) -> bool {
    a.index <= b.index
}

/// The segments to keep: the final ones, or all of them when the backend
/// marked none final.
pub open spec fn keep_segment(all: Seq<TranscriptSegment>, s: TranscriptSegment) -> bool {
    s.is_final || forall|j: int| 0 <= j < all.len() ==> !(#[trigger] all[j]).is_final
}

/// The segments of a transcription, ordered by index (equal indices in the
/// order they arrived), keeping the final ones (or all when none is final);
/// refused when nothing is left.
pub fn final_segments(segs: Vec<TranscriptSegment>) -> (r: Result<Vec<TranscriptSegment>, RetranscribeError>)
    ensures
        match r {
            Ok(v) => {
                &&& v@.len() > 0
                &&& sorted_by(v@, |a: TranscriptSegment, b: TranscriptSegment| index_le(a, b))
                &&& v@.to_multiset() == segs@.filter(|s: TranscriptSegment| keep_segment(segs@, s)).to_multiset()
            },
            Err(e) => e == RetranscribeError::NoResult && segs@.filter(
                |s: TranscriptSegment| keep_segment(segs@, s),
            ).len() == 0,
        },
{
    let ghost all = segs@;
    let n = segs.len();
    let mut any_final = false;
    let mut i: usize = 0;
    while i < n
        invariant
            n == segs@.len(),
            i <= n,
            any_final <==> exists|j: int| 0 <= j < i && (#[trigger] segs@[j]).is_final,
        decreases n - i,
    {
        if segs[i].is_final {
            any_final = true;
        }
        i += 1;
    }
    let ghost kept = all.filter(|s: TranscriptSegment| keep_segment(all, s));
    let mut rest = segs;
    let mut out: Vec<TranscriptSegment> = Vec::new();
    let mut k: usize = 0;
    assert(all.take(0).filter(|s: TranscriptSegment| keep_segment(all, s)) =~= Seq::<TranscriptSegment>::empty());
    while rest.len() > 0
        invariant
            n == all.len(),
            k + rest@.len() == all.len(),
            rest@ == all.skip(k as int),
            any_final <==> exists|j: int| 0 <= j < all.len() && (#[trigger] all[j]).is_final,
            forall|a: int, b: int| 0 <= a < b < out@.len() ==> (#[trigger] out@[a]).index <= (#[trigger] out@[b]).index,
            out@.to_multiset() == all.take(k as int).filter(|s: TranscriptSegment| keep_segment(all, s)).to_multiset(),
            out@.len() == all.take(k as int).filter(|s: TranscriptSegment| keep_segment(all, s)).len(),
        decreases rest@.len(),
    {
        let ghost before_rest = rest@;
        let s = rest.remove(0);
        assert(s == all[k as int]);
        assert(all.take(k + 1) =~= all.take(k as int).push(s));
        assert(all.take(k + 1).filter(|x: TranscriptSegment| keep_segment(all, x)) == (if keep_segment(all, s) {
            all.take(k as int).filter(|x: TranscriptSegment| keep_segment(all, x)).push(s)
        } else {
            all.take(k as int).filter(|x: TranscriptSegment| keep_segment(all, x))
        })) by {
            all.take(k as int).lemma_filter_push(s, |x: TranscriptSegment| keep_segment(all, x));
        }
        if s.is_final || !any_final {
            let mut p: usize = out.len();
            while p > 0 && out[p - 1].index > s.index
                invariant
                    p <= out@.len(),
                    forall|q: int| p <= q < out@.len() ==> (#[trigger] out@[q]).index > s.index,
                decreases p,
            {
                p -= 1;
            }
            let ghost old_out = out@;
            out.insert(p, s);
            assert(out@ == old_out.insert(p as int, s));
            assert forall|a: int, b: int| 0 <= a < b < out@.len() implies (#[trigger] out@[a]).index
                <= (#[trigger] out@[b]).index by {
                if b < p {
                    assert(out@[a] == old_out[a] && out@[b] == old_out[b]);
                } else if b == p {
                    assert(out@[a] == old_out[a]);
                    if p > 0 {
                        assert(old_out[p - 1].index <= s.index);
                        assert(old_out[a].index <= old_out[p - 1].index || a == p - 1);
                    }
                } else if a == p {
                    assert(out@[b] == old_out[b - 1]);
                } else if a < p {
                    assert(out@[a] == old_out[a] && out@[b] == old_out[b - 1]);
                } else {
                    assert(out@[a] == old_out[a - 1] && out@[b] == old_out[b - 1]);
                }
            }
            proof {
                to_multiset_insert(old_out, p as int, s);
                to_multiset_build(all.take(k as int).filter(|x: TranscriptSegment| keep_segment(all, x)), s);
            }
        } else {
            assert(!keep_segment(all, s));
        }
        k += 1;
        assert(rest@ =~= all.skip(k as int));
    }
    assert(all.take(all.len() as int) =~= all);
    if out.len() == 0 {
        return Err(RetranscribeError::NoResult);
    }
    Ok(out)
}

} // verus!
