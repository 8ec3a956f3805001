//! Splitting long text into segments for speech synthesis.
use vstd::prelude::*;

use crate::text::seqs_of;
use crate::text::{chars_of, is_trimmed, is_white, lemma_trim_is_trimmed, string_from, trim, trim_end, trim_start, trimmed};

verus! {

/// Upper bound on the characters of one segment.
pub const MAX_SEGMENT_CHARS: usize = 200;

/// Characters after which a segment may end.
pub open spec fn is_speech_boundary(c: char) -> bool {
    c == '。' || c == '！' || c == '？' || c == '.' || c == '!' || c == '?' || c == '；' || c == ';'
        || c == '\n'
}

/// Appends `trim(cur)` to `segs` when it is not empty.
pub open spec fn emit(segs: Seq<Seq<char>>, cur: Seq<char>) -> Seq<Seq<char>> {
    if trim(cur).len() > 0 {
        segs.push(trim(cur))
    } else {
        segs
    }
}

/// Segmentation state after the characters `s`: the segments emitted and the
/// segment being built.
pub open spec fn speech_run(s: Seq<char>) -> (Seq<Seq<char>>, Seq<char>)
    decreases s.len(),
{
    if s.len() == 0 {
        (Seq::<Seq<char>>::empty(), Seq::<char>::empty())
    } else {
        let prev = speech_run(s.drop_last());
        let ch = s.last();
        let cur = prev.1.push(ch);
        if is_speech_boundary(ch) && cur.len() >= 40 {
            (emit(prev.0, cur), Seq::<char>::empty())
        } else if cur.len() >= 200 {
            (emit(prev.0, cur), Seq::<char>::empty())
        } else {
            (prev.0, cur)
        }
    }
}

/// The speech segments of `text`.
pub open spec fn speech_segments(text: Seq<char>) -> Seq<Seq<char>> {
    let t = trim(text);
    if t.len() == 0 {
        Seq::<Seq<char>>::empty()
    } else if t.len() <= 200 {
        seq![t]
    } else {
        let st = speech_run(t);
        emit(st.0, st.1)
    }
}

/// Splits `text` into segments of at most 200 characters, preferring to end a
/// segment (of at least 40 characters) after a sentence boundary.
pub fn split_for_speech(text: &str) -> (r: Vec<String>)
    ensures
        r@.len() == speech_segments(text@).len(),
        forall|i: int| 0 <= i < r@.len() ==> #[trigger] r@[i]@ == speech_segments(text@)[i],
{
    let all = chars_of(text);
    let t = trimmed(&all);
    let mut out: Vec<String> = Vec::new();
    if t.len() == 0 {
        return out;
    }
    if t.len() <= MAX_SEGMENT_CHARS {
        out.push(string_from(&t));
        return out;
    }
    let mut segs: Vec<Vec<char>> = Vec::new();
    let mut cur: Vec<char> = Vec::new();
    let mut i: usize = 0;
    assert(t@.take(0).len() == 0);
    assert(seqs_of(segs@) =~= Seq::<Seq<char>>::empty());
    while i < t.len()
        invariant
            i <= t@.len(),
            (seqs_of(segs@), cur@) == speech_run(t@.take(i as int)),
        decreases t@.len() - i,
    {
        let ch = t[i];
        proof {
            assert(t@.take(i + 1).drop_last() =~= t@.take(i as int));
            assert(t@.take(i + 1).last() == ch);
        }
        cur.push(ch);
        let boundary = ch == '。' || ch == '！' || ch == '？' || ch == '.' || ch == '!' || ch == '?'
            || ch == '；' || ch == ';' || ch == '\n';
        if (boundary && cur.len() >= 40) || cur.len() >= MAX_SEGMENT_CHARS {
            emit_segment(&mut segs, &cur);
            cur = Vec::new();
        }
        i += 1;
    }
    assert(t@.take(t@.len() as int) =~= t@);
    emit_segment(&mut segs, &cur);
    let mut k: usize = 0;
    while k < segs.len()
        invariant
            k <= segs@.len(),
            out@.len() == k,
            forall|j: int| 0 <= j < k ==> #[trigger] out@[j]@ == seqs_of(segs@)[j],
        decreases segs@.len() - k,
    {
        out.push(string_from(&segs[k]));
        k += 1;
    }
    out
}

/// Appends the trimmed `cur` to `segs` unless it is empty.
fn emit_segment(segs: &mut Vec<Vec<char>>, cur: &Vec<char>)
    ensures
        seqs_of(final(segs)@) == emit(seqs_of(old(segs)@), cur@),
{
    let t = trimmed(cur);
    if t.len() > 0 {
        proof {
            assert(seqs_of(segs@.push(t)) =~= seqs_of(segs@).push(t@));
        }
        segs.push(t);
    }
}

proof fn lemma_speech_run_bounded(s: Seq<char>)
    ensures
        speech_run(s).1.len() < 200,
        forall|i: int|
            0 <= i < speech_run(s).0.len() ==> {
                let seg = #[trigger] speech_run(s).0[i];
                0 < seg.len() <= 200 && is_trimmed(seg)
            },
    decreases s.len(),
{
    if s.len() > 0 {
        let prev = speech_run(s.drop_last());
        lemma_speech_run_bounded(s.drop_last());
        let cur = prev.1.push(s.last());
        lemma_trim_is_trimmed(cur);
        lemma_trim_len(cur);
        let segs = speech_run(s).0;
        assert forall|i: int| 0 <= i < segs.len() implies {
            let seg = #[trigger] segs[i];
            0 < seg.len() <= 200 && is_trimmed(seg)
        } by {
            if i < prev.0.len() {
                assert(segs[i] == prev.0[i]);
            }
        }
    }
}

proof fn lemma_trim_len(s: Seq<char>)
    ensures
        trim(s).len() <= s.len(),
{
    crate::text::lemma_trim_start_suffix(s);
    crate::text::lemma_trim_end_prefix(crate::text::trim_start(s));
}

/// Law: every speech segment is non-empty, trimmed and at most 200 characters.
pub proof fn law_speech_segments_bounded(text: Seq<char>)
    ensures
        forall|i: int|
            0 <= i < speech_segments(text).len() ==> {
                let seg = #[trigger] speech_segments(text)[i];
                0 < seg.len() <= 200 && is_trimmed(seg)
            },
{
    let t = trim(text);
    lemma_trim_is_trimmed(text);
    if t.len() > 200 {
        lemma_speech_run_bounded(t);
        let st = speech_run(t);
        lemma_trim_is_trimmed(st.1);
        lemma_trim_len(st.1);
        let segs = speech_segments(text);
        assert forall|i: int| 0 <= i < segs.len() implies {
            let seg = #[trigger] segs[i];
            0 < seg.len() <= 200 && is_trimmed(seg)
        } by {
            if i < st.0.len() {
                assert(segs[i] == st.0[i]);
            }
        }
    }
}

/// The characters of `s` that are not whitespace, in order.
pub open spec fn ink(s: Seq<char>) -> Seq<char> {
    s.filter(|c: char| !is_white(c))
}

/// The segments written one after another.
pub open spec fn joined(segs: Seq<Seq<char>>) -> Seq<char>
    decreases segs.len(),
{
    if segs.len() == 0 {
        seq![]
    } else {
        joined(segs.drop_last()) + segs.last()
    }
}

proof fn lemma_ink_add(a: Seq<char>, b: Seq<char>)
    ensures
        ink(a + b) == ink(a) + ink(b),
{
    Seq::filter_distributes_over_add(a, b, |c: char| !is_white(c));
}

proof fn lemma_ink_one(c: char)
    ensures
        ink(seq![c]) == if is_white(c) { Seq::<char>::empty() } else { seq![c] },
{
    Seq::<char>::empty().lemma_filter_push(c, |c: char| !is_white(c));
    assert(Seq::<char>::empty().push(c) =~= seq![c]);
    assert(Seq::<char>::empty().filter(|c: char| !is_white(c)) =~= Seq::<char>::empty()) by {
        reveal(Seq::filter);
    }
}

proof fn lemma_ink_trim_start(s: Seq<char>)
    ensures
        ink(trim_start(s)) == ink(s),
    decreases s.len(),
{
    if s.len() > 0 && is_white(s[0]) {
        lemma_ink_trim_start(s.drop_first());
        assert(s =~= seq![s[0]] + s.drop_first());
        lemma_ink_add(seq![s[0]], s.drop_first());
        lemma_ink_one(s[0]);
        assert(ink(s) =~= ink(s.drop_first()));
    }
}

proof fn lemma_ink_trim_end(s: Seq<char>)
    ensures
        ink(trim_end(s)) == ink(s),
    decreases s.len(),
{
    if s.len() > 0 && is_white(s.last()) {
        lemma_ink_trim_end(s.drop_last());
        assert(s =~= s.drop_last() + seq![s.last()]);
        lemma_ink_add(s.drop_last(), seq![s.last()]);
        lemma_ink_one(s.last());
        assert(ink(s) =~= ink(s.drop_last()));
    }
}

proof fn lemma_ink_trim(s: Seq<char>)
    ensures
        ink(trim(s)) == ink(s),
{
    lemma_ink_trim_start(s);
    lemma_ink_trim_end(trim_start(s));
}

proof fn lemma_ink_emit(segs: Seq<Seq<char>>, cur: Seq<char>)
    ensures
        ink(joined(emit(segs, cur))) == ink(joined(segs)) + ink(cur),
{
    lemma_ink_trim(cur);
    if trim(cur).len() > 0 {
        let e = segs.push(trim(cur));
        assert(e.drop_last() =~= segs);
        lemma_ink_add(joined(segs), trim(cur));
    } else {
        assert(trim(cur) =~= Seq::<char>::empty());
        assert(ink(Seq::<char>::empty()) =~= Seq::<char>::empty()) by {
            reveal(Seq::filter);
        }
        assert(ink(joined(segs)) + ink(cur) =~= ink(joined(segs)));
    }
}

proof fn lemma_ink_run(s: Seq<char>)
    ensures
        ink(joined(speech_run(s).0)) + ink(speech_run(s).1) == ink(s),
    decreases s.len(),
{
    assert(ink(Seq::<char>::empty()) =~= Seq::<char>::empty()) by {
        reveal(Seq::filter);
    }
    if s.len() > 0 {
        let prev = speech_run(s.drop_last());
        lemma_ink_run(s.drop_last());
        let ch = s.last();
        let cur = prev.1.push(ch);
        assert(cur =~= prev.1 + seq![ch]);
        lemma_ink_add(prev.1, seq![ch]);
        assert(s =~= s.drop_last() + seq![ch]);
        lemma_ink_add(s.drop_last(), seq![ch]);
        if (is_speech_boundary(ch) && cur.len() >= 40) || cur.len() >= 200 {
            lemma_ink_emit(prev.0, cur);
            assert(ink(joined(speech_run(s).0)) + ink(speech_run(s).1) =~= ink(s));
        } else {
            assert(ink(joined(speech_run(s).0)) + ink(speech_run(s).1) =~= ink(s));
        }
    } else {
        assert(joined(speech_run(s).0) =~= Seq::<char>::empty());
        assert(s =~= Seq::<char>::empty());
    }
}

/// Law: splitting loses no text: the segments, written one after another,
/// hold exactly the non-whitespace characters of the text, in order.
pub proof fn law_speech_keeps_text(text: Seq<char>)
    ensures
        ink(joined(speech_segments(text))) == ink(text),
{
    let t = trim(text);
    lemma_ink_trim(text);
    assert(ink(Seq::<char>::empty()) =~= Seq::<char>::empty()) by {
        reveal(Seq::filter);
    }
    if t.len() == 0 {
        assert(t =~= Seq::<char>::empty());
        assert(joined(Seq::<Seq<char>>::empty()) =~= Seq::<char>::empty());
    } else if t.len() <= 200 {
        let one = seq![t];
        assert(one.drop_last() =~= Seq::<Seq<char>>::empty());
        assert(joined(one.drop_last()) =~= Seq::<char>::empty());
        assert(one.last() == t);
        assert(joined(one) =~= t);
    } else {
        let st = speech_run(t);
        lemma_ink_run(t);
        lemma_ink_emit(st.0, st.1);
    }
}

} // verus!
