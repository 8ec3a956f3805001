//! Splitting documents into retrieval chunks:
//! paragraph packing, then sentence packing, then a fixed byte window.
use vstd::prelude::*;

use crate::text::{
    byte_len, byte_offset, char_width, floor_index, lemma_byte_len_add, lemma_byte_len_ge_len,
    lemma_byte_offset_last, lemma_byte_offset_mono, lemma_floor_index_unique, slice_chars, trim, byte_len_sat, trimmed, extend_chars,
    lemma_byte_offset_step, lemma_byte_offset_zero, lemma_floor_index, chars_of, string_from, is_trimmed, lemma_trim_is_trimmed,
    utf8_width, boundary_offsets, floor_at, str_byte_len, seqs_of, lemma_offset_strict, lemma_floor_at_offset,
};

verus! {

/// Puts `p` in front of the first element of `r`.
pub open spec fn prepend_to_first(p: Seq<char>, r: Seq<Seq<char>>) -> Seq<Seq<char>> {
    r.update(0, p + r[0])
}

/// The separator between paragraphs.
pub open spec fn blank_line() -> Seq<char> {
    seq!['\n', '\n']
}

/// `s.split("\n\n")`: the pieces between non-overlapping blank-line separators,
/// matched from left to right.
pub open spec fn split_paragraphs(s: Seq<char>) -> Seq<Seq<char>>
    decreases s.len(),
{
    if s.len() < 2 {
        seq![s]
    } else if s[0] == '\n' && s[1] == '\n' {
        seq![Seq::<char>::empty()] + split_paragraphs(s.skip(2))
    } else {
        prepend_to_first(seq![s[0]], split_paragraphs(s.drop_first()))
    }
}

/// Sentence terminators recognised by the sentence pass.
pub open spec fn is_sentence_end(c: char) -> bool {
    c == '。' || c == '！' || c == '？' || c == '.' || c == '!' || c == '?'
}

/// The sentences of `s`, each followed by its terminator; the last piece is
/// whatever follows the last terminator (possibly empty).
pub open spec fn sentence_pieces(s: Seq<char>) -> Seq<Seq<char>>
    decreases s.len(),
{
    if s.len() == 0 {
        seq![Seq::<char>::empty()]
    } else if is_sentence_end(s[0]) {
        seq![seq![s[0]]] + sentence_pieces(s.drop_first())
    } else {
        prepend_to_first(seq![s[0]], sentence_pieces(s.drop_first()))
    }
}

/// The part of `prev` kept as overlap: it starts at the last character boundary
/// at or before byte `byte_len(prev) - overlap` (0 when that is negative).
pub open spec fn overlap_tail(prev: Seq<char>, overlap: nat) -> Seq<char> {
    let b: int = if byte_len(prev) >= overlap {
        byte_len(prev) - overlap
    } else {
        0
    };
    prev.skip(floor_index(prev, b) as int)
}

/// Packing state: the chunks emitted so far and the chunk being built.
pub type PackState = (Seq<Seq<char>>, Seq<char>);

/// One step of the paragraph pass.
pub open spec fn para_step(st: PackState, p: Seq<char>, size: nat, overlap: nat) -> PackState {
    let chunks = st.0;
    let cur = st.1;
    let flushed: PackState = if cur.len() > 0 && byte_len(cur) + byte_len(p) + 2 > size {
        let last = trim(cur);
        let next: Seq<char> = if overlap > 0 && last.len() > 0 {
            let t = overlap_tail(last, overlap);
            if t.len() > 0 {
                t + blank_line()
            } else {
                t
            }
        } else {
            Seq::<char>::empty()
        };
        (chunks.push(last), next)
    } else {
        (chunks, cur)
    };
    let cur2 = if flushed.1.len() > 0 {
        flushed.1 + blank_line()
    } else {
        flushed.1
    };
    (flushed.0, cur2 + p)
}

/// The paragraph pass over `paras`.
pub open spec fn para_run(paras: Seq<Seq<char>>, size: nat, overlap: nat) -> PackState
    decreases paras.len(),
{
    if paras.len() == 0 {
        (Seq::<Seq<char>>::empty(), Seq::<char>::empty())
    } else {
        para_step(para_run(paras.drop_last(), size, overlap), paras.last(), size, overlap)
    }
}

/// One step of the sentence pass.
pub open spec fn sentence_step(st: PackState, p: Seq<char>, size: nat, overlap: nat) -> PackState {
    let chunks = st.0;
    let cur = st.1;
    let cand = cur + p;
    if byte_len(cand) > size && cur.len() > 0 {
        let last = trim(cur);
        let next: Seq<char> = if overlap > 0 {
            overlap_tail(last, overlap)
        } else {
            Seq::<char>::empty()
        };
        (chunks.push(last), next + p)
    } else {
        (chunks, cand)
    }
}

/// The sentence pass over `pieces`.
pub open spec fn sentence_run(pieces: Seq<Seq<char>>, size: nat, overlap: nat) -> PackState
    decreases pieces.len(),
{
    if pieces.len() == 0 {
        (Seq::<Seq<char>>::empty(), Seq::<char>::empty())
    } else {
        sentence_step(sentence_run(pieces.drop_last(), size, overlap), pieces.last(), size, overlap)
    }
}

/// Emits the chunk being built when it is not blank.
pub open spec fn finish(st: PackState) -> Seq<Seq<char>> {
    if trim(st.1).len() > 0 {
        st.0.push(trim(st.1))
    } else {
        st.0
    }
}

/// The text of the UTF-8 bytes of `t` in `[s, e)`, where `e` is a character
/// boundary, decoded lossily: every continuation byte cut off at the front
/// becomes one U+FFFD.
pub open spec fn window_text(t: Seq<char>, s: nat, e: nat) -> Seq<char> {
    let k = floor_index(t, s as int);
    let j = floor_index(t, e as int);
    if byte_offset(t, k as int) == s {
        t.subrange(k as int, j as int)
    } else {
        Seq::new((byte_offset(t, k + 1 as int) - s) as nat, |_i: int| '\u{FFFD}') + t.subrange(
            k + 1 as int,
            j as int,
        )
    }
}

/// The window starting at byte `s`: up to `size` bytes, shortened to the last
/// character boundary after `s` (empty when there is none).
pub open spec fn window_piece(t: Seq<char>, s: nat, size: nat) -> Seq<char> {
    let e0: nat = if s + size < byte_len(t) {
        s + size
    } else {
        byte_len(t)
    };
    let j = floor_index(t, e0 as int);
    if byte_offset(t, j as int) <= s {
        Seq::<char>::empty()
    } else {
        window_text(t, s, byte_offset(t, j as int))
    }
}

/// The fixed-window pass from byte `s`: each window starts `overlap` bytes
/// before the end of the previous one.
pub open spec fn fixed_windows(t: Seq<char>, s: nat, size: nat, overlap: nat) -> Seq<Seq<char>>
    decreases byte_len(t) - s,
{
    let e0: nat = if s + size < byte_len(t) {
        s + size
    } else {
        byte_len(t)
    };
    let piece = window_piece(t, s, size);
    if e0 >= byte_len(t) || overlap >= size || s >= byte_len(t) {
        seq![piece]
    } else {
        seq![piece] + fixed_windows(t, (e0 - overlap) as nat, size, overlap)
    }
}

/// The chunks of `t` produced by the paragraph pass, when that pass applies.
pub open spec fn paragraph_chunks(t: Seq<char>, size: nat, overlap: nat) -> Seq<Seq<char>> {
    finish(para_run(split_paragraphs(t), size, overlap))
}

/// The chunks of `t` produced by the sentence pass, when that pass applies.
pub open spec fn sentence_chunks(t: Seq<char>, size: nat, overlap: nat) -> Seq<Seq<char>> {
    finish(sentence_run(sentence_pieces(t), size, overlap))
}

/// True when the paragraph pass yields the result.
pub open spec fn paragraphs_apply(t: Seq<char>, size: nat, overlap: nat) -> bool {
    split_paragraphs(t).len() > 1 && paragraph_chunks(t, size, overlap).len() > 0
}

/// True when the sentence pass yields the result.
pub open spec fn sentences_apply(t: Seq<char>, size: nat, overlap: nat) -> bool {
    sentence_pieces(t).len() > 1 && sentence_chunks(t, size, overlap).len() > 0
}

/// True when neither pass applies and the fixed window is used.
pub open spec fn uses_fixed_window(t: Seq<char>, size: nat, overlap: nat) -> bool {
    t.len() > 0 && byte_len(t) > size && !paragraphs_apply(t, size, overlap) && !sentences_apply(
        t,
        size,
        overlap,
    )
}

/// The chunks of `t`.
pub open spec fn chunks_of(t: Seq<char>, size: nat, overlap: nat) -> Seq<Seq<char>> {
    if t.len() == 0 {
        Seq::<Seq<char>>::empty()
    } else if byte_len(t) <= size {
        seq![t]
    } else if paragraphs_apply(t, size, overlap) {
        paragraph_chunks(t, size, overlap)
    } else if sentences_apply(t, size, overlap) {
        sentence_chunks(t, size, overlap)
    } else {
        fixed_windows(t, 0, size, overlap)
    }
}


proof fn lemma_split_paragraphs_nonempty(s: Seq<char>)
    ensures
        split_paragraphs(s).len() >= 1,
    decreases s.len(),
{
    if s.len() >= 2 {
        if s[0] == '\n' && s[1] == '\n' {
            lemma_split_paragraphs_nonempty(s.skip(2));
        } else {
            lemma_split_paragraphs_nonempty(s.drop_first());
        }
    }
}

proof fn lemma_sentence_pieces_nonempty(s: Seq<char>)
    ensures
        sentence_pieces(s).len() >= 1,
    decreases s.len(),
{
    if s.len() > 0 {
        lemma_sentence_pieces_nonempty(s.drop_first());
    }
}

/// `s.split("\n\n")` on characters.
fn split_paragraph_parts(v: &Vec<char>) -> (parts: Vec<Vec<char>>)
    ensures
        seqs_of(parts@) == split_paragraphs(v@),
{
    let mut parts: Vec<Vec<char>> = Vec::new();
    let mut cur: Vec<char> = Vec::new();
    let mut i: usize = 0;
    let n = v.len();
    assert(v@.skip(0) =~= v@);
    proof {
        lemma_split_paragraphs_nonempty(v@);
        assert(prepend_to_first(cur@, split_paragraphs(v@)) =~= split_paragraphs(v@));
        assert(seqs_of(parts@) + split_paragraphs(v@) =~= split_paragraphs(v@));
    }
    while i < n
        invariant
            n == v@.len(),
            i <= n,
            split_paragraphs(v@) == seqs_of(parts@) + prepend_to_first(
                cur@,
                split_paragraphs(v@.skip(i as int)),
            ),
        decreases n - i,
    {
        let ghost rest = v@.skip(i as int);
        if i + 1 < n && v[i] == '\n' && v[i + 1] == '\n' {
            proof {
                assert(rest.skip(2) =~= v@.skip(i + 2));
                let x = split_paragraphs(v@.skip(i + 2));
                lemma_split_paragraphs_nonempty(v@.skip(i + 2));
                assert(prepend_to_first(cur@, seq![Seq::<char>::empty()] + x) =~= seq![cur@] + x);
                assert(prepend_to_first(Seq::<char>::empty(), x) =~= x);
                assert(seqs_of(parts@.push(cur)) =~= seqs_of(parts@).push(cur@));
                assert(seqs_of(parts@) + (seq![cur@] + x) =~= seqs_of(parts@).push(cur@) + x);
            }
            parts.push(cur);
            cur = Vec::new();
            i += 2;
        } else {
            let c = v[i];
            proof {
                if rest.len() >= 2 {
                    assert(rest.drop_first() =~= v@.skip(i + 1));
                    let x = split_paragraphs(v@.skip(i + 1));
                    lemma_split_paragraphs_nonempty(v@.skip(i + 1));
                    assert(prepend_to_first(cur@, prepend_to_first(seq![c], x))
                        =~~= prepend_to_first(cur@.push(c), x));
                } else {
                    assert(v@.skip(i + 1).len() == 0);
                    assert(prepend_to_first(cur@, seq![rest]) =~~= prepend_to_first(
                        cur@.push(c),
                        seq![v@.skip(i + 1)],
                    ));
                }
            }
            cur.push(c);
            i += 1;
        }
    }
    proof {
        assert(v@.skip(n as int).len() == 0);
        assert(prepend_to_first(cur@, seq![v@.skip(n as int)]) =~= seq![cur@]);
        assert(seqs_of(parts@.push(cur)) =~= seqs_of(parts@).push(cur@));
    }
    parts.push(cur);
    parts
}

/// The sentence pieces of `v`.
fn sentence_parts(v: &Vec<char>) -> (parts: Vec<Vec<char>>)
    ensures
        seqs_of(parts@) == sentence_pieces(v@),
{
    let mut parts: Vec<Vec<char>> = Vec::new();
    let mut cur: Vec<char> = Vec::new();
    let mut i: usize = 0;
    let n = v.len();
    assert(v@.skip(0) =~= v@);
    proof {
        lemma_sentence_pieces_nonempty(v@);
        assert(prepend_to_first(cur@, sentence_pieces(v@)) =~= sentence_pieces(v@));
        assert(seqs_of(parts@) + sentence_pieces(v@) =~= sentence_pieces(v@));
    }
    while i < n
        invariant
            n == v@.len(),
            i <= n,
            sentence_pieces(v@) == seqs_of(parts@) + prepend_to_first(
                cur@,
                sentence_pieces(v@.skip(i as int)),
            ),
        decreases n - i,
    {
        let c = v[i];
        let ghost rest = v@.skip(i as int);
        proof {
            assert(rest.drop_first() =~= v@.skip(i + 1));
            lemma_sentence_pieces_nonempty(v@.skip(i + 1));
        }
        let ghost old_cur = cur@;
        cur.push(c);
        assert(cur@.drop_last() =~= old_cur);
        if c == '。' || c == '！' || c == '？' || c == '.' || c == '!' || c == '?' {
            proof {
                let x = sentence_pieces(v@.skip(i + 1));
                assert(rest[0] == c);
                assert(sentence_pieces(rest) == seq![seq![c]] + x);
                assert(prepend_to_first(cur@.drop_last(), seq![seq![c]] + x) =~~= seq![cur@] + x);
                assert(prepend_to_first(Seq::<char>::empty(), x) =~= x);
                assert(seqs_of(parts@.push(cur)) =~= seqs_of(parts@).push(cur@));
                assert(seqs_of(parts@) + (seq![cur@] + x) =~= seqs_of(parts@).push(cur@) + x);
            }
            parts.push(cur);
            cur = Vec::new();
        } else {
            proof {
                let x = sentence_pieces(v@.skip(i + 1));
                assert(rest[0] == c);
                assert(sentence_pieces(rest) == prepend_to_first(seq![c], x));
                assert(prepend_to_first(cur@.drop_last(), prepend_to_first(seq![c], x))
                    =~~= prepend_to_first(cur@, x));
            }
        }
        i += 1;
    }
    proof {
        assert(v@.skip(n as int).len() == 0);
        assert(prepend_to_first(cur@, seq![v@.skip(n as int)]) =~= seq![cur@]);
        assert(seqs_of(parts@.push(cur)) =~= seqs_of(parts@).push(cur@));
    }
    parts.push(cur);
    parts
}


proof fn lemma_suffix_offset(s: Seq<char>, j: int)
    requires
        0 <= j <= s.len(),
    ensures
        byte_offset(s, j) + byte_len(s.subrange(j, s.len() as int)) == byte_len(s),
{
    lemma_byte_offset_mono(s, j, s.len() as int);
    lemma_byte_offset_last(s);
}

/// The overlap kept from the previous chunk.
fn overlap_tail_of(prev: &Vec<char>, overlap: usize) -> (r: Vec<char>)
    ensures
        r@ == overlap_tail(prev@, overlap as nat),
{
    let n = prev.len();
    let mut k = n;
    let mut rem = overlap;
    assert(prev@.subrange(n as int, n as int).len() == 0);
    while k > 0 && rem > 0
        invariant
            k <= n == prev@.len(),
            rem <= overlap,
            rem > 0 ==> byte_len(prev@.subrange(k as int, n as int)) == overlap - rem,
            rem == 0 ==> byte_len(prev@.subrange(k as int, n as int)) >= overlap,
            forall|j: int|
                k < j <= n ==> #[trigger] byte_len(prev@.subrange(j, n as int)) < overlap,
        decreases k,
    {
        let w = char_width(prev[k - 1]);
        proof {
            let c = prev@[k - 1];
            assert(prev@.subrange(k - 1, n as int) =~= seq![c] + prev@.subrange(k as int, n as int));
            lemma_byte_len_add(seq![c], prev@.subrange(k as int, n as int));
            assert(seq![c].drop_last() =~= Seq::<char>::empty());
            assert(byte_len(Seq::<char>::empty()) == 0);
            assert(byte_len(seq![c]) == utf8_width(c));
        }
        if w >= rem {
            rem = 0;
        } else {
            rem = rem - w;
        }
        k -= 1;
    }
    proof {
        let p = prev@;
        let big_b = byte_len(p);
        let b: int = if big_b >= overlap { big_b - overlap } else { 0 };
        lemma_suffix_offset(p, k as int);
        assert forall|j: int| k < j <= p.len() implies #[trigger] byte_offset(p, j) > b by {
            lemma_suffix_offset(p, j);
            assert(byte_len(p.subrange(j, n as int)) < overlap);
            lemma_byte_len_ge_len(p.take(j));
        }
        if rem > 0 {
            assert(k == 0);
            assert(p.take(0).len() == 0);
        }
        lemma_floor_index_unique(p, b, k as int);
    }
    slice_chars(prev, k, n)
}


proof fn lemma_sat_sum(x: nat, p: nat, cur_len: usize, plen: usize, size: usize)
    requires
        size < usize::MAX,
        cur_len as nat == if x <= usize::MAX { x } else { usize::MAX as nat },
        plen as nat == if p <= usize::MAX { p } else { usize::MAX as nat },
    ensures
        (cur_len.saturating_add(plen).saturating_add(2) > size) == (x + p + 2 > size),
        (cur_len.saturating_add(plen) > size) == (x + p > size),
{
}

/// Pushes a blank line onto `v`.
fn push_blank_line(v: &mut Vec<char>)
    ensures
        final(v)@ == old(v)@ + blank_line(),
{
    v.push('\n');
    v.push('\n');
    assert(final(v)@ =~= old(v)@ + blank_line());
}

/// Emits `cur` as the last chunk when it is not blank.
fn finish_chunks(chunks: &mut Vec<Vec<char>>, cur: &Vec<char>)
    ensures
        seqs_of(final(chunks)@) == finish((seqs_of(old(chunks)@), cur@)),
{
    let t = trimmed(cur);
    if t.len() > 0 {
        proof {
            assert(seqs_of(chunks@.push(t)) =~= seqs_of(chunks@).push(t@));
        }
        chunks.push(t);
    }
}

/// The paragraph pass.
fn run_paragraphs(paras: &Vec<Vec<char>>, size: usize, overlap: usize) -> (r: Vec<Vec<char>>)
    requires
        size < usize::MAX,
    ensures
        seqs_of(r@) == finish(para_run(seqs_of(paras@), size as nat, overlap as nat)),
{
    let mut chunks: Vec<Vec<char>> = Vec::new();
    let mut cur: Vec<char> = Vec::new();
    let mut i: usize = 0;
    let ghost ps = seqs_of(paras@);
    assert(ps.take(0).len() == 0);
    assert(seqs_of(chunks@) =~= Seq::<Seq<char>>::empty());
    while i < paras.len()
        invariant
            i <= paras@.len(),
            size < usize::MAX,
            ps == seqs_of(paras@),
            (seqs_of(chunks@), cur@) == para_run(ps.take(i as int), size as nat, overlap as nat),
        decreases paras@.len() - i,
    {
        let p = &paras[i];
        let cur_len = byte_len_sat(&cur);
        let plen = byte_len_sat(p);
        let ghost st = (seqs_of(chunks@), cur@);
        proof {
            assert(ps.take(i + 1).drop_last() =~= ps.take(i as int));
            assert(ps.take(i + 1).last() == p@);
            lemma_sat_sum(byte_len(cur@), byte_len(p@), cur_len, plen, size);
        }
        if cur.len() > 0 && cur_len.saturating_add(plen).saturating_add(2) > size {
            let last = trimmed(&cur);
            let next = if overlap > 0 && last.len() > 0 {
                let mut t = overlap_tail_of(&last, overlap);
                if t.len() > 0 {
                    push_blank_line(&mut t);
                }
                t
            } else {
                Vec::new()
            };
            proof {
                assert(seqs_of(chunks@.push(last)) =~= seqs_of(chunks@).push(last@));
            }
            chunks.push(last);
            cur = next;
        }
        if cur.len() > 0 {
            push_blank_line(&mut cur);
        }
        extend_chars(&mut cur, p);
        proof {
            assert((seqs_of(chunks@), cur@) == para_step(st, p@, size as nat, overlap as nat));
        }
        i += 1;
    }
    assert(ps.take(paras@.len() as int) =~= ps);
    finish_chunks(&mut chunks, &cur);
    chunks
}

/// The sentence pass.
fn run_sentences(pieces: &Vec<Vec<char>>, size: usize, overlap: usize) -> (r: Vec<Vec<char>>)
    requires
        size < usize::MAX,
    ensures
        seqs_of(r@) == finish(sentence_run(seqs_of(pieces@), size as nat, overlap as nat)),
{
    let mut chunks: Vec<Vec<char>> = Vec::new();
    let mut cur: Vec<char> = Vec::new();
    let mut i: usize = 0;
    let ghost ps = seqs_of(pieces@);
    assert(ps.take(0).len() == 0);
    assert(seqs_of(chunks@) =~= Seq::<Seq<char>>::empty());
    while i < pieces.len()
        invariant
            i <= pieces@.len(),
            size < usize::MAX,
            ps == seqs_of(pieces@),
            (seqs_of(chunks@), cur@) == sentence_run(ps.take(i as int), size as nat, overlap as nat),
        decreases pieces@.len() - i,
    {
        let p = &pieces[i];
        let cur_len = byte_len_sat(&cur);
        let plen = byte_len_sat(p);
        let ghost st = (seqs_of(chunks@), cur@);
        proof {
            assert(ps.take(i + 1).drop_last() =~= ps.take(i as int));
            assert(ps.take(i + 1).last() == p@);
            lemma_sat_sum(byte_len(cur@), byte_len(p@), cur_len, plen, size);
            lemma_byte_len_add(cur@, p@);
        }
        if cur_len.saturating_add(plen) > size && cur.len() > 0 {
            let last = trimmed(&cur);
            let mut next = if overlap > 0 {
                overlap_tail_of(&last, overlap)
            } else {
                Vec::new()
            };
            extend_chars(&mut next, p);
            proof {
                assert(seqs_of(chunks@.push(last)) =~= seqs_of(chunks@).push(last@));
            }
            chunks.push(last);
            cur = next;
        } else {
            extend_chars(&mut cur, p);
        }
        proof {
            assert((seqs_of(chunks@), cur@) == sentence_step(st, p@, size as nat, overlap as nat));
        }
        i += 1;
    }
    assert(ps.take(pieces@.len() as int) =~= ps);
    finish_chunks(&mut chunks, &cur);
    chunks
}


/// The window starting at byte `s`.
fn window_at(t: &Vec<char>, offs: &Vec<usize>, s: usize, size: usize) -> (r: Vec<char>)
    requires
        byte_len(t@) <= usize::MAX,
        s < byte_len(t@),
        offs@.len() == t@.len() + 1,
        forall|k: int| 0 <= k <= t@.len() ==> offs@[k] == byte_offset(t@, k),
    ensures
        r@ == window_piece(t@, s as nat, size as nat),
{
    proof {
        lemma_byte_offset_last(t@);
    }
    let total = offs[t.len()];
    let e0 = if size < total - s {
        s + size
    } else {
        total
    };
    let j = floor_at(offs, e0, Ghost(t@));
    if offs[j] <= s {
        return Vec::new();
    }
    let k = floor_at(offs, s, Ghost(t@));
    proof {
        lemma_floor_at_offset(t@, j as int);
        lemma_floor_index(t@, s as int);
        if j <= k {
            if j < k {
                lemma_offset_strict(t@, j as int, k as int);
            }
        }
        assert(k < j);
    }
    if offs[k] == s {
        slice_chars(t, k, j)
    } else {
        let mut r: Vec<char> = Vec::new();
        let cut = offs[k + 1] - s;
        let mut c: usize = 0;
        while c < cut
            invariant
                c <= cut,
                r@ == Seq::new(c as nat, |_i: int| '\u{FFFD}'),
            decreases cut - c,
        {
            r.push('\u{FFFD}');
            c += 1;
            assert(r@ =~= Seq::new(c as nat, |_i: int| '\u{FFFD}'));
        }
        let rest = slice_chars(t, k + 1, j);
        extend_chars(&mut r, &rest);
        r
    }
}

/// The fixed-window pass.
fn run_windows(t: &Vec<char>, size: usize, overlap: usize) -> (r: Vec<Vec<char>>)
    requires
        byte_len(t@) <= usize::MAX,
        0 < byte_len(t@),
        overlap < size,
    ensures
        seqs_of(r@) == fixed_windows(t@, 0, size as nat, overlap as nat),
{
    let offs = boundary_offsets(t);
    proof {
        lemma_byte_offset_last(t@);
    }
    let total = offs[t.len()];
    let mut out: Vec<Vec<char>> = Vec::new();
    let mut start: usize = 0;
    let mut done = false;
    assert(seqs_of(out@) + fixed_windows(t@, 0, size as nat, overlap as nat) =~= fixed_windows(
        t@,
        0,
        size as nat,
        overlap as nat,
    ));
    while !done
        invariant
            total == byte_len(t@),
            byte_len(t@) <= usize::MAX,
            overlap < size,
            offs@.len() == t@.len() + 1,
            forall|k: int| 0 <= k <= t@.len() ==> offs@[k] == byte_offset(t@, k),
            done ==> seqs_of(out@) == fixed_windows(t@, 0, size as nat, overlap as nat),
            !done ==> start < total && seqs_of(out@) + fixed_windows(
                t@,
                start as nat,
                size as nat,
                overlap as nat,
            ) == fixed_windows(t@, 0, size as nat, overlap as nat),
        decreases (if done { 0 } else { total - start + 1 }),
    {
        let piece = window_at(t, &offs, start, size);
        let e0 = if size < total - start {
            start + size
        } else {
            total
        };
        let ghost rest = fixed_windows(t@, start as nat, size as nat, overlap as nat);
        proof {
            assert(seqs_of(out@.push(piece)) =~= seqs_of(out@).push(piece@));
        }
        out.push(piece);
        if e0 >= total {
            proof {
                assert(rest == seq![piece@]);
                assert(seqs_of(out@) =~= seqs_of(out@).drop_last() + rest);
            }
            done = true;
        } else {
            let next = e0 - overlap;
            proof {
                let nxt = fixed_windows(t@, next as nat, size as nat, overlap as nat);
                assert(rest == seq![piece@] + nxt);
                assert(seqs_of(out@) + nxt =~= seqs_of(out@).drop_last() + rest);
            }
            start = next;
        }
    }
    out
}


/// The strings holding the character vectors of `v`.
fn strings_of(v: &Vec<Vec<char>>) -> (r: Vec<String>)
    ensures
        r@.len() == v@.len(),
        forall|i: int| 0 <= i < v@.len() ==> #[trigger] r@[i]@ == seqs_of(v@)[i],
{
    let mut r: Vec<String> = Vec::new();
    let mut i: usize = 0;
    while i < v.len()
        invariant
            i <= v@.len(),
            r@.len() == i,
            forall|k: int| 0 <= k < i ==> #[trigger] r@[k]@ == seqs_of(v@)[k],
        decreases v@.len() - i,
    {
        let s = string_from(&v[i]);
        r.push(s);
        i += 1;
    }
    r
}

/// Splits `text` into chunks of at most about `chunk_size` bytes: first by
/// paragraphs (blank lines), else by sentences, else by a fixed byte window;
/// consecutive chunks share about `overlap` bytes.
pub fn chunk_text(text: &str, chunk_size: usize, overlap: usize) -> (r: Vec<String>)
    requires
        uses_fixed_window(text@, chunk_size as nat, overlap as nat) ==> overlap < chunk_size,
    ensures
        r@.len() == chunks_of(text@, chunk_size as nat, overlap as nat).len(),
        forall|i: int|
            0 <= i < r@.len() ==> #[trigger] r@[i]@ == chunks_of(
                text@,
                chunk_size as nat,
                overlap as nat,
            )[i],
{
    let t = chars_of(text);
    if t.len() == 0 {
        return Vec::new();
    }
    let total = str_byte_len(text);
    if total <= chunk_size {
        let mut r: Vec<String> = Vec::new();
        r.push(string_from(&t));
        return r;
    }
    let paras = split_paragraph_parts(&t);
    if paras.len() > 1 {
        let c = run_paragraphs(&paras, chunk_size, overlap);
        if c.len() > 0 {
            return strings_of(&c);
        }
    }
    let pieces = sentence_parts(&t);
    if pieces.len() > 1 {
        let c = run_sentences(&pieces, chunk_size, overlap);
        if c.len() > 0 {
            return strings_of(&c);
        }
    }
    proof {
        lemma_byte_len_ge_len(t@);
    }
    let w = run_windows(&t, chunk_size, overlap);
    strings_of(&w)
}


proof fn lemma_window_piece_len(t: Seq<char>, s: nat, size: nat)
    requires
        s < byte_len(t),
    ensures
        window_piece(t, s, size).len() <= size,
{
    let e0: nat = if s + size < byte_len(t) {
        s + size
    } else {
        byte_len(t)
    };
    let j = floor_index(t, e0 as int) as int;
    lemma_floor_index(t, e0 as int);
    if byte_offset(t, j) > s {
        let e = byte_offset(t, j);
        lemma_floor_at_offset(t, j);
        let k = floor_index(t, s as int) as int;
        lemma_floor_index(t, s as int);
        if j <= k {
            if j < k {
                lemma_offset_strict(t, j, k);
            }
        }
        if byte_offset(t, k) == s {
            lemma_offset_strict(t, k, j);
        } else {
            if k + 1 < j {
                lemma_offset_strict(t, k + 1, j);
            }
        }
    }
}

proof fn lemma_fixed_windows_len(t: Seq<char>, s: nat, size: nat, overlap: nat)
    requires
        s < byte_len(t),
    ensures
        forall|i: int|
            0 <= i < fixed_windows(t, s, size, overlap).len() ==> #[trigger] fixed_windows(
                t,
                s,
                size,
                overlap,
            )[i].len() <= size,
    decreases byte_len(t) - s,
{
    lemma_window_piece_len(t, s, size);
    let e0: nat = if s + size < byte_len(t) {
        s + size
    } else {
        byte_len(t)
    };
    let piece = window_piece(t, s, size);
    if !(e0 >= byte_len(t) || overlap >= size || s >= byte_len(t)) {
        let nxt = (e0 - overlap) as nat;
        lemma_fixed_windows_len(t, nxt, size, overlap);
        let rest = fixed_windows(t, nxt, size, overlap);
        let all = fixed_windows(t, s, size, overlap);
        assert(all == seq![piece] + rest);
        assert forall|i: int| 0 <= i < all.len() implies #[trigger] all[i].len() <= size by {
            if i > 0 {
                assert(all[i] == rest[i - 1]);
            }
        }
    } else {
        assert(fixed_windows(t, s, size, overlap) == seq![piece]);
    }
}

/// Law: when the fixed window is used, every chunk holds at most
/// `chunk_size` characters (each byte of the window yields at most one).
pub proof fn law_fixed_window_chunks_bounded(text: Seq<char>, chunk_size: nat, overlap: nat)
    requires
        uses_fixed_window(text, chunk_size, overlap),
    ensures
        forall|i: int|
            0 <= i < chunks_of(text, chunk_size, overlap).len() ==> #[trigger] chunks_of(
                text,
                chunk_size,
                overlap,
            )[i].len() <= chunk_size,
{
    lemma_fixed_windows_len(text, 0, chunk_size, overlap);
}


/// Every chunk emitted so far is trimmed.
pub open spec fn all_trimmed(chunks: Seq<Seq<char>>) -> bool {
    forall|i: int| 0 <= i < chunks.len() ==> is_trimmed(#[trigger] chunks[i])
}

proof fn lemma_finish_trimmed(st: PackState)
    requires
        all_trimmed(st.0),
    ensures
        all_trimmed(finish(st)),
{
    lemma_trim_is_trimmed(st.1);
    let f = finish(st);
    assert forall|i: int| 0 <= i < f.len() implies is_trimmed(#[trigger] f[i]) by {
        if i < st.0.len() {
            assert(f[i] == st.0[i]);
        }
    }
}

proof fn lemma_para_run_trimmed(paras: Seq<Seq<char>>, size: nat, overlap: nat)
    ensures
        all_trimmed(para_run(paras, size, overlap).0),
    decreases paras.len(),
{
    if paras.len() > 0 {
        let prev = para_run(paras.drop_last(), size, overlap);
        lemma_para_run_trimmed(paras.drop_last(), size, overlap);
        lemma_trim_is_trimmed(prev.1);
        let nxt = para_run(paras, size, overlap).0;
        assert forall|i: int| 0 <= i < nxt.len() implies is_trimmed(#[trigger] nxt[i]) by {
            if i < prev.0.len() {
                assert(nxt[i] == prev.0[i]);
            }
        }
    }
}

proof fn lemma_sentence_run_trimmed(pieces: Seq<Seq<char>>, size: nat, overlap: nat)
    ensures
        all_trimmed(sentence_run(pieces, size, overlap).0),
    decreases pieces.len(),
{
    if pieces.len() > 0 {
        let prev = sentence_run(pieces.drop_last(), size, overlap);
        lemma_sentence_run_trimmed(pieces.drop_last(), size, overlap);
        lemma_trim_is_trimmed(prev.1);
        let nxt = sentence_run(pieces, size, overlap).0;
        assert forall|i: int| 0 <= i < nxt.len() implies is_trimmed(#[trigger] nxt[i]) by {
            if i < prev.0.len() {
                assert(nxt[i] == prev.0[i]);
            }
        }
    }
}

/// Law: chunks made by the paragraph or sentence pass carry no leading or
/// trailing whitespace.
pub proof fn law_packed_chunks_trimmed(text: Seq<char>, chunk_size: nat, overlap: nat)
    requires
        byte_len(text) > chunk_size,
        paragraphs_apply(text, chunk_size, overlap) || sentences_apply(text, chunk_size, overlap),
    ensures
        all_trimmed(chunks_of(text, chunk_size, overlap)),
{
    lemma_para_run_trimmed(split_paragraphs(text), chunk_size, overlap);
    lemma_finish_trimmed(para_run(split_paragraphs(text), chunk_size, overlap));
    lemma_sentence_run_trimmed(sentence_pieces(text), chunk_size, overlap);
    lemma_finish_trimmed(sentence_run(sentence_pieces(text), chunk_size, overlap));
    lemma_byte_len_ge_len(text);
}


/// The overlap carried from a chunk is a suffix of it: the shortest one of
/// at least `overlap` bytes that starts on a character, or the whole chunk
/// when it is shorter than `overlap` bytes.
proof fn lemma_overlap_tail_shape(last: Seq<char>, overlap: nat)
    requires
        overlap > 0,
    ensures
        overlap_tail(last, overlap).len() <= last.len(),
        overlap_tail(last, overlap) == last.skip(last.len() - overlap_tail(last, overlap).len()),
        byte_len(last) >= overlap ==> byte_len(overlap_tail(last, overlap)) >= overlap && (overlap_tail(
            last,
            overlap,
        ).len() > 0 ==> byte_len(overlap_tail(last, overlap).drop_first()) < overlap),
        byte_len(last) < overlap ==> overlap_tail(last, overlap) == last,
{
    let b: int = if byte_len(last) >= overlap {
        byte_len(last) - overlap
    } else {
        0
    };
    let fi = floor_index(last, b) as int;
    lemma_floor_index(last, b);
    let t = last.skip(fi);
    assert(t == overlap_tail(last, overlap));
    assert(last.skip(last.len() - t.len()) =~= t);
    lemma_byte_offset_mono(last, fi, last.len() as int);
    lemma_byte_offset_last(last);
    assert(last.subrange(fi, last.len() as int) =~= t);
    if byte_len(last) >= overlap && t.len() > 0 {
        assert(byte_offset(last, fi + 1) > b);
        lemma_byte_offset_mono(last, fi + 1, last.len() as int);
        assert(last.subrange(fi + 1, last.len() as int) =~= t.drop_first());
    }
    if byte_len(last) < overlap {
        lemma_byte_len_ge_len(last.take(fi));
        assert(fi == 0);
        assert(t =~= last);
    }
}

/// Law: in the sentence pass with an overlap, closing a chunk carries its
/// tail into the next one: the chunk closed is the trimmed chunk being
/// built, and the new chunk is the closed chunk's tail followed by the
/// sentence, where the tail is the closed chunk's shortest suffix of at
/// least `overlap` bytes starting on a character (all of it when it is
/// shorter).
pub proof fn law_sentence_overlap_carried(st: PackState, p: Seq<char>, size: nat, overlap: nat)
    requires
        overlap > 0,
        byte_len(st.1 + p) > size,
        st.1.len() > 0,
    ensures
        ({
            let r = sentence_step(st, p, size, overlap);
            let last = r.0.last();
            let t = r.1.take(r.1.len() - p.len());
            &&& r.0.len() == st.0.len() + 1
            &&& r.0.drop_last() == st.0
            &&& last == trim(st.1)
            &&& r.1.len() >= p.len()
            &&& r.1.skip(r.1.len() - p.len()) == p
            &&& t.len() <= last.len()
            &&& t == last.skip(last.len() - t.len())
            &&& byte_len(last) >= overlap ==> byte_len(t) >= overlap && (t.len() > 0 ==> byte_len(t.drop_first())
                < overlap)
            &&& byte_len(last) < overlap ==> t == last
        }),
{
    let r = sentence_step(st, p, size, overlap);
    let last = trim(st.1);
    let tail = overlap_tail(last, overlap);
    lemma_overlap_tail_shape(last, overlap);
    assert(r.1 == tail + p);
    assert(r.0.drop_last() =~= st.0);
    assert(r.1.take(r.1.len() - p.len()) =~= tail);
    assert(r.1.skip(r.1.len() - p.len()) =~= p);
}

} // verus!
