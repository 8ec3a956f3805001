//! Tokenisers and the feature hashing behind the offline embedder.
//!
//! The offline embedder turns a text into signed slots of a fixed-size vector:
//! each token is hashed with 64-bit FNV-1a, the hash modulo the dimension picks
//! the slot and bit 32 of the hash picks the sign.
use vstd::prelude::*;
use vstd::utf8::encode_utf8;

use crate::text::{ascii_lower, chars_of, push_char, string_from, string_views, to_ascii_lower};

verus! {

/// `char::is_alphanumeric` (Unicode `Alphabetic` or `Numeric`).
pub uninterp spec fn unicode_alphanumeric(c: char) -> bool;

/// `str::to_lowercase` (full Unicode lowercase mapping).
pub uninterp spec fn unicode_lowercase(s: Seq<char>) -> Seq<char>;

/// Whether `c` is alphanumeric.
///
/// Trusted: calls `char::is_alphanumeric`; its Unicode tables are not stated,
/// the result is only named.
#[verifier::external_body]
fn is_alphanumeric(c: char) -> (r: bool)
    ensures
        r == unicode_alphanumeric(c),
{
    c.is_alphanumeric()
}

/// The lowercase form of `s`.
///
/// Trusted: calls `str::to_lowercase`; its Unicode mapping is not stated, the
/// result is only named.
#[verifier::external_body]
pub(crate) fn to_lowercase(s: &str) -> (r: String)
    ensures
        r@ == unicode_lowercase(s@),
{
    s.to_lowercase()
}

/// CJK ideographs, Japanese kana and Hangul syllables.
pub open spec fn cjk_char(c: char) -> bool {
    let u = c as u32;
    ||| 0x4E00 <= u <= 0x9FFF
    ||| 0x3400 <= u <= 0x4DBF
    ||| 0x20000 <= u <= 0x2A6DF
    ||| 0x2A700 <= u <= 0x2B73F
    ||| 0xF900 <= u <= 0xFAFF
    ||| 0x3040 <= u <= 0x30FF
    ||| 0xAC00 <= u <= 0xD7AF
}

/// Whether `c` is a CJK character (ideograph, kana or Hangul).
pub fn is_cjk(c: char) -> (r: bool)
    ensures
        r == cjk_char(c),
{
    let u = c as u32;
    (0x4E00 <= u && u <= 0x9FFF) || (0x3400 <= u && u <= 0x4DBF) || (0x20000 <= u && u <= 0x2A6DF)
        || (0x2A700 <= u && u <= 0x2B73F) || (0xF900 <= u && u <= 0xFAFF) || (0x3040 <= u && u
        <= 0x30FF) || (0xAC00 <= u && u <= 0xD7AF)
}

/// FNV-1a offset basis (64 bit).
pub open spec fn fnv_offset() -> u64 {
    0xcbf2_9ce4_8422_2325
}

/// FNV-1a prime (64 bit).
pub open spec fn fnv_prime() -> u64 {
    0x0000_0100_0000_01b3
}

/// 64-bit FNV-1a of a byte string: for each byte, xor it in, then multiply by
/// the prime modulo 2^64.
pub open spec fn fnv1a_spec(bytes: Seq<u8>) -> u64
    decreases bytes.len(),
{
    if bytes.len() == 0 {
        fnv_offset()
    } else {
        let h = fnv1a_spec(bytes.drop_last()) ^ (bytes.last() as u64);
        ((h as nat * fnv_prime() as nat) % 0x1_0000_0000_0000_0000) as u64
    }
}

/// 64-bit FNV-1a of the UTF-8 bytes of `s` (stable across processes).
pub fn fnv1a(s: &str) -> (h: u64)
    ensures
        h == fnv1a_spec(encode_utf8(s@)),
{
    let bytes = s.as_bytes();
    let mut h: u64 = 0xcbf2_9ce4_8422_2325;
    let mut i: usize = 0;
    while i < bytes.len()
        invariant
            i <= bytes@.len(),
            bytes@ == encode_utf8(s@),
            h == fnv1a_spec(bytes@.take(i as int)),
        decreases bytes@.len() - i,
    {
        assert(bytes@.take(i + 1).drop_last() =~= bytes@.take(i as int));
        h = h ^ (bytes[i] as u64);
        h = h.wrapping_mul(0x0000_0100_0000_01b3);
        i += 1;
    }
    assert(bytes@.take(bytes@.len() as int) =~= bytes@);
    h
}

/// Words and the word being read, after the characters of `cs`: runs of
/// alphanumeric characters.
pub open spec fn word_scan(cs: Seq<char>) -> (Seq<Seq<char>>, Seq<char>)
    decreases cs.len(),
{
    if cs.len() == 0 {
        (seq![], seq![])
    } else {
        let (ws, cur) = word_scan(cs.drop_last());
        let c = cs.last();
        if unicode_alphanumeric(c) {
            (ws, cur.push(c))
        } else if cur.len() > 0 {
            (ws.push(cur), seq![])
        } else {
            (ws, seq![])
        }
    }
}

/// The non-empty pieces of `s` between non-alphanumeric characters.
pub open spec fn words_of(s: Seq<char>) -> Seq<Seq<char>> {
    let (ws, cur) = word_scan(s);
    if cur.len() > 0 {
        ws.push(cur)
    } else {
        ws
    }
}

/// Splits already-lowercased text into its alphanumeric words.
pub fn split_words(lowered: &str) -> (r: Vec<String>)
    ensures
        string_views(r@) == words_of(lowered@),
{
    let cs = chars_of(lowered);
    let mut ws: Vec<String> = Vec::new();
    let mut cur: Vec<char> = Vec::new();
    let mut i: usize = 0;
    assert(string_views(ws@) =~= seq![]);
    assert(cs@.take(0) =~= seq![]);
    while i < cs.len()
        invariant
            i <= cs@.len(),
            cs@ == lowered@,
            (string_views(ws@), cur@) == word_scan(cs@.take(i as int)),
        decreases cs@.len() - i,
    {
        let c = cs[i];
        assert(cs@.take(i + 1).drop_last() =~= cs@.take(i as int));
        if is_alphanumeric(c) {
            cur.push(c);
        } else if cur.len() > 0 {
            let ghost before = ws@;
            ws.push(string_from(&cur));
            assert(string_views(ws@) =~= string_views(before).push(cur@));
            cur = Vec::new();
            assert(cur@ =~= Seq::<char>::empty());
        } else {
            assert(cur@ =~= Seq::<char>::empty());
        }
        i += 1;
    }
    assert(cs@.take(cs@.len() as int) =~= cs@);
    if cur.len() > 0 {
        let ghost before = ws@;
        ws.push(string_from(&cur));
        assert(string_views(ws@) =~= string_views(before).push(cur@));
    }
    ws
}

/// Lowercases `text` and splits it into alphanumeric words (the BM25
/// tokeniser).
pub fn tokenize(text: &str) -> (r: Vec<String>)
    ensures
        string_views(r@) == words_of(unicode_lowercase(text@)),
{
    let lowered = to_lowercase(text);
    split_words(lowered.as_str())
}

/// Tokens and the ASCII word being read, after the characters of `cs`: a
/// non-CJK alphanumeric character extends the word (ASCII-lowercased); any
/// other character ends it, and a CJK character is a token of its own.
pub open spec fn local_scan(cs: Seq<char>) -> (Seq<Seq<char>>, Seq<char>)
    decreases cs.len(),
{
    if cs.len() == 0 {
        (seq![], seq![])
    } else {
        let (ts, word) = local_scan(cs.drop_last());
        let c = cs.last();
        if unicode_alphanumeric(c) && !cjk_char(c) {
            (ts, word.push(ascii_lower(c)))
        } else {
            let ended = if word.len() > 0 {
                ts.push(word)
            } else {
                ts
            };
            (
                if cjk_char(c) {
                    ended.push(seq![c])
                } else {
                    ended
                },
                seq![],
            )
        }
    }
}

/// The CJK characters of `s`, in order.
pub open spec fn cjk_only(s: Seq<char>) -> Seq<char>
    decreases s.len(),
{
    if s.len() == 0 {
        seq![]
    } else if cjk_char(s.last()) {
        cjk_only(s.drop_last()).push(s.last())
    } else {
        cjk_only(s.drop_last())
    }
}

/// `##` followed by each pair of adjacent characters of `k`.
pub open spec fn bigrams(k: Seq<char>) -> Seq<Seq<char>> {
    Seq::new(
        if k.len() >= 2 {
            (k.len() - 1) as nat
        } else {
            0
        },
        |i: int| seq!['#', '#', k[i], k[i + 1]],
    )
}

/// The tokens of the offline embedder: lowercased ASCII-style words and single
/// CJK characters in text order, then the bigrams of the CJK characters.
pub open spec fn local_tokens(s: Seq<char>) -> Seq<Seq<char>> {
    let (ts, word) = local_scan(s);
    let words = if word.len() > 0 {
        ts.push(word)
    } else {
        ts
    };
    words + bigrams(cjk_only(s))
}

/// Chinese-aware tokeniser: words, single CJK characters and CJK bigrams.
pub fn tokenize_local(text: &str) -> (r: Vec<String>)
    ensures
        string_views(r@) == local_tokens(text@),
{
    let cs = chars_of(text);
    let mut ts: Vec<String> = Vec::new();
    let mut word: Vec<char> = Vec::new();
    let mut cjk: Vec<char> = Vec::new();
    let mut i: usize = 0;
    assert(string_views(ts@) =~= seq![]);
    assert(cs@.take(0) =~= seq![]);
    while i < cs.len()
        invariant
            i <= cs@.len(),
            cs@ == text@,
            (string_views(ts@), word@) == local_scan(cs@.take(i as int)),
            cjk@ == cjk_only(cs@.take(i as int)),
        decreases cs@.len() - i,
    {
        let c = cs[i];
        assert(cs@.take(i + 1).drop_last() =~= cs@.take(i as int));
        let k = is_cjk(c);
        if k {
            cjk.push(c);
        }
        if is_alphanumeric(c) && !k {
            word.push(to_ascii_lower(c));
        } else {
            if word.len() > 0 {
                let ghost before = ts@;
                ts.push(string_from(&word));
                assert(string_views(ts@) =~= string_views(before).push(word@));
            }
            word = Vec::new();
            assert(word@ =~= Seq::<char>::empty());
            if k {
                let ghost before = ts@;
                let mut one = String::new();
                push_char(&mut one, c);
                assert(one@ =~= seq![c]);
                ts.push(one);
                assert(string_views(ts@) =~= string_views(before).push(seq![c]));
            }
        }
        i += 1;
    }
    assert(cs@.take(cs@.len() as int) =~= cs@);
    if word.len() > 0 {
        let ghost before = ts@;
        ts.push(string_from(&word));
        assert(string_views(ts@) =~= string_views(before).push(word@));
    }
    let ghost words = string_views(ts@);
    let m: usize = if cjk.len() >= 2 {
        cjk.len() - 1
    } else {
        0
    };
    let mut j: usize = 0;
    while j < m
        invariant
            cjk@ == cjk_only(text@),
            m == bigrams(cjk@).len(),
            m < cjk@.len() || m == 0,
            j <= m,
            string_views(ts@) == words + bigrams(cjk@).take(j as int),
        decreases m - j,
    {
        let ghost before = ts@;
        let mut g = String::new();
        push_char(&mut g, '#');
        push_char(&mut g, '#');
        push_char(&mut g, cjk[j]);
        push_char(&mut g, cjk[j + 1]);
        assert(g@ =~= seq!['#', '#', cjk@[j as int], cjk@[j + 1]]);
        ts.push(g);
        assert(bigrams(cjk@).take(j + 1) =~= bigrams(cjk@).take(j as int).push(g@));
        assert(string_views(ts@) =~= string_views(before).push(g@));
        j += 1;
    }
    assert(bigrams(cjk@).take(j as int) =~= bigrams(cjk@));
    ts
}

/// Slot of the embedding vector that a token hash selects.
pub open spec fn slot_of(h: u64, dim: nat) -> nat {
    (h as nat) % dim
}

/// Whether a token hash adds (rather than subtracts) its unit: bit 32.
pub open spec fn sign_of(h: u64) -> bool {
    (h >> 32u64) & 1u64 == 1u64
}

/// The slot and sign of each local token of `s`.
pub open spec fn feature_slots_spec(s: Seq<char>, dim: nat) -> Seq<(nat, bool)> {
    local_tokens(s).map_values(
        |t: Seq<char>|
            (slot_of(fnv1a_spec(encode_utf8(t)), dim), sign_of(fnv1a_spec(encode_utf8(t)))),
    )
}

/// Deterministic offline embedder: feature hashing into `dim` slots.
#[derive(Debug, Clone, Copy)]
pub struct LocalEmbedder {
    pub dim: usize,
}

impl Default for LocalEmbedder {
    fn default() -> (r: Self)
        ensures
            r.dim == 256,
    {
        LocalEmbedder { dim: 256 }
    }
}

impl LocalEmbedder {
    /// An embedder with `dim` slots.
    pub fn new(dim: usize) -> (r: Self)
        ensures
            r.dim == dim,
    {
        LocalEmbedder { dim }
    }

    /// For each local token of `text`, in order, the slot it falls in and
    /// whether it adds one (`true`) or subtracts one there.  The embedding is
    /// the sum of these units, normalised to length one.
    pub fn feature_slots(&self, text: &str) -> (r: Vec<(usize, bool)>)
        requires
            self.dim > 0 || local_tokens(text@).len() == 0,
        ensures
            r@.len() == feature_slots_spec(text@, self.dim as nat).len(),
            forall|i: int|
                0 <= i < r@.len() ==> (#[trigger] r@[i].0 as nat, r@[i].1) == feature_slots_spec(
                    text@,
                    self.dim as nat,
                )[i],
    {
        let toks = tokenize_local(text);
        let mut out: Vec<(usize, bool)> = Vec::new();
        let mut i: usize = 0;
        while i < toks.len()
            invariant
                i <= toks@.len(),
                string_views(toks@) == local_tokens(text@),
                self.dim > 0 || toks@.len() == 0,
                out@.len() == i,
                forall|k: int|
                    0 <= k < i ==> (#[trigger] out@[k].0 as nat, out@[k].1)
                        == feature_slots_spec(text@, self.dim as nat)[k],
            decreases toks@.len() - i,
        {
            let h = fnv1a(toks[i].as_str());
            assert(string_views(toks@)[i as int] == toks@[i as int]@);
            let slot = (h % (self.dim as u64)) as usize;
            let sign = (h >> 32u64) & 1u64 == 1u64;
            out.push((slot, sign));
            i += 1;
        }
        out
    }
}

} // verus!
