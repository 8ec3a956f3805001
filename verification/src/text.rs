//! Character-level text model shared by the text-processing modules.
//!
//! Strings are reasoned about as their `Seq<char>` views.  Byte lengths are the
//! lengths of the UTF-8 encodings, computed character by character.
use vstd::prelude::*;
use vstd::utf8::{char_is_scalar, encode_scalar, encode_utf8};

verus! {

/// The views of a sequence of character vectors.
pub open spec fn seqs_of(v: Seq<Vec<char>>) -> Seq<Seq<char>> {
    v.map_values(|p: Vec<char>| p@)
}

/// The views of a vector of strings.
pub open spec fn string_views(v: Seq<String>) -> Seq<Seq<char>> {
    v.map_values(|s: String| s@)
}

/// Number of bytes of the UTF-8 encoding of `c`.
pub open spec fn utf8_width(c: char) -> nat {
    if (c as u32) < 0x80 {
        1
    } else if (c as u32) < 0x800 {
        2
    } else if (c as u32) < 0x10000 {
        3
    } else {
        4
    }
}

/// Number of bytes of the UTF-8 encoding of `s`.
pub open spec fn byte_len(s: Seq<char>) -> nat
    decreases s.len(),
{
    if s.len() == 0 {
        0
    } else {
        byte_len(s.drop_last()) + utf8_width(s.last())
    }
}

/// Byte offset of the character at index `k` of `s`.
pub open spec fn byte_offset(s: Seq<char>, k: int) -> nat {
    byte_len(s.take(k))
}

/// Index of the last character boundary of `s` at or before byte `b`
/// (the character-index counterpart of `str::floor_char_boundary`).
pub open spec fn floor_index(s: Seq<char>, b: int) -> nat
    decreases s.len(),
{
    if s.len() == 0 {
        0
    } else if byte_len(s) <= b {
        s.len()
    } else {
        floor_index(s.drop_last(), b)
    }
}

/// Unicode `White_Space`, the property behind `char::is_whitespace`.
pub open spec fn is_white(c: char) -> bool {
    let u = c as u32;
    ||| 0x09 <= u <= 0x0d
    ||| u == 0x20
    ||| u == 0x85
    ||| u == 0xa0
    ||| u == 0x1680
    ||| 0x2000 <= u <= 0x200a
    ||| u == 0x2028
    ||| u == 0x2029
    ||| u == 0x202f
    ||| u == 0x205f
    ||| u == 0x3000
}

/// `s` without leading whitespace.
pub open spec fn trim_start(s: Seq<char>) -> Seq<char>
    decreases s.len(),
{
    if s.len() > 0 && is_white(s[0]) {
        trim_start(s.drop_first())
    } else {
        s
    }
}

/// `s` without trailing whitespace.
pub open spec fn trim_end(s: Seq<char>) -> Seq<char>
    decreases s.len(),
{
    if s.len() > 0 && is_white(s.last()) {
        trim_end(s.drop_last())
    } else {
        s
    }
}

/// `s` without leading and trailing whitespace (`str::trim`).
pub open spec fn trim(s: Seq<char>) -> Seq<char> {
    trim_end(trim_start(s))
}

pub proof fn lemma_byte_len_add(a: Seq<char>, b: Seq<char>)
    ensures
        byte_len(a + b) == byte_len(a) + byte_len(b),
    decreases b.len(),
{
    if b.len() == 0 {
        assert(a + b =~= a);
    } else {
        assert((a + b).drop_last() =~= a + b.drop_last());
        assert((a + b).last() == b.last());
        lemma_byte_len_add(a, b.drop_last());
    }
}

pub proof fn lemma_byte_len_ge_len(s: Seq<char>)
    ensures
        byte_len(s) >= s.len(),
    decreases s.len(),
{
    if s.len() > 0 {
        lemma_byte_len_ge_len(s.drop_last());
    }
}

pub proof fn lemma_byte_offset_mono(s: Seq<char>, i: int, j: int)
    requires
        0 <= i <= j <= s.len(),
    ensures
        byte_offset(s, i) <= byte_offset(s, j),
        byte_offset(s, j) == byte_offset(s, i) + byte_len(s.subrange(i, j)),
{
    assert(s.take(j) =~= s.take(i) + s.subrange(i, j));
    lemma_byte_len_add(s.take(i), s.subrange(i, j));
}

pub proof fn lemma_trim_start_suffix(s: Seq<char>)
    ensures
        exists|k: int| 0 <= k <= s.len() && trim_start(s) == s.skip(k),
        trim_start(s).len() > 0 ==> !is_white(trim_start(s)[0]),
    decreases s.len(),
{
    if s.len() > 0 && is_white(s[0]) {
        lemma_trim_start_suffix(s.drop_first());
        let k = choose|k: int| 0 <= k <= s.drop_first().len() && trim_start(s.drop_first()) == s.drop_first().skip(k);
        assert(s.drop_first().skip(k) =~= s.skip(k + 1));
    } else {
        assert(s.skip(0) =~= s);
    }
}

pub proof fn lemma_floor_index(s: Seq<char>, b: int)
    requires
        b >= 0,
    ensures
        floor_index(s, b) <= s.len(),
        byte_offset(s, floor_index(s, b) as int) <= b,
        forall|k: int|
            floor_index(s, b) < k <= s.len() ==> #[trigger] byte_offset(s, k) > b,
    decreases s.len(),
{
    assert(s.take(s.len() as int) =~= s);
    if s.len() == 0 {
        assert(s.take(0) =~= s);
    } else if byte_len(s) <= b {
    } else {
        let d = s.drop_last();
        lemma_floor_index(d, b);
        let fi = floor_index(d, b);
        assert(d.take(fi as int) =~= s.take(fi as int));
        assert forall|k: int| fi < k <= s.len() implies #[trigger] byte_offset(s, k) > b by {
            if k < s.len() {
                assert(d.take(k) =~= s.take(k));
                assert(byte_offset(d, k) > b);
            }
        }
    }
}

/// `floor_index` is the unique boundary with those two properties.
pub proof fn lemma_floor_index_unique(s: Seq<char>, b: int, k: int)
    requires
        b >= 0,
        0 <= k <= s.len(),
        byte_offset(s, k) <= b,
        forall|j: int| k < j <= s.len() ==> #[trigger] byte_offset(s, j) > b,
    ensures
        floor_index(s, b) == k,
{
    lemma_floor_index(s, b);
    let fi = floor_index(s, b) as int;
    if fi < k {
        assert(byte_offset(s, k) > b);
    } else if fi > k {
        assert(byte_offset(s, fi) > b);
    }
}

pub proof fn lemma_byte_offset_zero(s: Seq<char>)
    ensures
        byte_offset(s, 0) == 0,
{
    assert(s.take(0).len() == 0);
}

pub proof fn lemma_byte_offset_last(s: Seq<char>)
    ensures
        byte_offset(s, s.len() as int) == byte_len(s),
{
    assert(s.take(s.len() as int) =~= s);
}

pub proof fn lemma_byte_offset_step(s: Seq<char>, k: int)
    requires
        0 <= k < s.len(),
    ensures
        byte_offset(s, k + 1) == byte_offset(s, k) + utf8_width(s[k]),
{
    assert(s.take(k + 1).drop_last() =~= s.take(k));
}

/// `s` has neither leading nor trailing whitespace.
pub open spec fn is_trimmed(s: Seq<char>) -> bool {
    s.len() == 0 || (!is_white(s[0]) && !is_white(s.last()))
}

pub proof fn lemma_trim_end_prefix(s: Seq<char>)
    ensures
        exists|m: int| 0 <= m <= s.len() && trim_end(s) == s.take(m),
        trim_end(s).len() > 0 ==> !is_white(trim_end(s).last()),
    decreases s.len(),
{
    if s.len() > 0 && is_white(s.last()) {
        lemma_trim_end_prefix(s.drop_last());
        let m = choose|m: int| 0 <= m <= s.drop_last().len() && trim_end(s.drop_last()) == s.drop_last().take(m);
        assert(s.drop_last().take(m) =~= s.take(m));
    } else {
        assert(s.take(s.len() as int) =~= s);
    }
}

/// `trim` leaves no whitespace at either end.
pub proof fn lemma_trim_is_trimmed(s: Seq<char>)
    ensures
        is_trimmed(trim(s)),
{
    lemma_trim_start_suffix(s);
    let ts = trim_start(s);
    lemma_trim_end_prefix(ts);
    let m = choose|m: int| 0 <= m <= ts.len() && trim_end(ts) == ts.take(m);
    if m > 0 {
        assert(trim(s)[0] == ts[0]);
    }
}

/// Trimming a trimmed string changes nothing.
pub proof fn lemma_trimmed_fixed(s: Seq<char>)
    requires
        is_trimmed(s),
    ensures
        trim(s) == s,
{
}

/// Width of the UTF-8 encoding of `c`.
pub fn char_width(c: char) -> (w: usize)
    ensures
        w == utf8_width(c),
        1 <= w <= 4,
{
    let u = c as u32;
    if u < 0x80 {
        1
    } else if u < 0x800 {
        2
    } else if u < 0x10000 {
        3
    } else {
        4
    }
}

/// `char::is_whitespace`.
pub fn is_white_char(c: char) -> (b: bool)
    ensures
        b == is_white(c),
{
    let u = c as u32;
    (0x09 <= u && u <= 0x0d) || u == 0x20 || u == 0x85 || u == 0xa0 || u == 0x1680 || (0x2000
        <= u && u <= 0x200a) || u == 0x2028 || u == 0x2029 || u == 0x202f || u == 0x205f || u
        == 0x3000
}

/// Appends one character to a string.
///
/// Trusted: calls `String::push`, which std documents as appending the given
/// `char` to the end of the string.
#[verifier::external_body]
pub(crate) fn push_char(s: &mut String, c: char)
    ensures
        final(s)@ == old(s)@.push(c),
{
    s.push(c);
}

/// The characters of `s`, in order.
pub fn chars_of(s: &str) -> (v: Vec<char>)
    ensures
        v@ == s@,
{
    let mut v: Vec<char> = Vec::new();
    for c in it: s.chars()
        invariant
            v@ == it.seq().take(it.index()),
    {
        v.push(c);
    }
    v
}

/// A string holding the characters `v[lo..hi]`.
pub fn string_of(v: &[char], lo: usize, hi: usize) -> (s: String)
    requires
        lo <= hi <= v@.len(),
    ensures
        s@ == v@.subrange(lo as int, hi as int),
{
    let mut s = String::new();
    let mut i = lo;
    while i < hi
        invariant
            lo <= i <= hi <= v@.len(),
            s@ == v@.subrange(lo as int, i as int),
        decreases hi - i,
    {
        push_char(&mut s, v[i]);
        assert(v@.subrange(lo as int, i + 1) =~= v@.subrange(lo as int, i as int).push(v@[i as int]));
        i += 1;
    }
    s
}

/// A string holding all of `v`.
pub fn string_from(v: &[char]) -> (s: String)
    ensures
        s@ == v@,
{
    let s = string_of(v, 0, v.len());
    assert(v@.subrange(0, v@.len() as int) =~= v@);
    s
}

/// The characters `v[lo..hi]`.
pub fn slice_chars(v: &[char], lo: usize, hi: usize) -> (r: Vec<char>)
    requires
        lo <= hi <= v@.len(),
    ensures
        r@ == v@.subrange(lo as int, hi as int),
{
    let mut r: Vec<char> = Vec::new();
    let mut i = lo;
    while i < hi
        invariant
            lo <= i <= hi <= v@.len(),
            r@ == v@.subrange(lo as int, i as int),
        decreases hi - i,
    {
        r.push(v[i]);
        assert(v@.subrange(lo as int, i + 1) =~= v@.subrange(lo as int, i as int).push(v@[i as int]));
        i += 1;
    }
    r
}

/// Appends the characters of `src` to `dst`.
pub fn extend_chars(dst: &mut Vec<char>, src: &[char])
    ensures
        final(dst)@ == old(dst)@ + src@,
{
    let mut i: usize = 0;
    while i < src.len()
        invariant
            i <= src@.len(),
            dst@ == old(dst)@ + src@.take(i as int),
        decreases src@.len() - i,
    {
        dst.push(src[i]);
        assert(src@.take(i + 1) =~= src@.take(i as int).push(src@[i as int]));
        i += 1;
    }
    assert(src@.take(src@.len() as int) =~= src@);
}

/// Index of the first non-whitespace character of `v` (or `v.len()`).
pub fn trim_start_index(v: &[char]) -> (k: usize)
    ensures
        k <= v@.len(),
        trim_start(v@) == v@.skip(k as int),
{
    let mut i: usize = 0;
    assert(v@.skip(0) =~= v@);
    while i < v.len() && is_white_char(v[i])
        invariant
            i <= v@.len(),
            trim_start(v@) == trim_start(v@.skip(i as int)),
        decreases v@.len() - i,
    {
        assert(v@.skip(i as int).drop_first() =~= v@.skip(i + 1));
        i += 1;
    }
    i
}

/// Index just past the last non-whitespace character of `v[lo..]`.
pub fn trim_end_index(v: &[char], lo: usize) -> (k: usize)
    requires
        lo <= v@.len(),
    ensures
        lo <= k <= v@.len(),
        trim_end(v@.skip(lo as int)) == v@.subrange(lo as int, k as int),
{
    let mut j: usize = v.len();
    assert(v@.skip(lo as int) =~= v@.subrange(lo as int, j as int));
    while j > lo && is_white_char(v[j - 1])
        invariant
            lo <= j <= v@.len(),
            trim_end(v@.skip(lo as int)) == trim_end(v@.subrange(lo as int, j as int)),
        decreases j,
    {
        assert(v@.subrange(lo as int, j as int).drop_last() =~= v@.subrange(lo as int, j - 1));
        j -= 1;
    }
    j
}

/// `v` without leading and trailing whitespace.
pub fn trimmed(v: &[char]) -> (r: Vec<char>)
    ensures
        r@ == trim(v@),
{
    let lo = trim_start_index(v);
    let hi = trim_end_index(v, lo);
    slice_chars(v, lo, hi)
}

/// UTF-8 byte length of `v`, saturating at `usize::MAX`.
pub fn byte_len_sat(v: &[char]) -> (n: usize)
    ensures
        n as nat == if byte_len(v@) <= usize::MAX { byte_len(v@) } else { usize::MAX as nat },
{
    let mut n: usize = 0;
    let mut i: usize = 0;
    while i < v.len()
        invariant
            i <= v@.len(),
            n as nat == if byte_len(v@.take(i as int)) <= usize::MAX {
                byte_len(v@.take(i as int))
            } else {
                usize::MAX as nat
            },
        decreases v@.len() - i,
    {
        let w = char_width(v[i]);
        proof {
            assert(v@.take(i + 1).drop_last() =~= v@.take(i as int));
        }
        n = n.saturating_add(w);
        i += 1;
    }
    assert(v@.take(v@.len() as int) =~= v@);
    n
}


/// Index of the first `c` in `s` at or after `from`, or -1.
pub open spec fn find_from(s: Seq<char>, c: char, from: int) -> int
    decreases s.len() - from,
{
    if from < 0 || from >= s.len() {
        -1
    } else if s[from] == c {
        from
    } else {
        find_from(s, c, from + 1)
    }
}

/// A found index lies in range and holds `c`.
pub proof fn lemma_find_from_range(s: Seq<char>, c: char, from: int)
    ensures
        find_from(s, c, from) == -1 || (from <= find_from(s, c, from) < s.len() && s[find_from(
            s,
            c,
            from,
        )] == c),
    decreases s.len() - from,
{
    if 0 <= from < s.len() && s[from] != c {
        lemma_find_from_range(s, c, from + 1);
    }
}

/// `t` without one trailing carriage return.
pub open spec fn strip_cr(t: Seq<char>) -> Seq<char> {
    if t.len() > 0 && t.last() == '\r' {
        t.drop_last()
    } else {
        t
    }
}

/// The lines of `s` from index `pos` on, as `str::lines` yields them: split at
/// each `\n`, a `\r` right before it dropped, no empty line after a final `\n`.
pub open spec fn lines_from(s: Seq<char>, pos: int) -> Seq<Seq<char>>
    decreases s.len() - pos,
{
    if pos < 0 || pos >= s.len() {
        seq![]
    } else {
        let i = find_from(s, '\n', pos);
        if i < 0 {
            seq![s.subrange(pos, s.len() as int)]
        } else {
            proof {
                lemma_find_from_range(s, '\n', pos);
            }
            seq![strip_cr(s.subrange(pos, i))] + lines_from(s, i + 1)
        }
    }
}

/// The lines of `s` (`str::lines`).
pub open spec fn lines_of(s: Seq<char>) -> Seq<Seq<char>> {
    lines_from(s, 0)
}

/// The pieces of `s` from index `pos` on, between occurrences of `c`
/// (`str::split` on a character: a trailing `c` leaves an empty last piece).
pub open spec fn split_at_char(s: Seq<char>, c: char, pos: int) -> Seq<Seq<char>>
    decreases s.len() + 1 - pos,
{
    if pos < 0 || pos > s.len() {
        seq![]
    } else {
        let i = find_from(s, c, pos);
        if i < 0 {
            seq![s.subrange(pos, s.len() as int)]
        } else {
            proof {
                lemma_find_from_range(s, c, pos);
            }
            seq![s.subrange(pos, i)] + split_at_char(s, c, i + 1)
        }
    }
}

/// `split_at_char` at a position in range is its first piece followed by the
/// pieces after the next separator (or nothing after the last piece).
pub proof fn lemma_split_at_char(s: Seq<char>, c: char, pos: int)
    requires
        0 <= pos <= s.len(),
    ensures
        split_at_char(s, c, pos).len() >= 1,
        find_from(s, c, pos) < 0 ==> split_at_char(s, c, pos) == seq![s.subrange(pos, s.len() as int)],
        find_from(s, c, pos) >= 0 ==> split_at_char(s, c, pos) == seq![s.subrange(pos, find_from(s, c, pos))] + split_at_char(s, c, find_from(s, c, pos) + 1),
{
}

/// The pieces of `v` between occurrences of `c`.
pub fn split_char(v: &Vec<char>, c: char) -> (r: Vec<Vec<char>>)
    ensures
        seqs_of(r@) == split_at_char(v@, c, 0),
{
    let mut r: Vec<Vec<char>> = Vec::new();
    let mut pos: usize = 0;
    let mut done = false;
    let n = v.len();
    assert(seqs_of(r@) =~= seq![]);
    while !done
        invariant
            n == v@.len(),
            pos <= v@.len(),
            !done ==> seqs_of(r@) + split_at_char(v@, c, pos as int) == split_at_char(v@, c, 0),
            done ==> seqs_of(r@) == split_at_char(v@, c, 0),
        decreases v@.len() + 1 - pos + if done { 0int } else { 1int },
    {
        proof {
            lemma_split_at_char(v@, c, pos as int);
            lemma_find_from_range(v@, c, pos as int);
        }
        let ghost rest = split_at_char(v@, c, pos as int);
        let found = find_char(v, c, pos);
        let end = match found {
            Some(i) => i,
            None => v.len(),
        };
        let piece = slice_chars(v, pos, end);
        let ghost before = r@;
        r.push(piece);
        assert(seqs_of(r@) =~= seqs_of(before).push(piece@));
        match found {
            Some(_) => {
                assert(seqs_of(r@) + split_at_char(v@, c, end + 1) =~= seqs_of(before) + rest);
                pos = end + 1;
            },
            None => {
                assert(seqs_of(r@) =~= seqs_of(before) + rest);
                done = true;
            },
        }
    }
    r
}

/// Index of the last `c` in `s` before `upto`, or -1.
pub open spec fn rfind_before(s: Seq<char>, c: char, upto: int) -> int
    decreases upto,
{
    if upto <= 0 || upto > s.len() {
        -1
    } else if s[upto - 1] == c {
        upto - 1
    } else {
        rfind_before(s, c, upto - 1)
    }
}

/// Index of the first `c` in `v` at or after `from`.
pub fn find_char(v: &[char], c: char, from: usize) -> (r: Option<usize>)
    ensures
        match r {
            Some(i) => i == find_from(v@, c, from as int) && from <= i < v@.len() && v@[i as int] == c,
            None => find_from(v@, c, from as int) == -1,
        },
{
    let mut i = from;
    if i >= v.len() {
        return None;
    }
    while i < v.len()
        invariant
            from <= i <= v@.len(),
            find_from(v@, c, from as int) == find_from(v@, c, i as int),
        decreases v@.len() - i,
    {
        if v[i] == c {
            return Some(i);
        }
        i += 1;
    }
    None
}


/// The lines of `v` (`str::lines`).
pub fn split_lines(v: &Vec<char>) -> (r: Vec<Vec<char>>)
    ensures
        seqs_of(r@) == lines_of(v@),
{
    let mut r: Vec<Vec<char>> = Vec::new();
    let mut pos: usize = 0;
    assert(seqs_of(r@) =~= seq![]);
    while pos < v.len()
        invariant
            pos <= v@.len(),
            seqs_of(r@) + lines_from(v@, pos as int) == lines_of(v@),
        decreases v@.len() - pos,
    {
        let ghost lines = lines_from(v@, pos as int);
        let (hi, next) = match find_char(v, '\n', pos) {
            Some(i) => {
                if i > pos && v[i - 1] == '\r' {
                    (i - 1, i + 1)
                } else {
                    (i, i + 1)
                }
            },
            None => (v.len(), v.len()),
        };
        let line = slice_chars(v, pos, hi);
        proof {
            lemma_find_from_range(v@, '\n', pos as int);
            let i = find_from(v@, '\n', pos as int);
            if i >= 0 {
                let raw = v@.subrange(pos as int, i);
                if i > pos && v@[i - 1] == '\r' {
                    assert(raw.drop_last() =~= line@);
                } else {
                    assert(raw =~= line@);
                }
            }
            assert(lines[0] == line@);
            assert(lines.drop_first() =~= lines_from(v@, next as int));
        }
        let ghost before = r@;
        r.push(line);
        proof {
            assert(seqs_of(r@) =~= seqs_of(before).push(line@));
            assert(seqs_of(r@) + lines_from(v@, next as int) =~= seqs_of(before) + lines);
        }
        pos = next;
    }
    assert(seqs_of(r@) + seq![] =~= seqs_of(r@));
    r
}

/// Index of the last `c` in `v` before `upto`.
pub fn rfind_char(v: &[char], c: char, upto: usize) -> (r: Option<usize>)
    requires
        upto <= v@.len(),
    ensures
        match r {
            Some(i) => i == rfind_before(v@, c, upto as int) && i < upto && v@[i as int] == c,
            None => rfind_before(v@, c, upto as int) == -1,
        },
{
    let mut k = upto;
    while k > 0
        invariant
            k <= upto <= v@.len(),
            rfind_before(v@, c, upto as int) == rfind_before(v@, c, k as int),
        decreases k,
    {
        if v[k - 1] == c {
            return Some(k - 1);
        }
        k -= 1;
    }
    None
}

/// Decimal value of a string of ASCII digits.
pub open spec fn digits_value(s: Seq<char>) -> nat
    decreases s.len(),
{
    if s.len() == 0 {
        0
    } else {
        digits_value(s.drop_last()) * 10 + ((s.last() as u32) - ('0' as u32)) as nat
    }
}

/// Every character of `s` is an ASCII digit.
pub open spec fn all_digits(s: Seq<char>) -> bool {
    forall|i: int| 0 <= i < s.len() ==> '0' <= #[trigger] s[i] <= '9'
}

/// The decimal digits of `n` (no leading zeros; "0" for zero).
pub open spec fn decimal(n: nat) -> Seq<char>
    decreases n,
{
    if n < 10 {
        seq![(('0' as u32) + n) as char]
    } else {
        decimal(n / 10).push((('0' as u32) + (n % 10)) as char)
    }
}

/// The decimal digits of `n`.
pub fn decimal_chars(n: u64) -> (r: Vec<char>)
    ensures
        r@ == decimal(n as nat),
    decreases n,
{
    if n < 10 {
        let c = char_from_digit(n as u32);
        let mut r = Vec::new();
        r.push(c);
        assert(r@ =~= seq![(('0' as u32) + n as nat) as char]);
        r
    } else {
        let mut r = decimal_chars(n / 10);
        let c = char_from_digit((n % 10) as u32);
        r.push(c);
        r
    }
}

/// The ASCII digit for `d`.
fn char_from_digit(d: u32) -> (c: char)
    requires
        d < 10,
    ensures
        c == (('0' as u32) + d) as char,
{
    if d == 0 { '0' }
    else if d == 1 { '1' }
    else if d == 2 { '2' }
    else if d == 3 { '3' }
    else if d == 4 { '4' }
    else if d == 5 { '5' }
    else if d == 6 { '6' }
    else if d == 7 { '7' }
    else if d == 8 { '8' }
    else { '9' }
}


/// The byte offset of every character boundary of `t`.
pub fn boundary_offsets(t: &Vec<char>) -> (offs: Vec<usize>)
    requires
        byte_len(t@) <= usize::MAX,
    ensures
        offs@.len() == t@.len() + 1,
        forall|k: int| 0 <= k <= t@.len() ==> offs@[k] == byte_offset(t@, k),
{
    let mut offs: Vec<usize> = Vec::new();
    let mut acc: usize = 0;
    let mut i: usize = 0;
    proof {
        lemma_byte_offset_zero(t@);
    }
    offs.push(0);
    while i < t.len()
        invariant
            i <= t@.len(),
            byte_len(t@) <= usize::MAX,
            offs@.len() == i + 1,
            acc == byte_offset(t@, i as int),
            forall|k: int| 0 <= k <= i ==> offs@[k] == byte_offset(t@, k),
        decreases t@.len() - i,
    {
        let w = char_width(t[i]);
        proof {
            lemma_byte_offset_step(t@, i as int);
            lemma_byte_offset_mono(t@, i + 1, t@.len() as int);
            lemma_byte_offset_last(t@);
        }
        acc = acc + w;
        offs.push(acc);
        i += 1;
    }
    offs
}

/// The last character boundary at or before byte `b`.
pub fn floor_at(offs: &Vec<usize>, b: usize, Ghost(t): Ghost<Seq<char>>) -> (k: usize)
    requires
        offs@.len() == t.len() + 1,
        forall|k: int| 0 <= k <= t.len() ==> offs@[k] == byte_offset(t, k),
    ensures
        k <= t.len(),
        k == floor_index(t, b as int),
        offs@[k as int] <= b,
{
    let mut k = offs.len() - 1;
    proof {
        lemma_byte_offset_zero(t);
    }
    while offs[k] > b
        invariant
            k <= t.len(),
            offs@.len() == t.len() + 1,
            forall|j: int| 0 <= j <= t.len() ==> offs@[j] == byte_offset(t, j),
            forall|j: int| k < j <= t.len() ==> #[trigger] byte_offset(t, j) > b,
            byte_offset(t, 0) == 0,
        decreases k,
    {
        k -= 1;
    }
    proof {
        lemma_floor_index_unique(t, b as int, k as int);
    }
    k
}


/// Later boundaries lie at least one byte per character further.
pub proof fn lemma_offset_strict(s: Seq<char>, i: int, j: int)
    requires
        0 <= i < j <= s.len(),
    ensures
        byte_offset(s, i) + (j - i) <= byte_offset(s, j),
{
    lemma_byte_offset_mono(s, i, j);
    lemma_byte_len_ge_len(s.subrange(i, j));
}

/// A boundary's own byte offset floors to that boundary.
pub proof fn lemma_floor_at_offset(s: Seq<char>, j: int)
    requires
        0 <= j <= s.len(),
    ensures
        floor_index(s, byte_offset(s, j) as int) == j,
{
    assert forall|k: int| j < k <= s.len() implies #[trigger] byte_offset(s, k) > byte_offset(s, j) by {
        lemma_offset_strict(s, j, k);
    }
    lemma_floor_index_unique(s, byte_offset(s, j) as int, j);
}

/// Whether byte `b` is a character boundary of `t`.
pub fn boundary_at(offs: &Vec<usize>, b: usize, Ghost(t): Ghost<Seq<char>>) -> (r: bool)
    requires
        offs@.len() == t.len() + 1,
        forall|k: int| 0 <= k <= t.len() ==> offs@[k] == byte_offset(t, k),
    ensures
        r == exists|k: int| 0 <= k <= t.len() && byte_offset(t, k) == b,
{
    let k = floor_at(offs, b, Ghost(t));
    proof {
        lemma_floor_index(t, b as int);
        if offs@[k as int] != b {
            assert forall|j: int| 0 <= j <= t.len() implies byte_offset(t, j) != b by {
                if j < k {
                    lemma_offset_strict(t, j, k as int);
                }
            }
        }
    }
    offs[k] == b
}

/// `floor_index` is monotonic in the byte position.
pub proof fn lemma_floor_index_mono(s: Seq<char>, b1: int, b2: int)
    requires
        0 <= b1 <= b2,
    ensures
        floor_index(s, b1) <= floor_index(s, b2),
{
    lemma_floor_index(s, b1);
    lemma_floor_index(s, b2);
    if floor_index(s, b1) > floor_index(s, b2) {
        assert(byte_offset(s, floor_index(s, b1) as int) > b2);
    }
}

/// The UTF-8 encoding of `s` is `byte_len(s)` bytes long.
pub proof fn lemma_encode_utf8_len(s: Seq<char>)
    ensures
        encode_utf8(s).len() == byte_len(s),
    decreases s.len(),
{
    if s.len() > 0 {
        lemma_encode_utf8_len(s.drop_first());
        assert(s =~= seq![s[0]] + s.drop_first());
        lemma_byte_len_add(seq![s[0]], s.drop_first());
        assert(seq![s[0]].drop_last() =~= Seq::<char>::empty());
        char_is_scalar(s[0]);
        assert(encode_scalar(s[0] as u32).len() == utf8_width(s[0]));
        assert(seq![s[0]].last() == s[0]);
        assert(byte_len(seq![s[0]].drop_last()) == 0);
        assert(byte_len(seq![s[0]]) == utf8_width(s[0]));
        assert(byte_len(s) == byte_len(seq![s[0]] + s.drop_first()));
    }
}

/// The UTF-8 length of a string slice fits in `usize`.
pub fn str_byte_len(s: &str) -> (n: usize)
    ensures
        n == byte_len(s@),
{
    let n = s.as_bytes().len();
    proof {
        lemma_encode_utf8_len(s@);
    }
    n
}

/// `char::to_ascii_lowercase`: `A`..`Z` to `a`..`z`, everything else unchanged.
pub open spec fn ascii_lower(c: char) -> char {
    if 'A' <= c <= 'Z' {
        ((c as u32) + 32) as char
    } else {
        c
    }
}

/// ASCII lowercase of `c`.
pub fn to_ascii_lower(c: char) -> (r: char)
    ensures
        r == ascii_lower(c),
{
    if 'A' <= c && c <= 'Z' {
        let b = (c as u32) as u8;
        ((b + 32) as char)
    } else {
        c
    }
}

/// `str::to_ascii_lowercase`.
pub open spec fn ascii_lower_str(s: Seq<char>) -> Seq<char> {
    s.map_values(|c: char| ascii_lower(c))
}

/// ASCII lowercase of a string.
pub fn ascii_lowercase(s: &str) -> (r: Vec<char>)
    ensures
        r@ == ascii_lower_str(s@),
{
    let cs = chars_of(s);
    let mut r: Vec<char> = Vec::new();
    let mut i: usize = 0;
    while i < cs.len()
        invariant
            i <= cs@.len(),
            cs@ == s@,
            r@ == ascii_lower_str(cs@.take(i as int)),
        decreases cs@.len() - i,
    {
        r.push(to_ascii_lower(cs[i]));
        assert(ascii_lower_str(cs@.take(i + 1)) =~= ascii_lower_str(cs@.take(i as int)).push(ascii_lower(cs@[i as int])));
        i += 1;
    }
    assert(cs@.take(cs@.len() as int) =~= cs@);
    r
}

/// The pieces of `ls` with `sep` between each two (`[T]::join`).
pub open spec fn join_with(ls: Seq<Seq<char>>, sep: Seq<char>) -> Seq<char>
    decreases ls.len(),
{
    if ls.len() == 0 {
        seq![]
    } else if ls.len() == 1 {
        ls[0]
    } else {
        join_with(ls.drop_last(), sep) + sep + ls.last()
    }
}

/// The strings of `v` joined with `sep`.
pub fn join_strings(v: &Vec<String>, sep: &str) -> (r: Vec<char>)
    ensures
        r@ == join_with(string_views(v@), sep@),
{
    let ghost all = string_views(v@);
    let sc = chars_of(sep);
    let mut out: Vec<char> = Vec::new();
    let mut i: usize = 0;
    assert(all.take(0) =~= seq![]);
    while i < v.len()
        invariant
            i <= v@.len(),
            all == string_views(v@),
            sc@ == sep@,
            out@ == join_with(all.take(i as int), sep@),
        decreases v@.len() - i,
    {
        assert(all.take(i + 1).drop_last() =~= all.take(i as int));
        assert(all[i as int] == v@[i as int]@);
        if i > 0 {
            extend_chars(&mut out, &sc);
        }
        let piece = chars_of(v[i].as_str());
        extend_chars(&mut out, &piece);
        i += 1;
    }
    assert(all.take(v@.len() as int) =~= all);
    out
}

/// `s` with every non-overlapping occurrence of `pat` (found left to right)
/// replaced by `rep` (`str::replace` for a non-empty pattern).
pub open spec fn replace_all(s: Seq<char>, pat: Seq<char>, rep: Seq<char>) -> Seq<char>
    decreases s.len(),
{
    if s.len() == 0 {
        seq![]
    } else if pat.len() > 0 && pat.len() <= s.len() && s.take(pat.len() as int) == pat {
        rep + replace_all(s.skip(pat.len() as int), pat, rep)
    } else {
        seq![s[0]] + replace_all(s.drop_first(), pat, rep)
    }
}

/// Replaces every occurrence of the non-empty pattern `pat` in `s` by `rep`.
pub fn replace_str(s: &str, pat: &str, rep: &str) -> (r: String)
    requires
        pat@.len() > 0,
    ensures
        r@ == replace_all(s@, pat@, rep@),
{
    let cs = chars_of(s);
    let pc = chars_of(pat);
    let rc = chars_of(rep);
    let mut out: Vec<char> = Vec::new();
    let mut i: usize = 0;
    assert(cs@.skip(0) =~= cs@);
    while i < cs.len()
        invariant
            i <= cs@.len(),
            cs@ == s@,
            pc@ == pat@,
            rc@ == rep@,
            pat@.len() > 0,
            out@ + replace_all(cs@.skip(i as int), pc@, rc@) == replace_all(cs@, pc@, rc@),
        decreases cs@.len() - i,
    {
        let ghost rest = cs@.skip(i as int);
        let n = pc.len();
        let hit = if n <= cs.len() - i {
            let piece = slice_chars(&cs, i, i + n);
            assert(piece@ =~= rest.take(n as int));
            chars_eq(&piece, &pc)
        } else {
            false
        };
        let ghost before = out@;
        if hit {
            extend_chars(&mut out, &rc);
            assert(rest.skip(n as int) =~= cs@.skip(i + n));
            assert(out@ + replace_all(cs@.skip(i + n), pc@, rc@) =~= before + replace_all(rest, pc@, rc@));
            i = i + n;
        } else {
            out.push(cs[i]);
            assert(rest.drop_first() =~= cs@.skip(i + 1));
            assert(out@ + replace_all(cs@.skip(i + 1), pc@, rc@) =~= before + replace_all(rest, pc@, rc@));
            i = i + 1;
        }
    }
    assert(cs@.skip(i as int) =~= Seq::<char>::empty());
    assert(out@ + Seq::<char>::empty() =~= out@);
    string_from(&out)
}

/// `q` occurs in `s` at character index `i`.
pub open spec fn occurs_at(s: Seq<char>, q: Seq<char>, i: int) -> bool {
    0 <= i && i + q.len() <= s.len() && s.subrange(i, i + q.len()) == q
}

/// Character index of the first occurrence of `q` in `s` (`str::find`), or -1.
pub open spec fn first_occurrence(s: Seq<char>, q: Seq<char>) -> int {
    if exists|i: int| occurs_at(s, q, i) {
        choose|i: int| occurs_at(s, q, i) && forall|j: int| 0 <= j < i ==> !occurs_at(s, q, j)
    } else {
        -1
    }
}

/// Index of the first occurrence of `q` in `s`, if any.
pub fn find_sub(s: &Vec<char>, q: &Vec<char>) -> (r: Option<usize>)
    ensures
        match r {
            Some(i) => i == first_occurrence(s@, q@) && occurs_at(s@, q@, i as int),
            None => first_occurrence(s@, q@) == -1 && forall|j: int| !occurs_at(s@, q@, j),
        },
{
    if q.len() > s.len() {
        proof {
            assert(!exists|i: int| occurs_at(s@, q@, i));
        }
        return None;
    }
    let n = s.len();
    let lim = n - q.len();
    let mut i: usize = 0;
    loop
        invariant_except_break
            n == s@.len(),
            q@.len() <= s@.len(),
            lim == s@.len() - q@.len(),
            i <= lim,
            forall|j: int| 0 <= j < i ==> !occurs_at(s@, q@, j),
        ensures
            forall|j: int| 0 <= j <= lim ==> !occurs_at(s@, q@, j),
            lim == s@.len() - q@.len(),
        decreases lim - i,
    {
        let end = i + q.len();
        let piece = slice_chars(s, i, end);
        if chars_eq(&piece, q) {
            proof {
                assert(occurs_at(s@, q@, i as int));
                let c = choose|c: int| occurs_at(s@, q@, c) && forall|j: int| 0 <= j < c ==> !occurs_at(s@, q@, j);
                assert(occurs_at(s@, q@, c));
                if c < i {
                } else if c > i {
                    assert(!occurs_at(s@, q@, i as int));
                }
            }
            return Some(i);
        }
        if i == lim {
            break;
        }
        i += 1;
    }
    proof {
        assert forall|j: int| !occurs_at(s@, q@, j) by {
            if 0 <= j && j + q@.len() <= s@.len() {
                assert(j <= lim);
            }
        }
    }
    None
}

/// `q` occurs in `s`.
pub open spec fn contains_sub(s: Seq<char>, q: Seq<char>) -> bool {
    exists|i: int| occurs_at(s, q, i)
}

/// Whether `q` occurs in `s`.
pub fn contains_str(s: &str, q: &str) -> (r: bool)
    ensures
        r == contains_sub(s@, q@),
{
    let sc = chars_of(s);
    let qc = chars_of(q);
    match find_sub(&sc, &qc) {
        Some(_) => true,
        None => false,
    }
}

/// Whether two character vectors are equal.
pub fn chars_eq(a: &[char], b: &[char]) -> (r: bool)
    ensures
        r == (a@ == b@),
{
    if a.len() != b.len() {
        return false;
    }
    let mut i: usize = 0;
    while i < a.len()
        invariant
            i <= a@.len() == b@.len(),
            forall|k: int| 0 <= k < i ==> a@[k] == b@[k],
        decreases a@.len() - i,
    {
        if a[i] != b[i] {
            return false;
        }
        i += 1;
    }
    assert(a@ =~= b@);
    true
}

/// Whether two strings are equal.
pub fn str_eq(a: &str, b: &str) -> (r: bool)
    ensures
        r == (a@ == b@),
{
    let x = chars_of(a);
    let y = chars_of(b);
    chars_eq(&x, &y)
}

/// Whether `v` begins with `p`.
pub fn starts_with_chars(v: &[char], p: &[char]) -> (r: bool)
    ensures
        r == (p@.len() <= v@.len() && v@.take(p@.len() as int) == p@),
{
    if p.len() > v.len() {
        return false;
    }
    let mut i: usize = 0;
    while i < p.len()
        invariant
            i <= p@.len() <= v@.len(),
            forall|k: int| 0 <= k < i ==> v@[k] == p@[k],
        decreases p@.len() - i,
    {
        if v[i] != p[i] {
            assert(v@.take(p@.len() as int)[i as int] != p@[i as int]);
            return false;
        }
        i += 1;
    }
    assert(v@.take(p@.len() as int) =~= p@);
    true
}

/// A `String` holding the characters of a string literal or slice.
pub fn owned(s: &str) -> (r: String)
    ensures
        r@ == s@,
{
    let v = chars_of(s);
    string_from(&v)
}

/// `s` without one leading `+`.
pub open spec fn unsigned_digits(s: Seq<char>) -> Seq<char> {
    if s.len() > 0 && s[0] == '+' {
        s.skip(1)
    } else {
        s
    }
}

/// What `str::parse` gives for an unsigned integer type whose largest
/// value is `max`: an optional `+` and then one or more ASCII digits, whose
/// value must not exceed `max`.
pub open spec fn parsed_unsigned(s: Seq<char>, max: nat) -> Option<nat> {
    let d = unsigned_digits(s);
    if d.len() > 0 && all_digits(d) && digits_value(d) <= max {
        Some(digits_value(d))
    } else {
        None
    }
}

/// The digit-string value only grows as digits are added.
proof fn lemma_digits_prefix_grow(s: Seq<char>, k: int)
    requires
        0 <= k <= s.len(),
        all_digits(s),
    ensures
        digits_value(s.take(k)) <= digits_value(s),
    decreases s.len() - k,
{
    if k < s.len() {
        lemma_digits_prefix_grow(s.drop_last(), k);
        assert(s.drop_last().take(k) =~= s.take(k));
        assert(all_digits(s.drop_last()));
    } else {
        assert(s.take(k) =~= s);
    }
}

/// Parses an unsigned integer no greater than `max`, as `str::parse` does
/// for an unsigned type whose largest value is `max`.
pub fn parse_unsigned(s: &str, max: u64) -> (r: Option<u64>)
    ensures
        match r {
            Some(v) => parsed_unsigned(s@, max as nat) == Some(v as nat),
            None => parsed_unsigned(s@, max as nat) is None,
        },
{
    let c = chars_of(s);
    let start: usize = if c.len() > 0 && c[0] == '+' { 1 } else { 0 };
    let ghost d = unsigned_digits(s@);
    assert(d =~= c@.skip(start as int));
    if start >= c.len() {
        return None;
    }
    let mut v: u64 = 0;
    let mut i: usize = start;
    assert(d.take(0).len() == 0);
    while i < c.len()
        invariant
            start <= i <= c@.len(),
            c@ == s@,
            d == unsigned_digits(s@),
            d =~= c@.skip(start as int),
            all_digits(d.take(i - start)),
            v == digits_value(d.take(i - start)),
            v <= max,
        decreases c@.len() - i,
    {
        let ch = c[i];
        assert(d.take(i - start + 1).drop_last() =~= d.take(i - start));
        assert(d[i - start] == ch);
        if !('0' <= ch && ch <= '9') {
            proof {
                assert(!('0' <= d[i - start] <= '9'));
                assert(!all_digits(d));
            }
            return None;
        }
        let dig = (ch as u32 - '0' as u32) as u64;
        assert(all_digits(d.take(i - start + 1)));
        if v > max / 10 || dig > max - v * 10 {
            proof {
                if v > max / 10 {
                    assert(v * 10 + dig > max) by (nonlinear_arith)
                        requires
                            v > max / 10,
                            dig >= 0;
                } else {
                    assert(v * 10 <= max) by (nonlinear_arith)
                        requires
                            v <= max / 10;
                }
                assert(digits_value(d.take(i - start + 1)) == v * 10 + dig);
                if all_digits(d) {
                    lemma_digits_prefix_grow(d, i - start + 1);
                }
            }
            return None;
        }
        assert(v * 10 <= max) by (nonlinear_arith)
            requires
                v <= max / 10;
        v = v * 10 + dig;
        i += 1;
    }
    assert(d.take(d.len() as int) =~= d);
    Some(v)
}

} // verus!
