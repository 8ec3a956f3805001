//! Reranking: the no-op reranker and the lenient parser for the index list
//! that an LLM reranker answers with.
use vstd::prelude::*;

use crate::chunker::prepend_to_first;
use crate::text::{
    all_digits, chars_of, decimal, decimal_chars, extend_chars, string_from, digits_value, find_char, find_from, rfind_before, rfind_char, trim,
    trimmed,
};

verus! {

/// Orders candidate documents by relevance to a query.
pub trait Reranker {
    /// Indices of `docs`, most relevant first, at most `top_k` of them.
    fn rerank(&self, query: &str, docs: &[String], top_k: usize) -> Vec<usize>;
}

/// Zero-cost fallback: keeps the order given.
pub struct NoopReranker;

impl Reranker for NoopReranker {
    /// The first `min(docs.len(), top_k)` indices, in order.
    fn rerank(&self, query: &str, docs: &[String], top_k: usize) -> (r: Vec<usize>)
        ensures
            r@.len() == if docs@.len() < top_k { docs@.len() } else { top_k as nat },
            forall|i: int| 0 <= i < r@.len() ==> r@[i] == i,
    {
        let n = if docs.len() < top_k {
            docs.len()
        } else {
            top_k
        };
        let mut r: Vec<usize> = Vec::new();
        let mut i: usize = 0;
        while i < n
            invariant
                i <= n,
                r@.len() == i,
                forall|k: int| 0 <= k < i ==> r@[k] == k,
            decreases n - i,
        {
            r.push(i);
            i += 1;
        }
        r
    }
}

/// LLM cross-encoder reranker settings.
pub struct LlmReranker {
    /// At most this many candidates are put in the prompt.
    pub max_candidates: usize,
}

impl LlmReranker {
    /// A reranker that sends at most 150 candidates.
    pub fn new() -> (r: Self)
        ensures
            r.max_candidates == 150,
    {
        LlmReranker { max_candidates: 150 }
    }

    /// The ranking prompt for the first `max_candidates` documents (each cut
    /// to 200 characters), and how many candidates it lists.  The model's
    /// answer is read with [`parse_index_list`] over that many candidates.
    pub fn prompt(&self, query: &str, docs: &[String], top_k: usize) -> (r: (String, usize))
        ensures
            r.1 == if docs@.len() < self.max_candidates { docs@.len() } else { self.max_candidates as nat },
            r.0@ == rerank_prompt(query@, docs@.take(r.1 as int).map_values(|d: String| d@), top_k as nat),
    {
        let n = if docs.len() < self.max_candidates {
            docs.len()
        } else {
            self.max_candidates
        };
        let ghost views = docs@.take(n as int).map_values(|d: String| d@);
        let mut body: Vec<char> = Vec::new();
        let mut i: usize = 0;
        while i < n
            invariant
                i <= n <= docs@.len(),
                views == docs@.take(n as int).map_values(|d: String| d@),
                body@ == candidate_lines(views.take(i as int)),
            decreases n - i,
        {
            assert(views.take(i + 1).drop_last() =~= views.take(i as int));
            assert(views[i as int] == docs@[i as int]@);
            let cs = chars_of(docs[i].as_str());
            let m = if cs.len() < 200 {
                cs.len()
            } else {
                200
            };
            let snippet = crate::text::slice_chars(&cs, 0, m);
            assert(snippet@ =~= views[i as int].take(m as int));
            extend_chars(&mut body, &chars_of("["));
            extend_chars(&mut body, &decimal_chars(i as u64));
            extend_chars(&mut body, &chars_of("] "));
            extend_chars(&mut body, &snippet);
            extend_chars(&mut body, &chars_of("\n"));
            i += 1;
        }
        assert(views.take(n as int) =~= views);
        let mut out = chars_of("你是检索重排序器。给定查询和候选文档片段，按与查询的相关性从高到低排序。\n\n查询：");
        extend_chars(&mut out, &chars_of(query));
        extend_chars(&mut out, &chars_of("\n\n候选：\n"));
        extend_chars(&mut out, &body);
        extend_chars(&mut out, &chars_of("\n\n只返回 JSON 数组（按相关性降序的索引列表，如 [3, 0, 1]），最多 "));
        extend_chars(&mut out, &decimal_chars(top_k as u64));
        extend_chars(&mut out, &chars_of(" 个，不要其他文本。"));
        (string_from(&out), n)
    }
}

/// One line per candidate: its index in brackets and its first 200
/// characters.
pub open spec fn candidate_lines(docs: Seq<Seq<char>>) -> Seq<char>
    decreases docs.len(),
{
    if docs.len() == 0 {
        seq![]
    } else {
        let d = docs.last();
        candidate_lines(docs.drop_last()) + "["@ + decimal((docs.len() - 1) as nat) + "] "@ + d.take(
            if d.len() < 200 {
                d.len() as int
            } else {
                200
            },
        ) + "\n"@
    }
}

/// The ranking prompt: the query, the numbered candidates, and the request
/// for a JSON index array of at most `top_k` entries.
pub open spec fn rerank_prompt(query: Seq<char>, docs: Seq<Seq<char>>, top_k: nat) -> Seq<char> {
    "你是检索重排序器。给定查询和候选文档片段，按与查询的相关性从高到低排序。\n\n查询："@ + query
        + "\n\n候选：\n"@ + candidate_lines(docs)
        + "\n\n只返回 JSON 数组（按相关性降序的索引列表，如 [3, 0, 1]），最多 "@ + decimal(top_k)
        + " 个，不要其他文本。"@
}

/// `s` has a code fence (three backticks) at index `i`.
pub open spec fn fence_at(s: Seq<char>, i: int) -> bool {
    0 <= i && i + 3 <= s.len() && s[i] == '`' && s[i + 1] == '`' && s[i + 2] == '`'
}

/// Index of the last code fence starting before `upto`, or -1.
pub open spec fn last_fence_before(s: Seq<char>, upto: int) -> int
    decreases upto,
{
    if upto <= 0 {
        -1
    } else if fence_at(s, upto - 1) {
        upto - 1
    } else {
        last_fence_before(s, upto - 1)
    }
}

/// Where the fenced body starts: after the first newline, or at 0.
pub open spec fn fence_body_start(s: Seq<char>) -> int {
    if find_from(s, '\n', 0) >= 0 {
        find_from(s, '\n', 0) + 1
    } else {
        0
    }
}

/// A fenced answer whose body would start after its closing fence.
pub open spec fn fence_cut_inverted(s: Seq<char>) -> bool {
    fence_at(s, 0) && fence_body_start(s) > last_fence_before(s, s.len() as int)
}

/// The answer without a surrounding code fence.
pub open spec fn unfenced(s: Seq<char>) -> Seq<char> {
    if fence_at(s, 0) {
        s.subrange(fence_body_start(s), last_fence_before(s, s.len() as int))
    } else {
        s
    }
}

/// From the first `[` (or the start) to the last `]` after it (or the end).
pub open spec fn bracketed(b: Seq<char>) -> Seq<char> {
    let st = if find_from(b, '[', 0) >= 0 {
        find_from(b, '[', 0)
    } else {
        0
    };
    let sp = if rfind_before(b, ']', b.len() as int) >= st {
        rfind_before(b, ']', b.len() as int)
    } else {
        b.len() as int
    };
    b.subrange(st, sp)
}

/// Characters that may belong to an index token.
pub open spec fn is_index_char(c: char) -> bool {
    ('0' <= c <= '9') || c == '-'
}

/// The pieces of `s` between characters that are neither digits nor `-`.
pub open spec fn index_tokens(s: Seq<char>) -> Seq<Seq<char>>
    decreases s.len(),
{
    if s.len() == 0 {
        seq![Seq::<char>::empty()]
    } else if !is_index_char(s[0]) {
        seq![Seq::<char>::empty()] + index_tokens(s.drop_first())
    } else {
        prepend_to_first(seq![s[0]], index_tokens(s.drop_first()))
    }
}

/// The index a token names, when it parses as a `usize` below `n`.
pub open spec fn token_index(tok: Seq<char>, n: nat) -> Option<nat> {
    if tok.len() > 0 && all_digits(tok) && digits_value(tok) <= usize::MAX && digits_value(tok) < n {
        Some(digits_value(tok))
    } else {
        None
    }
}

/// The distinct valid indices named by `toks`, in order of first appearance.
pub open spec fn collect_indices(toks: Seq<Seq<char>>, n: nat) -> Seq<nat>
    decreases toks.len(),
{
    if toks.len() == 0 {
        Seq::<nat>::empty()
    } else {
        let prev = collect_indices(toks.drop_last(), n);
        match token_index(toks.last(), n) {
            Some(v) => if prev.contains(v) {
                prev
            } else {
                prev.push(v)
            },
            None => prev,
        }
    }
}

/// The index list parsed from an answer.
pub open spec fn index_list(text: Seq<char>, n: nat, top_k: nat) -> Seq<nat> {
    let all = collect_indices(index_tokens(bracketed(unfenced(trim(text)))), n);
    if all.len() <= top_k {
        all
    } else {
        all.take(top_k as int)
    }
}

proof fn lemma_last_fence_bounds(s: Seq<char>, upto: int)
    ensures
        -1 <= last_fence_before(s, upto) < upto || (upto <= 0 && last_fence_before(s, upto) == -1),
        last_fence_before(s, upto) >= 0 ==> fence_at(s, last_fence_before(s, upto)),
        fence_at(s, 0) && upto > 0 ==> last_fence_before(s, upto) >= 0,
    decreases upto,
{
    if upto > 0 && !fence_at(s, upto - 1) {
        lemma_last_fence_bounds(s, upto - 1);
    }
}

proof fn lemma_find_from_bounds(s: Seq<char>, c: char, from: int)
    ensures
        find_from(s, c, from) == -1 || (from <= find_from(s, c, from) < s.len()),
    decreases s.len() - from,
{
    if !(from < 0 || from >= s.len()) && s[from] != c {
        lemma_find_from_bounds(s, c, from + 1);
    }
}

proof fn lemma_rfind_before_bounds(s: Seq<char>, c: char, upto: int)
    ensures
        rfind_before(s, c, upto) == -1 || (0 <= rfind_before(s, c, upto) < upto),
    decreases upto,
{
    if !(upto <= 0 || upto > s.len()) && s[upto - 1] != c {
        lemma_rfind_before_bounds(s, c, upto - 1);
    }
}

proof fn lemma_index_tokens_nonempty(s: Seq<char>)
    ensures
        index_tokens(s).len() >= 1,
    decreases s.len(),
{
    if s.len() > 0 {
        lemma_index_tokens_nonempty(s.drop_first());
    }
}

/// Index of the last code fence in `v`.
fn last_fence(v: &Vec<char>) -> (r: usize)
    requires
        fence_at(v@, 0),
    ensures
        r == last_fence_before(v@, v@.len() as int),
{
    let mut k = v.len();
    proof {
        lemma_last_fence_bounds(v@, v@.len() as int);
    }
    while k > 0
        invariant
            k <= v@.len(),
            fence_at(v@, 0),
            last_fence_before(v@, v@.len() as int) >= 0,
            last_fence_before(v@, v@.len() as int) == last_fence_before(v@, k as int),
        decreases k,
    {
        let i = k - 1;
        if v.len() - i >= 3 && v[i] == '`' && v[i + 1] == '`' && v[i + 2] == '`' {
            return i;
        }
        k -= 1;
    }
    proof {
        assert(fence_at(v@, 0));
        assert(false);
    }
    0
}

/// The decimal value of the digit string `tok`, if it fits in a `usize`.
fn parse_digits(tok: &Vec<char>) -> (r: Option<usize>)
    requires
        all_digits(tok@),
    ensures
        match r {
            Some(v) => v == digits_value(tok@),
            None => digits_value(tok@) > usize::MAX,
        },
{
    let mut v: usize = 0;
    let mut i: usize = 0;
    assert(tok@.take(0).len() == 0);
    while i < tok.len()
        invariant
            i <= tok@.len(),
            all_digits(tok@),
            v == digits_value(tok@.take(i as int)),
        decreases tok@.len() - i,
    {
        let c = tok[i];
        let d = (c as u32) - ('0' as u32);
        assert(tok@.take(i + 1).drop_last() =~= tok@.take(i as int));
        if v > (usize::MAX - d as usize) / 10 {
            proof {
                lemma_digits_prefix_le(tok@, i + 1);
            }
            return None;
        }
        v = v * 10 + d as usize;
        i += 1;
    }
    assert(tok@.take(tok@.len() as int) =~= tok@);
    Some(v)
}

proof fn lemma_digits_prefix_le(s: Seq<char>, k: int)
    requires
        0 <= k <= s.len(),
        all_digits(s),
    ensures
        digits_value(s.take(k)) <= digits_value(s),
    decreases s.len() - k,
{
    if k < s.len() {
        lemma_digits_prefix_le(s.drop_last(), k);
        assert(s.drop_last().take(k) =~= s.take(k));
        assert(all_digits(s.drop_last()));
    } else {
        assert(s.take(k) =~= s);
    }
}

/// Parses an answer such as `[3, 0, 1]` (possibly fenced or surrounded by
/// text) into at most `top_k` distinct indices below `n`, in order.
pub fn parse_index_list(text: &str, n: usize, top_k: usize) -> (r: Vec<usize>)
    requires
        !fence_cut_inverted(trim(text@)),
    ensures
        r@.len() == index_list(text@, n as nat, top_k as nat).len(),
        forall|i: int|
            0 <= i < r@.len() ==> r@[i] as nat == #[trigger] index_list(
                text@,
                n as nat,
                top_k as nat,
            )[i],
{
    let all = chars_of(text);
    let cleaned = trimmed(&all);
    let body: Vec<char> = if cleaned.len() >= 3 && cleaned[0] == '`' && cleaned[1] == '`'
        && cleaned[2] == '`' {
        let end = last_fence(&cleaned);
        let st = match find_char(&cleaned, '\n', 0) {
            Some(i) => i + 1,
            None => 0,
        };
        proof {
            lemma_last_fence_bounds(cleaned@, cleaned@.len() as int);
        }
        crate::text::slice_chars(&cleaned, st, end)
    } else {
        cleaned
    };
    let st = match find_char(&body, '[', 0) {
        Some(i) => i,
        None => 0,
    };
    let sp = match rfind_char(&body, ']', body.len()) {
        Some(j) => if j >= st {
            j
        } else {
            body.len()
        },
        None => body.len(),
    };
    let slice = crate::text::slice_chars(&body, st, sp);
    assert(slice@ == bracketed(unfenced(trim(text@))));
    // scan the tokens
    let ghost toks = index_tokens(slice@);
    let mut out: Vec<usize> = Vec::new();
    let mut tok: Vec<char> = Vec::new();
    let mut i: usize = 0;
    let ghost mut done: Seq<Seq<char>> = Seq::empty();
    proof {
        lemma_index_tokens_nonempty(slice@);
        assert(slice@.skip(0) =~= slice@);
        assert(prepend_to_first(tok@, toks) =~= toks);
        assert(done + toks =~= toks);
        assert(out@.map_values(|x: usize| x as nat) =~= collect_indices(done, n as nat));
    }
    while i < slice.len()
        invariant
            i <= slice@.len(),
            toks == index_tokens(slice@),
            toks == done + prepend_to_first(tok@, index_tokens(slice@.skip(i as int))),
            forall|k: int| 0 <= k < tok@.len() ==> is_index_char(#[trigger] tok@[k]),
            out@.map_values(|x: usize| x as nat) == collect_indices(done, n as nat),
        decreases slice@.len() - i,
    {
        let c = slice[i];
        let ghost rest = slice@.skip(i as int);
        proof {
            assert(rest.drop_first() =~= slice@.skip(i + 1));
            assert(rest[0] == c);
            lemma_index_tokens_nonempty(slice@.skip(i + 1));
        }
        if ('0' <= c && c <= '9') || c == '-' {
            proof {
                let x = index_tokens(slice@.skip(i + 1));
                assert(index_tokens(rest) == prepend_to_first(seq![c], x));
                assert(prepend_to_first(tok@, prepend_to_first(seq![c], x)) =~~= prepend_to_first(
                    tok@.push(c),
                    x,
                ));
            }
            tok.push(c);
        } else {
            proof {
                let x = index_tokens(slice@.skip(i + 1));
                assert(index_tokens(rest) == seq![Seq::<char>::empty()] + x);
                assert(prepend_to_first(tok@, seq![Seq::<char>::empty()] + x) =~~= seq![tok@] + x);
                assert(prepend_to_first(Seq::<char>::empty(), x) =~= x);
                assert(done + (seq![tok@] + x) =~= done.push(tok@) + x);
            }
            take_token(&mut out, &tok, n, Ghost(done));
            proof {
                done = done.push(tok@);
            }
            tok = Vec::new();
        }
        i += 1;
    }
    proof {
        assert(slice@.skip(slice@.len() as int) =~= Seq::<char>::empty());
        assert(prepend_to_first(tok@, seq![Seq::<char>::empty()]) =~~= seq![tok@]);
        assert(toks =~= done.push(tok@));
    }
    take_token(&mut out, &tok, n, Ghost(done));
    let ghost fin = done.push(tok@);
    let ghost all_idx = collect_indices(fin, n as nat);
    assert(all_idx == collect_indices(index_tokens(bracketed(unfenced(trim(text@)))), n as nat));
    let ghost full = out@;
    if out.len() > top_k {
        out.truncate(top_k);
    }
    proof {
        assert(full.map_values(|x: usize| x as nat).len() == full.len());
        assert forall|i: int| 0 <= i < out@.len() implies out@[i] as nat == #[trigger] index_list(
            text@,
            n as nat,
            top_k as nat,
        )[i] by {
            assert(out@[i] == full[i]);
            assert(full.map_values(|x: usize| x as nat)[i] == all_idx[i]);
        }
    }
    out
}

/// Whether `v` already holds `x`.
fn holds(v: &Vec<usize>, x: usize) -> (b: bool)
    ensures
        b == v@.map_values(|y: usize| y as nat).contains(x as nat),
{
    let mut i: usize = 0;
    while i < v.len()
        invariant
            i <= v@.len(),
            forall|k: int| 0 <= k < i ==> v@[k] != x,
        decreases v@.len() - i,
    {
        if v[i] == x {
            proof {
                assert(v@.map_values(|y: usize| y as nat)[i as int] == x as nat);
            }
            return true;
        }
        i += 1;
    }
    proof {
        let m = v@.map_values(|y: usize| y as nat);
        if m.contains(x as nat) {
            let k = choose|k: int| 0 <= k < m.len() && m[k] == x as nat;
            assert(v@[k] == x);
        }
    }
    false
}

/// Adds the index named by `tok` to `out` when it is valid and new.
fn take_token(out: &mut Vec<usize>, tok: &Vec<char>, n: usize, Ghost(done): Ghost<Seq<Seq<char>>>)
    requires
        forall|k: int| 0 <= k < tok@.len() ==> is_index_char(#[trigger] tok@[k]),
        old(out)@.map_values(|x: usize| x as nat) == collect_indices(done, n as nat),
    ensures
        final(out)@.map_values(|x: usize| x as nat) == collect_indices(done.push(tok@), n as nat),
{
    let ghost all = done.push(tok@);
    proof {
        assert(all.drop_last() =~= done);
        assert(all.last() == tok@);
    }
    if tok.len() == 0 {
        assert(token_index(tok@, n as nat) is None);
        assert(collect_indices(all, n as nat) == collect_indices(done, n as nat));
        return;
    }
    let mut i: usize = 0;
    while i < tok.len()
        invariant
            i <= tok@.len(),
            forall|k: int| 0 <= k < tok@.len() ==> is_index_char(#[trigger] tok@[k]),
            forall|k: int| 0 <= k < i ==> '0' <= #[trigger] tok@[k] <= '9',
            all == done.push(tok@),
            all.drop_last() == done,
            all.last() == tok@,
            out@.map_values(|x: usize| x as nat) == collect_indices(done, n as nat),
            tok@.len() > 0,
        decreases tok@.len() - i,
    {
        if tok[i] == '-' {
            proof {
                assert(!all_digits(tok@));
                assert(token_index(tok@, n as nat) is None);
                assert(collect_indices(all, n as nat) == collect_indices(done, n as nat));
            }
            return;
        }
        i += 1;
    }
    match parse_digits(tok) {
        None => {},
        Some(v) => {
            if v < n && !holds(out, v) {
                proof {
                    assert(out@.push(v).map_values(|x: usize| x as nat) =~= out@.map_values(
                        |x: usize| x as nat,
                    ).push(v as nat));
                }
                out.push(v);
            }
        },
    }
}


proof fn lemma_collect_valid(toks: Seq<Seq<char>>, n: nat)
    ensures
        forall|i: int|
            0 <= i < collect_indices(toks, n).len() ==> #[trigger] collect_indices(toks, n)[i] < n,
        forall|i: int, j: int|
            0 <= i < j < collect_indices(toks, n).len() ==> collect_indices(toks, n)[i]
                != collect_indices(toks, n)[j],
    decreases toks.len(),
{
    if toks.len() > 0 {
        lemma_collect_valid(toks.drop_last(), n);
        let prev = collect_indices(toks.drop_last(), n);
        let cur = collect_indices(toks, n);
        match token_index(toks.last(), n) {
            Some(v) => {
                if !prev.contains(v) {
                    assert(cur == prev.push(v));
                    assert forall|i: int, j: int| 0 <= i < j < cur.len() implies cur[i] != cur[j] by {
                        if j == prev.len() {
                            assert(cur[i] == prev[i]);
                            if cur[i] == v {
                                assert(prev.contains(v));
                            }
                        }
                    }
                    assert forall|i: int| 0 <= i < cur.len() implies #[trigger] cur[i] < n by {
                        if i < prev.len() {
                            assert(cur[i] == prev[i]);
                        }
                    }
                }
            },
            None => {},
        }
    }
}

/// Law: the parsed list holds distinct indices below `n`, at most `top_k`.
pub proof fn law_index_list_distinct_bounded(text: Seq<char>, n: nat, top_k: nat)
    ensures
        index_list(text, n, top_k).len() <= top_k,
        forall|i: int|
            0 <= i < index_list(text, n, top_k).len() ==> #[trigger] index_list(text, n, top_k)[i]
                < n,
        forall|i: int, j: int|
            0 <= i < j < index_list(text, n, top_k).len() ==> index_list(text, n, top_k)[i]
                != index_list(text, n, top_k)[j],
{
    lemma_collect_valid(index_tokens(bracketed(unfenced(trim(text)))), n);
}

} // verus!
