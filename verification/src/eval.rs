//! Retrieval evaluation: cases, per-case results and the character-level edit
//! distance behind the OCR completeness metric.
use vstd::prelude::*;

use crate::json::{json_at, json_field, escape_key, pointer_token, str_at, string_at, JsonField, JsonFieldView};
use crate::text::{
    chars_of, contains_str, contains_sub, decimal, decimal_chars, extend_chars, join_strings, join_with, owned,
    str_eq, string_from, string_views,
};

verus! {

/// Expected outcome of an evaluation case.
#[derive(Debug, Clone)]
pub struct EvalExpect {
    pub chunk_ids: Vec<String>,
    pub pages: Vec<u32>,
    pub section: Option<String>,
    pub answer_keywords: Vec<String>,
    pub has_table: Option<bool>,
    /// Expected table cells (structured comparison).
    pub table_expected: Option<Vec<Vec<String>>>,
    /// Hand transcription used to score OCR completeness.
    pub ocr_reference: Option<String>,
    /// Expected meaning of a chart caption.
    pub chart_expected: Option<String>,
}

/// One evaluation case.
#[derive(Debug, Clone)]
pub struct EvalCase {
    pub id: String,
    pub wiki_id: String,
    pub question: String,
    pub expect: EvalExpect,
    pub suite: String,
}

/// Metadata of a retrieved chunk, the data source of three metrics.
#[derive(Debug, Clone)]
pub struct ChunkMeta {
    pub id: String,
    pub block_type: String,
    pub table_json: Option<String>,
    pub caption: Option<String>,
    pub content: String,
}

/// Outcome of one case.
#[derive(Debug, Clone)]
pub struct CaseResult {
    pub id: String,
    pub question: String,
    pub passed: bool,
    pub hit_count: usize,
    pub detail: String,
}

pub open spec fn min3(x: nat, y: nat, z: nat) -> nat {
    if x <= y && x <= z {
        x
    } else if y <= z {
        y
    } else {
        z
    }
}

/// Levenshtein distance between two character sequences: the least number of
/// single-character insertions, deletions and substitutions turning `a` into `b`.
pub open spec fn edit_distance(a: Seq<char>, b: Seq<char>) -> nat
    decreases a.len() + b.len(),
{
    if a.len() == 0 {
        b.len()
    } else if b.len() == 0 {
        a.len()
    } else {
        min3(
            edit_distance(a.drop_last(), b) + 1,
            edit_distance(a, b.drop_last()) + 1,
            edit_distance(a.drop_last(), b.drop_last()) + if a.last() == b.last() {
                0nat
            } else {
                1nat
            },
        )
    }
}

/// Levenshtein distance counted in characters (not bytes).
pub fn levenshtein_chars(a: &str, b: &str) -> (d: usize)
    ensures
        d == edit_distance(a@, b@),
{
    let a = chars_of(a);
    let b = chars_of(b);
    let n = a.len();
    let m = b.len();
    let mut prev: Vec<usize> = Vec::new();
    prev.push(0);
    let mut j: usize = 0;
    assert(a@.take(0).len() == 0);
    while j < m
        invariant
            j <= m == b@.len(),
            prev@.len() == j + 1,
            forall|k: int| 0 <= k <= j ==> prev@[k] == edit_distance(a@.take(0), b@.take(k)),
        decreases m - j,
    {
        prev.push(j + 1);
        j += 1;
    }
    let mut i: usize = 0;
    while i < n
        invariant
            i <= n == a@.len(),
            m == b@.len(),
            prev@.len() == m + 1,
            forall|k: int| 0 <= k <= m ==> prev@[k] == edit_distance(a@.take(i as int), b@.take(k)),
        decreases n - i,
    {
        let ca = a[i];
        let mut curr: Vec<usize> = Vec::new();
        curr.push(i + 1);
        proof {
            assert(b@.take(0).len() == 0);
            assert(a@.take(i + 1).len() == i + 1);
        }
        let mut j: usize = 0;
        while j < m
            invariant
                i < n == a@.len(),
                j <= m == b@.len(),
                ca == a@[i as int],
                prev@.len() == m + 1,
                curr@.len() == j + 1,
                forall|k: int|
                    0 <= k <= m ==> prev@[k] == edit_distance(a@.take(i as int), b@.take(k)),
                forall|k: int|
                    0 <= k <= j ==> curr@[k] == edit_distance(a@.take(i + 1), b@.take(k)),
            decreases m - j,
        {
            let cost: usize = if ca == b[j] {
                0
            } else {
                1
            };
            let del = prev[j + 1].saturating_add(1);
            let ins = curr[j].saturating_add(1);
            let sub = prev[j].saturating_add(cost);
            let mut best = del;
            if ins < best {
                best = ins;
            }
            if sub < best {
                best = sub;
            }
            proof {
                let x = a@.take(i + 1);
                let y = b@.take(j + 1);
                assert(x.drop_last() =~= a@.take(i as int));
                assert(y.drop_last() =~= b@.take(j as int));
                assert(x.last() == ca);
                assert(y.last() == b@[j as int]);
                lemma_edit_distance_le_max(x, y);
            }
            curr.push(best);
            j += 1;
        }
        prev = curr;
        i += 1;
    }
    proof {
        assert(a@.take(n as int) =~= a@);
        assert(b@.take(m as int) =~= b@);
    }
    prev[m]
}

proof fn lemma_edit_distance_le_max(a: Seq<char>, b: Seq<char>)
    ensures
        edit_distance(a, b) <= if a.len() >= b.len() { a.len() } else { b.len() },
    decreases a.len() + b.len(),
{
    if a.len() > 0 && b.len() > 0 {
        lemma_edit_distance_le_max(a.drop_last(), b.drop_last());
    }
}


/// Law: a string is at distance 0 from itself.
pub proof fn law_edit_distance_identity(a: Seq<char>)
    ensures
        edit_distance(a, a) == 0,
    decreases a.len(),
{
    if a.len() > 0 {
        law_edit_distance_identity(a.drop_last());
    }
}

/// Law: the distance to the empty string is the length.
pub proof fn law_edit_distance_empty(a: Seq<char>)
    ensures
        edit_distance(a, Seq::<char>::empty()) == a.len(),
        edit_distance(Seq::<char>::empty(), a) == a.len(),
{
}

/// Law: the distance is symmetric.
pub proof fn law_edit_distance_symmetric(a: Seq<char>, b: Seq<char>)
    ensures
        edit_distance(a, b) == edit_distance(b, a),
    decreases a.len() + b.len(),
{
    if a.len() > 0 && b.len() > 0 {
        law_edit_distance_symmetric(a.drop_last(), b);
        law_edit_distance_symmetric(a, b.drop_last());
        law_edit_distance_symmetric(a.drop_last(), b.drop_last());
    }
}

/// Law: the distance is at least the difference of the lengths and at most
/// the longer length, and it is 0 exactly for equal strings.
pub proof fn law_edit_distance_bounds(a: Seq<char>, b: Seq<char>)
    ensures
        edit_distance(a, b) >= if a.len() >= b.len() { a.len() - b.len() } else { b.len() - a.len() },
        edit_distance(a, b) <= if a.len() >= b.len() { a.len() } else { b.len() },
        (edit_distance(a, b) == 0) == (a == b),
    decreases a.len() + b.len(),
{
    lemma_edit_distance_le_max(a, b);
    if a.len() > 0 && b.len() > 0 {
        law_edit_distance_bounds(a.drop_last(), b);
        law_edit_distance_bounds(a, b.drop_last());
        law_edit_distance_bounds(a.drop_last(), b.drop_last());
        if edit_distance(a, b) == 0 {
            assert(a.drop_last() == b.drop_last());
            assert(a =~= a.drop_last().push(a.last()));
            assert(b =~= b.drop_last().push(b.last()));
        }
        if a == b {
            law_edit_distance_identity(a);
        }
    } else if a.len() == 0 && b.len() == 0 {
        assert(a =~= b);
    } else if a == b {
        assert(false);
    }
}

/// Whether some cell contains `e`.
pub open spec fn found_in_cells(cells: Seq<Seq<char>>, e: Seq<char>) -> bool {
    exists|j: int| 0 <= j < cells.len() && contains_sub(#[trigger] cells[j], e)
}

/// How many of the first `k` expected cells some extracted cell contains.
pub open spec fn matched_count(cells: Seq<Seq<char>>, expected: Seq<Seq<char>>, k: int) -> nat
    decreases k,
{
    if k <= 0 {
        0
    } else {
        matched_count(cells, expected, k - 1) + if found_in_cells(cells, expected[k - 1]) {
            1nat
        } else {
            0nat
        }
    }
}

/// How many expected table cells occur in (are contained in) some cell the
/// parser extracted.
pub fn matched_cells(cells: &Vec<String>, expected: &Vec<String>) -> (r: usize)
    ensures
        r == matched_count(string_views(cells@), string_views(expected@), expected@.len() as int),
        r <= expected@.len(),
{
    let ghost cv = string_views(cells@);
    let ghost ev = string_views(expected@);
    let mut count: usize = 0;
    let mut i: usize = 0;
    while i < expected.len()
        invariant
            i <= expected@.len(),
            cv == string_views(cells@),
            ev == string_views(expected@),
            count == matched_count(cv, ev, i as int),
            count <= i,
        decreases expected@.len() - i,
    {
        let mut found = false;
        let mut j: usize = 0;
        while j < cells.len() && !found
            invariant
                j <= cells@.len(),
                cv == string_views(cells@),
                ev == string_views(expected@),
                i < expected@.len(),
                found ==> found_in_cells(cv, ev[i as int]),
                !found ==> forall|q: int| 0 <= q < j ==> !contains_sub(#[trigger] cv[q], ev[i as int]),
            decreases cells@.len() - j + if found { 0int } else { 1int },
        {
            if contains_str(cells[j].as_str(), expected[i].as_str()) {
                assert(contains_sub(cv[j as int], ev[i as int]));
                found = true;
            } else {
                j += 1;
            }
        }
        if found {
            count += 1;
        }
        i += 1;
    }
    count
}

/// A retrieved chunk as scoring reads it: its id, the quoted text and the
/// page it starts on.
#[derive(Debug, Clone)]
pub struct EvalHit {
    pub chunk_id: String,
    pub quote: String,
    pub page_start: Option<u32>,
}

/// The ids of the hits, in order.
pub open spec fn hit_ids(hits: Seq<EvalHit>) -> Seq<Seq<char>> {
    hits.map_values(|h: EvalHit| h.chunk_id@)
}

/// How many of the first `k` expected ids occur among `ids`.
pub open spec fn found_count(expected: Seq<Seq<char>>, ids: Seq<Seq<char>>, k: int) -> nat
    decreases k,
{
    if k <= 0 {
        0
    } else {
        found_count(expected, ids, k - 1) + if ids.contains(expected[k - 1]) {
            1nat
        } else {
            0nat
        }
    }
}

/// The number of expected ids that some hit has.
pub open spec fn hit_count_of(case: EvalCase, hits: Seq<EvalHit>) -> nat {
    found_count(string_views(case.expect.chunk_ids@), hit_ids(hits), case.expect.chunk_ids@.len() as int)
}

/// Some hit's quote contains `kw`.
pub open spec fn quoted(hits: Seq<EvalHit>, kw: Seq<char>) -> bool {
    exists|h: int| 0 <= h < hits.len() && contains_sub(#[trigger] hits[h].quote@, kw)
}

/// The answer keywords that no hit quotes, in order.
pub open spec fn missing_keywords(kws: Seq<Seq<char>>, hits: Seq<EvalHit>) -> Seq<Seq<char>> {
    kws.filter(|kw: Seq<char>| !quoted(hits, kw))
}

/// The detail line of a case: its recall when no keyword is missing, else
/// the missing keywords.
pub open spec fn detail_text(matched: nat, expected: nat, missing: Seq<Seq<char>>) -> Seq<char> {
    if missing.len() == 0 {
        "recall "@ + decimal(matched) + "/"@ + decimal(expected)
    } else {
        "缺少关键词: "@ + join_with(missing, ", "@)
    }
}

/// `r` is the result of scoring `case` against `hits`: the case passes when
/// some expected chunk was retrieved (or none was expected) and every
/// answer keyword is quoted by some hit.
pub open spec fn scored(case: EvalCase, hits: Seq<EvalHit>, r: CaseResult) -> bool {
    let kws = string_views(case.expect.answer_keywords@);
    &&& r.id@ == case.id@
    &&& r.question@ == case.question@
    &&& r.hit_count == hit_count_of(case, hits)
    &&& r.passed == ((case.expect.chunk_ids@.len() == 0 || r.hit_count > 0) && forall|k: int|
        0 <= k < kws.len() ==> quoted(hits, #[trigger] kws[k]))
    &&& r.detail@ == detail_text(
        r.hit_count as nat,
        case.expect.chunk_ids@.len(),
        missing_keywords(kws, hits),
    )
}

/// Whether some hit has the chunk id `id`.
fn has_hit_id(hits: &Vec<EvalHit>, id: &str) -> (r: bool)
    ensures
        r == hit_ids(hits@).contains(id@),
{
    let mut i: usize = 0;
    while i < hits.len()
        invariant
            i <= hits@.len(),
            forall|k: int| 0 <= k < i ==> (#[trigger] hits@[k]).chunk_id@ != id@,
        decreases hits@.len() - i,
    {
        if str_eq(hits[i].chunk_id.as_str(), id) {
            assert(hit_ids(hits@)[i as int] == id@);
            return true;
        }
        i += 1;
    }
    assert forall|k: int| 0 <= k < hit_ids(hits@).len() implies #[trigger] hit_ids(hits@)[k] != id@ by {
        assert(hits@[k].chunk_id@ != id@);
    }
    false
}

/// Whether some hit's quote contains `kw`.
fn is_quoted(hits: &Vec<EvalHit>, kw: &str) -> (r: bool)
    ensures
        r == quoted(hits@, kw@),
{
    let mut i: usize = 0;
    while i < hits.len()
        invariant
            i <= hits@.len(),
            forall|k: int| 0 <= k < i ==> !contains_sub(#[trigger] hits@[k].quote@, kw@),
        decreases hits@.len() - i,
    {
        if contains_str(hits[i].quote.as_str(), kw) {
            return true;
        }
        i += 1;
    }
    false
}

/// How many expected chunk ids some hit has.
pub fn count_found(expected: &Vec<String>, hits: &Vec<EvalHit>) -> (r: usize)
    ensures
        r == found_count(string_views(expected@), hit_ids(hits@), expected@.len() as int),
        r <= expected@.len(),
{
    let ghost ev = string_views(expected@);
    let mut n: usize = 0;
    let mut i: usize = 0;
    while i < expected.len()
        invariant
            i <= expected@.len(),
            ev == string_views(expected@),
            n == found_count(ev, hit_ids(hits@), i as int),
            n <= i,
        decreases expected@.len() - i,
    {
        assert(ev[i as int] == expected@[i as int]@);
        if has_hit_id(hits, expected[i].as_str()) {
            n += 1;
        }
        i += 1;
    }
    n
}

/// The answer keywords that no hit quotes, in order.
pub fn keywords_missing(kws: &Vec<String>, hits: &Vec<EvalHit>) -> (r: Vec<String>)
    ensures
        string_views(r@) == missing_keywords(string_views(kws@), hits@),
{
    let ghost kv = string_views(kws@);
    let mut out: Vec<String> = Vec::new();
    let mut i: usize = 0;
    assert(kv.take(0).filter(|kw: Seq<char>| !quoted(hits@, kw)) =~= Seq::<Seq<char>>::empty());
    while i < kws.len()
        invariant
            i <= kws@.len(),
            kv == string_views(kws@),
            string_views(out@) == kv.take(i as int).filter(|kw: Seq<char>| !quoted(hits@, kw)),
        decreases kws@.len() - i,
    {
        let ghost before = out@;
        proof {
            assert(kv.take(i + 1) =~= kv.take(i as int).push(kv[i as int]));
            kv.take(i as int).lemma_filter_push(kv[i as int], |kw: Seq<char>| !quoted(hits@, kw));
        }
        if !is_quoted(hits, kws[i].as_str()) {
            let o = owned(kws[i].as_str());
            out.push(o);
            assert(string_views(out@) =~= string_views(before).push(o@));
        } else {
            assert(out@ == before);
        }
        i += 1;
    }
    assert(kv.take(kws@.len() as int) =~= kv);
    out
}

/// No keyword among the first `n` is missing exactly when each of them is
/// quoted.
proof fn lemma_none_missing(kws: Seq<Seq<char>>, hits: Seq<EvalHit>, n: int)
    requires
        0 <= n <= kws.len(),
    ensures
        missing_keywords(kws.take(n), hits).len() == 0 <==> forall|k: int|
            0 <= k < n ==> quoted(hits, #[trigger] kws[k]),
    decreases n,
{
    if n > 0 {
        lemma_none_missing(kws, hits, n - 1);
        assert(kws.take(n) =~= kws.take(n - 1).push(kws[n - 1]));
        kws.take(n - 1).lemma_filter_push(kws[n - 1], |kw: Seq<char>| !quoted(hits, kw));
    } else {
        assert(kws.take(0) =~= Seq::<Seq<char>>::empty());
        assert(Seq::<Seq<char>>::empty().filter(|kw: Seq<char>| !quoted(hits, kw)) =~= Seq::<Seq<char>>::empty());
    }
}

/// Scores one case against what retrieval returned for it.
pub fn score_case(case: &EvalCase, hits: &Vec<EvalHit>) -> (r: CaseResult)
    ensures
        scored(*case, hits@, r),
{
    let matched = count_found(&case.expect.chunk_ids, hits);
    let missing = keywords_missing(&case.expect.answer_keywords, hits);
    let ghost kws = string_views(case.expect.answer_keywords@);
    proof {
        lemma_none_missing(kws, hits@, kws.len() as int);
        assert(kws.take(kws.len() as int) =~= kws);
    }
    let passed = (case.expect.chunk_ids.len() == 0 || matched > 0) && missing.len() == 0;
    let detail = if missing.len() == 0 {
        let mut v = chars_of("recall ");
        extend_chars(&mut v, &decimal_chars(matched as u64));
        extend_chars(&mut v, &chars_of("/"));
        extend_chars(&mut v, &decimal_chars(case.expect.chunk_ids.len() as u64));
        string_from(&v)
    } else {
        let mut v = chars_of("缺少关键词: ");
        extend_chars(&mut v, &join_strings(&missing, ", "));
        string_from(&v)
    };
    CaseResult {
        id: owned(case.id.as_str()),
        question: owned(case.question.as_str()),
        passed,
        hit_count: matched,
        detail,
    }
}

/// Some hit starts on one of the expected pages.
pub open spec fn page_found(hits: Seq<EvalHit>, pages: Seq<u32>) -> bool {
    exists|h: int|
        #![trigger hits[h]]
        0 <= h < hits.len() && (hits[h].page_start matches Some(p) && pages.contains(p))
}

/// The whole-number counters of an evaluation run.
pub struct TallyCounts {
    pub hit_total: nat,
    pub hit_denom: nat,
    pub page_ok: nat,
    pub page_denom: nat,
    pub table_denom: nat,
    pub ocr_denom: nat,
    pub chart_denom: nat,
}

/// The counters before any case.
pub open spec fn zero_counts() -> TallyCounts {
    TallyCounts { hit_total: 0, hit_denom: 0, page_ok: 0, page_denom: 0, table_denom: 0, ocr_denom: 0, chart_denom: 0 }
}

/// The counters after one more case: its found and expected chunk ids;
/// a page case when it expects pages (met when a hit starts on one); a
/// table case when it expects a table or table cells; an OCR case when it
/// has a reference text; a chart case when it expects a chart meaning.
pub open spec fn tally_step(t: TallyCounts, case: EvalCase, hits: Seq<EvalHit>) -> TallyCounts {
    let has_pages = case.expect.pages@.len() > 0;
    TallyCounts {
        hit_total: t.hit_total + hit_count_of(case, hits),
        hit_denom: t.hit_denom + case.expect.chunk_ids@.len(),
        page_ok: t.page_ok + if has_pages && page_found(hits, case.expect.pages@) { 1nat } else { 0nat },
        page_denom: t.page_denom + if has_pages { 1nat } else { 0nat },
        table_denom: t.table_denom + if case.expect.has_table == Some(true) || case.expect.table_expected is Some {
            1nat
        } else {
            0nat
        },
        ocr_denom: t.ocr_denom + if case.expect.ocr_reference is Some { 1nat } else { 0nat },
        chart_denom: t.chart_denom + if case.expect.chart_expected is Some { 1nat } else { 0nat },
    }
}

/// The counters after the first `k` cases.
pub open spec fn tally_upto(cases: Seq<EvalCase>, hits: Seq<Vec<EvalHit>>, k: int) -> TallyCounts
    decreases k,
{
    if k <= 0 {
        zero_counts()
    } else {
        tally_step(tally_upto(cases, hits, k - 1), cases[k - 1], hits[k - 1]@)
    }
}

/// The whole-number counters of an evaluation run; the ratios are formed
/// from them (and from the scored table, OCR and chart sums) at the end.
#[derive(Debug, Clone, Copy)]
pub struct EvalTally {
    pub hit_total: usize,
    pub hit_denom: usize,
    pub page_ok: usize,
    pub page_denom: usize,
    pub table_denom: usize,
    pub ocr_denom: usize,
    pub chart_denom: usize,
}

/// The counters of `t`.
pub open spec fn counts(t: EvalTally) -> TallyCounts {
    TallyCounts {
        hit_total: t.hit_total as nat,
        hit_denom: t.hit_denom as nat,
        page_ok: t.page_ok as nat,
        page_denom: t.page_denom as nat,
        table_denom: t.table_denom as nat,
        ocr_denom: t.ocr_denom as nat,
        chart_denom: t.chart_denom as nat,
    }
}

/// Whether some hit starts on one of `pages`.
fn starts_on_page(hits: &Vec<EvalHit>, pages: &Vec<u32>) -> (r: bool)
    ensures
        r == page_found(hits@, pages@),
{
    let mut i: usize = 0;
    while i < hits.len()
        invariant
            i <= hits@.len(),
            forall|k: int|
                #![trigger hits@[k]]
                0 <= k < i ==> !(hits@[k].page_start matches Some(p) && pages@.contains(p)),
        decreases hits@.len() - i,
    {
        if let Some(p) = hits[i].page_start {
            let mut j: usize = 0;
            while j < pages.len()
                invariant
                    j <= pages@.len(),
                    i < hits@.len(),
                    hits@[i as int].page_start == Some(p),
                    forall|m: int| 0 <= m < j ==> pages@[m] != p,
                decreases pages@.len() - j,
            {
                if pages[j] == p {
                    assert(pages@.contains(p));
                    assert(hits@[i as int].page_start matches Some(q) && pages@.contains(q));
                    return true;
                }
                j += 1;
            }
            assert(!pages@.contains(p));
        }
        i += 1;
    }
    false
}

impl EvalTally {
    /// All counters at zero.
    pub fn new() -> (r: Self)
        ensures
            counts(r) == zero_counts(),
    {
        EvalTally { hit_total: 0, hit_denom: 0, page_ok: 0, page_denom: 0, table_denom: 0, ocr_denom: 0, chart_denom: 0 }
    }

    /// Counts one more case with what retrieval returned for it.
    pub fn add_case(&mut self, case: &EvalCase, hits: &Vec<EvalHit>)
        requires
            old(self).hit_denom + case.expect.chunk_ids@.len() <= usize::MAX,
            old(self).hit_total + case.expect.chunk_ids@.len() <= usize::MAX,
            old(self).page_ok < usize::MAX,
            old(self).page_denom < usize::MAX,
            old(self).table_denom < usize::MAX,
            old(self).ocr_denom < usize::MAX,
            old(self).chart_denom < usize::MAX,
        ensures
            counts(*final(self)) == tally_step(counts(*old(self)), *case, hits@),
    {
        let matched = count_found(&case.expect.chunk_ids, hits);
        self.hit_total = self.hit_total + matched;
        self.hit_denom = self.hit_denom + case.expect.chunk_ids.len();
        if case.expect.pages.len() > 0 {
            self.page_denom = self.page_denom + 1;
            if starts_on_page(hits, &case.expect.pages) {
                self.page_ok = self.page_ok + 1;
            }
        }
        let table_case = match case.expect.has_table {
            Some(b) => b,
            None => false,
        } || case.expect.table_expected.is_some();
        if table_case {
            self.table_denom = self.table_denom + 1;
        }
        if case.expect.ocr_reference.is_some() {
            self.ocr_denom = self.ocr_denom + 1;
        }
        if case.expect.chart_expected.is_some() {
            self.chart_denom = self.chart_denom + 1;
        }
    }
}

/// The counters only grow from case to case.
proof fn lemma_tally_grows(cases: Seq<EvalCase>, hits: Seq<Vec<EvalHit>>, i: int, n: int)
    requires
        0 <= i <= n,
    ensures
        tally_upto(cases, hits, i).hit_denom <= tally_upto(cases, hits, n).hit_denom,
        tally_upto(cases, hits, i).hit_total <= tally_upto(cases, hits, i).hit_denom,
        tally_upto(cases, hits, i).page_ok <= i,
        tally_upto(cases, hits, i).page_denom <= i,
        tally_upto(cases, hits, i).table_denom <= i,
        tally_upto(cases, hits, i).ocr_denom <= i,
        tally_upto(cases, hits, i).chart_denom <= i,
    decreases n,
{
    if n > i {
        lemma_tally_grows(cases, hits, i, n - 1);
    } else if i > 0 {
        lemma_tally_grows(cases, hits, i - 1, i - 1);
        lemma_found_le(
            string_views(cases[i - 1].expect.chunk_ids@),
            hit_ids(hits[i - 1]@),
            cases[i - 1].expect.chunk_ids@.len() as int,
        );
    }
}

/// At most `k` of the first `k` expected ids are found.
proof fn lemma_found_le(expected: Seq<Seq<char>>, ids: Seq<Seq<char>>, k: int)
    ensures
        found_count(expected, ids, k) <= if k < 0 { 0 } else { k },
    decreases k,
{
    if k > 0 {
        lemma_found_le(expected, ids, k - 1);
    }
}

/// Scores every case and counts the run, given what retrieval returned for
/// each case; with no cases nothing is scored and every counter is zero.
pub fn tally_cases(cases: &Vec<EvalCase>, hits: &Vec<Vec<EvalHit>>) -> (r: (EvalTally, Vec<CaseResult>))
    requires
        hits@.len() == cases@.len(),
        tally_upto(cases@, hits@, cases@.len() as int).hit_denom <= usize::MAX,
    ensures
        counts(r.0) == tally_upto(cases@, hits@, cases@.len() as int),
        r.1@.len() == cases@.len(),
        forall|i: int| 0 <= i < cases@.len() ==> scored(cases@[i], hits@[i]@, #[trigger] r.1@[i]),
        cases@.len() == 0 ==> counts(r.0) == zero_counts() && r.1@.len() == 0,
{
    let mut tally = EvalTally::new();
    let mut results: Vec<CaseResult> = Vec::new();
    let n = cases.len();
    let mut i: usize = 0;
    while i < n
        invariant
            n == cases@.len(),
            hits@.len() == n,
            i <= n,
            tally_upto(cases@, hits@, n as int).hit_denom <= usize::MAX,
            counts(tally) == tally_upto(cases@, hits@, i as int),
            results@.len() == i,
            forall|k: int| 0 <= k < i ==> scored(cases@[k], hits@[k]@, #[trigger] results@[k]),
        decreases n - i,
    {
        proof {
            lemma_tally_grows(cases@, hits@, i + 1, n as int);
            lemma_tally_grows(cases@, hits@, i as int, i as int);
            lemma_found_le(
                string_views(cases@[i as int].expect.chunk_ids@),
                hit_ids(hits@[i as int]@),
                cases@[i as int].expect.chunk_ids@.len() as int,
            );
        }
        tally.add_case(&cases[i], &hits[i]);
        let r = score_case(&cases[i], &hits[i]);
        results.push(r);
        i += 1;
    }
    (tally, results)
}

/// The first chunk of the given block type, if any.
pub open spec fn first_of_type(metas: Seq<ChunkMeta>, block_type: Seq<char>) -> int {
    if exists|i: int| 0 <= i < metas.len() && (#[trigger] metas[i]).block_type@ == block_type {
        choose|i: int|
            0 <= i < metas.len() && (#[trigger] metas[i]).block_type@ == block_type && forall|j: int|
                0 <= j < i ==> (#[trigger] metas[j]).block_type@ != block_type
    } else {
        -1
    }
}

/// The position of the first chunk of the given block type.
fn find_block(metas: &Vec<ChunkMeta>, block_type: &str) -> (r: Option<usize>)
    ensures
        match r {
            Some(i) => first_of_type(metas@, block_type@) == i && i < metas@.len(),
            None => first_of_type(metas@, block_type@) == -1,
        },
{
    let mut i: usize = 0;
    while i < metas.len()
        invariant
            i <= metas@.len(),
            forall|j: int| 0 <= j < i ==> (#[trigger] metas@[j]).block_type@ != block_type@,
        decreases metas@.len() - i,
    {
        if str_eq(metas[i].block_type.as_str(), block_type) {
            let ghost w = i as int;
            assert(0 <= w < metas@.len() && metas@[w].block_type@ == block_type@ && forall|j: int|
                0 <= j < w ==> (#[trigger] metas@[j]).block_type@ != block_type@);
            proof {
                let c = first_of_type(metas@, block_type@);
                assert(0 <= c < metas@.len());
                if c < w {
                    assert(metas@[c].block_type@ != block_type@);
                } else if c > w {
                    assert(metas@[w].block_type@ != block_type@);
                }
            }
            return Some(i);
        }
        i += 1;
    }
    None
}

/// The table JSON scored for table accuracy: that of the first table chunk
/// (none when there is no table chunk or it has no JSON).
pub fn table_json_of(metas: &Vec<ChunkMeta>) -> (r: Option<String>)
    ensures
        ({
            let i = first_of_type(metas@, "table"@);
            if i < 0 {
                r is None
            } else {
                crate::market::opt_view(r) == crate::market::opt_view(metas@[i].table_json)
            }
        }),
{
    match find_block(metas, "table") {
        None => None,
        Some(i) => match &metas[i].table_json {
            Some(t) => Some(owned(t.as_str())),
            None => None,
        },
    }
}

/// The chart caption judged for chart accuracy: that of the first image
/// chunk (none when there is no image chunk or it has no caption).
pub fn chart_caption_of(metas: &Vec<ChunkMeta>) -> (r: Option<String>)
    ensures
        ({
            let i = first_of_type(metas@, "image"@);
            if i < 0 {
                r is None
            } else {
                crate::market::opt_view(r) == crate::market::opt_view(metas@[i].caption)
            }
        }),
{
    match find_block(metas, "image") {
        None => None,
        Some(i) => match &metas[i].caption {
            Some(t) => Some(owned(t.as_str())),
            None => None,
        },
    }
}

/// A table's JSON as cell extraction reads it.
#[derive(Debug, Clone)]
pub enum JsonValue {
    /// An array: each element as a row of values (each value as text when it
    /// is a string) when the element is an array.
    Array(Vec<Option<Vec<Option<String>>>>),
    /// An object: its values in the map's order, each as text when it is a
    /// string.
    Object(Vec<Option<String>>),
    /// Any other JSON value.
    Other,
}

/// A table's JSON as plain values.
pub enum JsonView {
    Array(Seq<Option<Seq<Option<Seq<char>>>>>),
    Object(Seq<Option<Seq<char>>>),
    Other,
}

/// The values of a row as plain values.
pub open spec fn row_view(r: Option<Vec<Option<String>>>) -> Option<Seq<Option<Seq<char>>>> {
    match r {
        Some(c) => Some(c@.map_values(|x: Option<String>| crate::market::opt_view(x))),
        None => None,
    }
}

/// `v` as plain values.
pub open spec fn json_view(v: JsonValue) -> JsonView {
    match v {
        JsonValue::Array(rows) => JsonView::Array(rows@.map_values(|r: Option<Vec<Option<String>>>| row_view(r))),
        JsonValue::Object(vals) => JsonView::Object(vals@.map_values(|x: Option<String>| crate::market::opt_view(x))),
        JsonValue::Other => JsonView::Other,
    }
}

/// Row `i` of a table document whose top level is an array: the row's
/// values (each as text when it is a string) when the element is an array.
pub open spec fn row_read(text: Seq<char>, i: int) -> Option<Seq<Option<Seq<char>>>> {
    let p = "/"@ + decimal(i as nat);
    match json_at(text, p) {
        Some(JsonFieldView::Array(m)) => Some(Seq::new(m as nat, |j: int| str_at(text, p + "/"@ + decimal(j as nat)))),
        _ => None,
    }
}

/// A table's JSON document as cell extraction reads it; none when the text
/// is not JSON.
pub open spec fn table_json_read(text: Seq<char>) -> Option<JsonView> {
    match json_at(text, seq![]) {
        None => None,
        Some(JsonFieldView::Array(n)) => Some(JsonView::Array(Seq::new(n as nat, |i: int| row_read(text, i)))),
        Some(JsonFieldView::Object(keys)) => Some(
            JsonView::Object(keys.map_values(|k: Seq<char>| str_at(text, "/"@ + pointer_token(k)))),
        ),
        Some(_) => Some(JsonView::Other),
    }
}

/// The pointer `prefix` followed by `/` and the decimal `i`.
fn index_pointer(prefix: &Vec<char>, i: usize) -> (r: String)
    ensures
        r@ == prefix@ + "/"@ + decimal(i as nat),
{
    let mut v = prefix.clone();
    extend_chars(&mut v, &chars_of("/"));
    extend_chars(&mut v, &decimal_chars(i as u64));
    string_from(&v)
}

/// The values of row `i` of a table document.
fn read_row(text: &str, i: usize) -> (r: Option<Vec<Option<String>>>)
    ensures
        row_view(r) == row_read(text@, i as int),
{
    let empty: Vec<char> = Vec::new();
    assert(empty@ =~= Seq::<char>::empty());
    let p = index_pointer(&empty, i);
    assert(p@ =~= "/"@ + decimal(i as nat));
    match json_field(text, p.as_str()) {
        Some(JsonField::Array(m)) => {
            let pc = chars_of(p.as_str());
            let mut row: Vec<Option<String>> = Vec::new();
            let mut j: usize = 0;
            while j < m
                invariant
                    j <= m,
                    pc@ == p@,
                    row@.len() == j,
                    forall|k: int| 0 <= k < j ==> crate::market::opt_view(#[trigger] row@[k]) == str_at(text@, p@ + "/"@ + decimal(k as nat)),
                decreases m - j,
            {
                let q = index_pointer(&pc, j);
                row.push(string_at(text, q.as_str()));
                j += 1;
            }
            let ghost want = Seq::new(m as nat, |j: int| str_at(text@, p@ + "/"@ + decimal(j as nat)));
            assert(row@.map_values(|x: Option<String>| crate::market::opt_view(x)) =~= want);
            Some(row)
        },
        _ => None,
    }
}

/// Reads a table's JSON document; none when the text is not JSON.
fn read_table_json(text: &str) -> (r: Option<JsonValue>)
    ensures
        match r {
            Some(v) => table_json_read(text@) == Some(json_view(v)),
            None => table_json_read(text@) is None,
        },
{
    let empty = owned("");
    proof {
        reveal_strlit("");
    }
    assert(empty@ =~= Seq::<char>::empty());
    match json_field(text, empty.as_str()) {
        None => None,
        Some(JsonField::Array(n)) => {
            let mut rows: Vec<Option<Vec<Option<String>>>> = Vec::new();
            let mut i: usize = 0;
            while i < n
                invariant
                    i <= n,
                    rows@.len() == i,
                    forall|k: int| 0 <= k < i ==> row_view(#[trigger] rows@[k]) == row_read(text@, k),
                decreases n - i,
            {
                rows.push(read_row(text, i));
                i += 1;
            }
            let v = JsonValue::Array(rows);
            assert(rows@.map_values(|r: Option<Vec<Option<String>>>| row_view(r)) =~= Seq::new(
                n as nat,
                |i: int| row_read(text@, i),
            ));
            Some(v)
        },
        Some(JsonField::Object(keys)) => {
            let ghost kv = string_views(keys@);
            let mut vals: Vec<Option<String>> = Vec::new();
            let mut i: usize = 0;
            while i < keys.len()
                invariant
                    i <= keys@.len(),
                    kv == string_views(keys@),
                    vals@.len() == i,
                    forall|k: int| 0 <= k < i ==> crate::market::opt_view(#[trigger] vals@[k]) == str_at(text@, "/"@ + pointer_token(kv[k])),
                decreases keys@.len() - i,
            {
                let mut p = chars_of("/");
                extend_chars(&mut p, &escape_key(keys[i].as_str()));
                let ps = string_from(&p);
                vals.push(string_at(text, ps.as_str()));
                i += 1;
            }
            assert(vals@.map_values(|x: Option<String>| crate::market::opt_view(x)) =~= kv.map_values(
                |k: Seq<char>| str_at(text@, "/"@ + pointer_token(k)),
            ));
            Some(JsonValue::Object(vals))
        },
        Some(_) => Some(JsonValue::Other),
    }
}

/// The strings among some values, in order.
pub open spec fn texts(vals: Seq<Option<Seq<char>>>) -> Seq<Seq<char>>
    decreases vals.len(),
{
    if vals.len() == 0 {
        seq![]
    } else {
        texts(vals.drop_last()) + match vals.last() {
            Some(t) => seq![t],
            None => Seq::<Seq<char>>::empty(),
        }
    }
}

/// The string cells of the rows that are arrays, row by row.
pub open spec fn rows_texts(rows: Seq<Option<Seq<Option<Seq<char>>>>>) -> Seq<Seq<char>>
    decreases rows.len(),
{
    if rows.len() == 0 {
        seq![]
    } else {
        rows_texts(rows.drop_last()) + match rows.last() {
            Some(r) => texts(r),
            None => Seq::<Seq<char>>::empty(),
        }
    }
}

/// The cells of a table's JSON: string cells of array rows, or string
/// values of an object.
pub open spec fn json_cells(v: JsonView) -> Seq<Seq<char>> {
    match v {
        JsonView::Array(rows) => rows_texts(rows),
        JsonView::Object(vals) => texts(vals),
        JsonView::Other => seq![],
    }
}

/// Appends the strings among `vals` to `out`.
fn push_texts(out: &mut Vec<String>, vals: &Vec<Option<String>>)
    ensures
        string_views(final(out)@) == string_views(old(out)@) + texts(
            vals@.map_values(|x: Option<String>| crate::market::opt_view(x)),
        ),
{
    let ghost start = string_views(out@);
    let ghost vv = vals@.map_values(|x: Option<String>| crate::market::opt_view(x));
    let mut i: usize = 0;
    while i < vals.len()
        invariant
            i <= vals@.len(),
            vv == vals@.map_values(|x: Option<String>| crate::market::opt_view(x)),
            string_views(out@) == start + texts(vv.take(i as int)),
        decreases vals@.len() - i,
    {
        let ghost before = out@;
        assert(vv.take(i + 1).drop_last() =~= vv.take(i as int));
        assert(vv.take(i + 1).last() == crate::market::opt_view(vals@[i as int]));
        match &vals[i] {
            Some(t) => {
                let o = owned(t.as_str());
                out.push(o);
                assert(string_views(out@) =~= string_views(before).push(o@));
                assert(string_views(out@) =~= start + texts(vv.take(i + 1)));
            },
            None => {
                assert(string_views(out@) =~= start + texts(vv.take(i + 1)));
            },
        }
        i += 1;
    }
    assert(vv.take(vals@.len() as int) =~= vv);
}

/// The cells of a parsed table: the string cells of its array rows, or the
/// string values of its object.
pub fn table_cells(v: &JsonValue) -> (r: Vec<String>)
    ensures
        string_views(r@) == json_cells(json_view(*v)),
{
    let mut out: Vec<String> = Vec::new();
    match v {
        JsonValue::Array(rows) => {
            let ghost rv = rows@.map_values(|r: Option<Vec<Option<String>>>| row_view(r));
            let mut i: usize = 0;
            assert(string_views(out@) =~= rows_texts(rv.take(0)));
            while i < rows.len()
                invariant
                    i <= rows@.len(),
                    rv == rows@.map_values(|r: Option<Vec<Option<String>>>| row_view(r)),
                    string_views(out@) == rows_texts(rv.take(i as int)),
                decreases rows@.len() - i,
            {
                assert(rv.take(i + 1).drop_last() =~= rv.take(i as int));
                assert(rv.take(i + 1).last() == row_view(rows@[i as int]));
                match &rows[i] {
                    Some(cells) => {
                        push_texts(&mut out, cells);
                    },
                    None => {
                        assert(string_views(out@) =~= rows_texts(rv.take(i + 1)));
                    },
                }
                i += 1;
            }
            assert(rv.take(rows@.len() as int) =~= rv);
        },
        JsonValue::Object(vals) => {
            push_texts(&mut out, vals);
            assert(string_views(out@) =~= json_cells(json_view(*v)));
        },
        JsonValue::Other => {
            assert(string_views(out@) =~= json_cells(json_view(*v)));
        },
    }
    out
}

/// For a table's JSON and the expected cells (flattened): how many
/// expected cells some table cell contains, how many cells were expected,
/// and how many cells the table has; none when the JSON is missing or
/// cannot be parsed.
pub fn table_match_counts(table_json: Option<&str>, expected: &Vec<String>) -> (r: Option<(usize, usize, usize)>)
    ensures
        match table_json {
            None => r is None,
            Some(t) => match table_json_read(t@) {
                None => r is None,
                Some(v) => r matches Some(c) && c.0 == matched_count(
                    json_cells(v),
                    string_views(expected@),
                    expected@.len() as int,
                ) && c.1 == expected@.len() && c.2 == json_cells(v).len(),
            },
        },
{
    match table_json {
        None => None,
        Some(t) => match read_table_json(t) {
            None => None,
            Some(v) => {
                let cells = table_cells(&v);
                let matched = matched_cells(&cells, expected);
                Some((matched, expected.len(), cells.len()))
            },
        },
    }
}


/// Law: a page case is met by a hit at any rank: when the case expects
/// pages and some hit, wherever it stands, starts on one of them, the case
/// counts as a page case that was met.
pub proof fn law_page_met_by_any_hit(t: TallyCounts, case: EvalCase, hits: Seq<EvalHit>, k: int, p: u32)
    requires
        case.expect.pages@.len() > 0,
        0 <= k < hits.len(),
        hits[k].page_start == Some(p),
        case.expect.pages@.contains(p),
    ensures
        page_found(hits, case.expect.pages@),
        tally_step(t, case, hits).page_ok == t.page_ok + 1,
        tally_step(t, case, hits).page_denom == t.page_denom + 1,
{
    assert(hits[k].page_start matches Some(q) && case.expect.pages@.contains(q));
}

/// Law: whether some hit starts on an expected page does not depend on how
/// the hits are split or ordered: for hits `a` followed by `b` it holds
/// exactly when it holds for `a` or for `b` (so also for `b` followed by
/// `a`).
pub proof fn law_page_found_split(a: Seq<EvalHit>, b: Seq<EvalHit>, pages: Seq<u32>)
    ensures
        page_found(a + b, pages) == (page_found(a, pages) || page_found(b, pages)),
        page_found(a + b, pages) == page_found(b + a, pages),
{
    let ab = a + b;
    let ba = b + a;
    if page_found(a, pages) {
        let h = choose|h: int| #![trigger a[h]] 0 <= h < a.len() && (a[h].page_start matches Some(p) && pages.contains(p));
        assert(ab[h] == a[h]);
        assert(ba[b.len() + h] == a[h]);
    }
    if page_found(b, pages) {
        let h = choose|h: int| #![trigger b[h]] 0 <= h < b.len() && (b[h].page_start matches Some(p) && pages.contains(p));
        assert(ab[a.len() + h] == b[h]);
        assert(ba[h] == b[h]);
    }
    if page_found(ab, pages) {
        let h = choose|h: int| #![trigger ab[h]] 0 <= h < ab.len() && (ab[h].page_start matches Some(p) && pages.contains(p));
        if h < a.len() {
            assert(ab[h] == a[h]);
        } else {
            assert(ab[h] == b[h - a.len()]);
        }
    }
    if page_found(ba, pages) {
        let h = choose|h: int| #![trigger ba[h]] 0 <= h < ba.len() && (ba[h].page_start matches Some(p) && pages.contains(p));
        if h < b.len() {
            assert(ba[h] == b[h]);
        } else {
            assert(ba[h] == a[h - b.len()]);
        }
    }
}

} // verus!
