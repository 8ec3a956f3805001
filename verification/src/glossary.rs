//! Importing glossary terms from CSV text.
//!
//! The first line is a header (`source_lang,target_lang,source_term,
//! target_term,category`).  Every other line is trimmed; blank lines and
//! lines starting with `#` are skipped.  A line is split at its first four
//! commas: it needs at least four fields, each trimmed, and whatever follows
//! a fourth comma is the category.
use vstd::prelude::*;

use crate::models::{GlossaryTermInput, ImportResult};
use crate::text::{chars_of, find_char, find_from, lemma_find_from_range, lines_of, seqs_of, slice_chars, split_lines, string_from, trim, trimmed};

verus! {

/// What one CSV line holds, as text.
pub enum GlossaryLineView {
    Blank,
    Malformed,
    Term(Seq<char>, Seq<char>, Seq<char>, Seq<char>, Option<Seq<char>>),
}

/// What one CSV line holds.
#[derive(Debug, Clone)]
pub enum GlossaryLine {
    /// An empty line or a comment: skipped.
    Blank,
    /// Fewer than four fields: counted as failed.
    Malformed,
    /// A term to store.
    Term(GlossaryTermInput),
}

impl View for GlossaryLine {
    type V = GlossaryLineView;

    open spec fn view(&self) -> GlossaryLineView {
        match self {
            GlossaryLine::Blank => GlossaryLineView::Blank,
            GlossaryLine::Malformed => GlossaryLineView::Malformed,
            GlossaryLine::Term(t) => GlossaryLineView::Term(
                t.source_lang@,
                t.target_lang@,
                t.source_term@,
                t.target_term@,
                match t.category {
                    Some(c) => Some(c@),
                    None => None,
                },
            ),
        }
    }
}

/// The trimmed text of `s` between `lo` and `hi`.
pub open spec fn field(s: Seq<char>, lo: int, hi: int) -> Seq<char> {
    trim(s.subrange(lo, hi))
}

/// The reading of one (untrimmed) CSV line.
pub open spec fn glossary_line(line: Seq<char>) -> GlossaryLineView {
    let s = trim(line);
    if s.len() == 0 || s[0] == '#' {
        GlossaryLineView::Blank
    } else {
        let c1 = find_from(s, ',', 0);
        let c2 = find_from(s, ',', c1 + 1);
        let c3 = find_from(s, ',', c2 + 1);
        if c1 < 0 || c2 < 0 || c3 < 0 {
            GlossaryLineView::Malformed
        } else {
            let c4 = find_from(s, ',', c3 + 1);
            if c4 < 0 {
                GlossaryLineView::Term(
                    field(s, 0, c1),
                    field(s, c1 + 1, c2),
                    field(s, c2 + 1, c3),
                    field(s, c3 + 1, s.len() as int),
                    None,
                )
            } else {
                GlossaryLineView::Term(
                    field(s, 0, c1),
                    field(s, c1 + 1, c2),
                    field(s, c2 + 1, c3),
                    field(s, c3 + 1, c4),
                    Some(field(s, c4 + 1, s.len() as int)),
                )
            }
        }
    }
}

/// The trimmed text of `v` between `lo` and `hi`, as a string.
fn field_of(v: &Vec<char>, lo: usize, hi: usize) -> (r: String)
    requires
        lo <= hi <= v@.len(),
    ensures
        r@ == field(v@, lo as int, hi as int),
{
    let part = slice_chars(v, lo, hi);
    string_from(&trimmed(&part))
}

/// Reads one CSV line.
pub fn parse_glossary_line(line: &str) -> (r: GlossaryLine)
    ensures
        r@ == glossary_line(line@),
{
    let s = trimmed(&chars_of(line));
    if s.len() == 0 || s[0] == '#' {
        return GlossaryLine::Blank;
    }
    let n = s.len();
    proof {
        lemma_find_from_range(s@, ',', 0);
    }
    let c1 = match find_char(&s, ',', 0) {
        Some(i) => i,
        None => {
            return GlossaryLine::Malformed;
        },
    };
    proof {
        lemma_find_from_range(s@, ',', c1 + 1);
    }
    let c2 = match find_char(&s, ',', c1 + 1) {
        Some(i) => i,
        None => {
            return GlossaryLine::Malformed;
        },
    };
    proof {
        lemma_find_from_range(s@, ',', c2 + 1);
    }
    let c3 = match find_char(&s, ',', c2 + 1) {
        Some(i) => i,
        None => {
            return GlossaryLine::Malformed;
        },
    };
    proof {
        lemma_find_from_range(s@, ',', c3 + 1);
    }
    let source_lang = field_of(&s, 0, c1);
    let target_lang = field_of(&s, c1 + 1, c2);
    let source_term = field_of(&s, c2 + 1, c3);
    match find_char(&s, ',', c3 + 1) {
        None => {
            let target_term = field_of(&s, c3 + 1, n);
            GlossaryLine::Term(GlossaryTermInput { source_lang, target_lang, source_term, target_term, category: None })
        },
        Some(c4) => {
            let target_term = field_of(&s, c3 + 1, c4);
            let category = field_of(&s, c4 + 1, n);
            GlossaryLine::Term(
                GlossaryTermInput { source_lang, target_lang, source_term, target_term, category: Some(category) },
            )
        },
    }
}

/// The readings of the lines of a CSV file after its header line.
pub open spec fn glossary_csv(content: Seq<char>) -> Seq<GlossaryLineView> {
    let ls = lines_of(content);
    if ls.len() == 0 {
        Seq::empty()
    } else {
        ls.skip(1).map_values(|l: Seq<char>| glossary_line(l))
    }
}

/// Reads every line of a CSV file after the header.
pub fn parse_glossary_csv(content: &str) -> (r: Vec<GlossaryLine>)
    ensures
        r@.map_values(|l: GlossaryLine| l@) == glossary_csv(content@),
{
    let lines = split_lines(&chars_of(content));
    let ghost ls = lines_of(content@);
    assert(seqs_of(lines@) == ls);
    let mut out: Vec<GlossaryLine> = Vec::new();
    let mut i: usize = 1;
    if lines.len() == 0 {
        assert(out@.map_values(|l: GlossaryLine| l@) =~= glossary_csv(content@));
        return out;
    }
    while i < lines.len()
        invariant
            1 <= i <= lines@.len(),
            seqs_of(lines@) == ls,
            ls == lines_of(content@),
            out@.map_values(|l: GlossaryLine| l@) == ls.subrange(1, i as int).map_values(
                |l: Seq<char>| glossary_line(l),
            ),
        decreases lines@.len() - i,
    {
        let line = string_from(&lines[i]);
        assert(line@ == ls[i as int]);
        let g = parse_glossary_line(line.as_str());
        let ghost before = out@;
        out.push(g);
        assert(out@.map_values(|l: GlossaryLine| l@) =~= before.map_values(|l: GlossaryLine| l@).push(g@));
        assert(ls.subrange(1, i + 1).map_values(|l: Seq<char>| glossary_line(l)) =~= ls.subrange(
            1,
            i as int,
        ).map_values(|l: Seq<char>| glossary_line(l)).push(glossary_line(ls[i as int])));
        i += 1;
    }
    assert(ls.subrange(1, ls.len() as int) =~= ls.skip(1));
    out
}

/// How many of the first `k` lines were stored, given whether each term's
/// insertion succeeded.
pub open spec fn imported_count(lines: Seq<GlossaryLineView>, stored: Seq<bool>, k: int) -> nat
    decreases k,
{
    if k <= 0 {
        0
    } else {
        imported_count(lines, stored, k - 1) + if lines[k - 1] is Term && stored[k - 1] {
            1nat
        } else {
            0nat
        }
    }
}

/// How many of the first `k` lines failed: malformed lines and terms whose
/// insertion failed.
pub open spec fn failed_count(lines: Seq<GlossaryLineView>, stored: Seq<bool>, k: int) -> nat
    decreases k,
{
    if k <= 0 {
        0
    } else {
        failed_count(lines, stored, k - 1) + if lines[k - 1] is Malformed || (lines[k - 1] is Term
            && !stored[k - 1]) {
            1nat
        } else {
            0nat
        }
    }
}

/// The import result for the parsed lines, given for each line whether
/// storing it succeeded (only read for terms).
pub fn import_tally(lines: &Vec<GlossaryLine>, stored: &Vec<bool>) -> (r: ImportResult)
    requires
        stored@.len() == lines@.len(),
    ensures
        r.imported == imported_count(lines@.map_values(|l: GlossaryLine| l@), stored@, lines@.len() as int),
        r.failed == failed_count(lines@.map_values(|l: GlossaryLine| l@), stored@, lines@.len() as int),
{
    let ghost views = lines@.map_values(|l: GlossaryLine| l@);
    let mut imported: usize = 0;
    let mut failed: usize = 0;
    let mut i: usize = 0;
    while i < lines.len()
        invariant
            i <= lines@.len(),
            stored@.len() == lines@.len(),
            views == lines@.map_values(|l: GlossaryLine| l@),
            imported == imported_count(views, stored@, i as int),
            failed == failed_count(views, stored@, i as int),
            imported + failed <= i,
        decreases lines@.len() - i,
    {
        assert(views[i as int] == lines@[i as int]@);
        match &lines[i] {
            GlossaryLine::Blank => {},
            GlossaryLine::Malformed => {
                failed += 1;
            },
            GlossaryLine::Term(_) => {
                if stored[i] {
                    imported += 1;
                } else {
                    failed += 1;
                }
            },
        }
        i += 1;
    }
    ImportResult { imported, failed }
}

/// How many of the first `k` lines were skipped (blank or comments).
pub open spec fn blank_count(lines: Seq<GlossaryLineView>, k: int) -> nat
    decreases k,
{
    if k <= 0 {
        0
    } else {
        blank_count(lines, k - 1) + if lines[k - 1] is Blank {
            1nat
        } else {
            0nat
        }
    }
}

/// Every line is accounted for: it was stored, failed, or skipped.
pub proof fn law_import_accounts_every_line(lines: Seq<GlossaryLineView>, stored: Seq<bool>)
    requires
        stored.len() == lines.len(),
    ensures
        imported_count(lines, stored, lines.len() as int) + failed_count(lines, stored, lines.len() as int)
            + blank_count(lines, lines.len() as int) == lines.len(),
{
    lemma_counts_prefix(lines, stored, lines.len() as int);
}

/// The three counts of a prefix add up to its length.
proof fn lemma_counts_prefix(lines: Seq<GlossaryLineView>, stored: Seq<bool>, k: int)
    requires
        0 <= k <= lines.len(),
        stored.len() == lines.len(),
    ensures
        imported_count(lines, stored, k) + failed_count(lines, stored, k) + blank_count(lines, k) == k,
    decreases k,
{
    if k > 0 {
        lemma_counts_prefix(lines, stored, k - 1);
    }
}

} // verus!
