//! Quality audit of evaluation cases: short queries, thin expected answers
//! and negations that may mislead.
use vstd::prelude::*;

use crate::text::{
    byte_len, chars_of, contains_str, contains_sub, join_strings, join_with, owned, string_from,
    string_views, trim, trimmed,
};

verus! {

/// What is wrong with a broken case.
#[derive(Debug, Clone, Copy, PartialEq, Eq, Structural)]
pub enum BrokenCategory {
    /// The test is stricter than the question warrants.
    OverlyStrict,
    /// The query is too short to be clear.
    AmbiguousPrompt,
    /// The expected answer covers too little.
    LowCoverage,
    /// The query contains a negation that may mislead.
    MisleadingPrompt,
}

/// The verdict on a case.
#[derive(Debug, Clone, PartialEq, Eq)]
pub enum AuditVerdict {
    /// The case is fine.
    Passed,
    Broken { categories: Vec<BrokenCategory> },
}

/// The audit of one case.
#[derive(Debug, Clone)]
pub struct CaseAuditReport {
    pub case_id: String,
    pub verdict: AuditVerdict,
    pub reason: String,
}

/// The query is too short: fewer than 5 bytes once trimmed.
pub open spec fn too_short_query(query: Seq<char>) -> bool {
    byte_len(trim(query)) < 5
}

/// The expected answer is too short: fewer than 10 bytes once trimmed.
pub open spec fn too_short_answer(expected: Seq<char>) -> bool {
    byte_len(trim(expected)) < 10
}

/// The query contains `不是` or `不应该`.
pub open spec fn has_negation(query: Seq<char>) -> bool {
    contains_sub(query, "不是"@) || contains_sub(query, "不应该"@)
}

/// The problems found, in the order they are checked, with their reasons.
pub open spec fn findings(query: Seq<char>, expected: Seq<char>) -> Seq<(BrokenCategory, Seq<char>)> {
    let a: Seq<(BrokenCategory, Seq<char>)> = if too_short_query(query) {
        seq![(BrokenCategory::AmbiguousPrompt, "查询词过短，可能不明确"@)]
    } else {
        seq![]
    };
    let b: Seq<(BrokenCategory, Seq<char>)> = if too_short_answer(expected) {
        seq![(BrokenCategory::LowCoverage, "期望答案过短，覆盖不足"@)]
    } else {
        seq![]
    };
    let c: Seq<(BrokenCategory, Seq<char>)> = if has_negation(query) {
        seq![(BrokenCategory::MisleadingPrompt, "包含否定词，可能误导"@)]
    } else {
        seq![]
    };
    a + b + c
}

/// Audits a case from its query and expected answer: each failed check adds
/// a category and a reason; no finding means the case is fine.
pub fn audit_case_fields(case_id: &str, query: &str, expected_answer: &str) -> (r: CaseAuditReport)
    ensures
        r.case_id@ == case_id@,
        ({
            let f = findings(query@, expected_answer@);
            &&& f.len() == 0 ==> r.verdict == AuditVerdict::Passed && r.reason@ == "用例质量正常"@
            &&& f.len() > 0 ==> (r.verdict matches AuditVerdict::Broken { categories } && categories@
                == f.map_values(|p: (BrokenCategory, Seq<char>)| p.0)) && r.reason@ == join_with(
                f.map_values(|p: (BrokenCategory, Seq<char>)| p.1),
                "; "@,
            )
        }),
{
    let ghost f = findings(query@, expected_answer@);
    let mut categories: Vec<BrokenCategory> = Vec::new();
    let mut reasons: Vec<String> = Vec::new();
    let qc = chars_of(query);
    let q_trim = trimmed(&qc);
    let q_len = crate::text::byte_len_sat(&q_trim);
    let ec = chars_of(expected_answer);
    let e_trim = trimmed(&ec);
    let e_len = crate::text::byte_len_sat(&e_trim);
    let short_q = q_len < 5;
    let short_e = e_len < 10;
    let neg = contains_str(query, "不是") || contains_str(query, "不应该");
    if short_q {
        categories.push(BrokenCategory::AmbiguousPrompt);
        reasons.push(owned("查询词过短，可能不明确"));
    }
    if short_e {
        categories.push(BrokenCategory::LowCoverage);
        reasons.push(owned("期望答案过短，覆盖不足"));
    }
    if neg {
        categories.push(BrokenCategory::MisleadingPrompt);
        reasons.push(owned("包含否定词，可能误导"));
    }
    assert(categories@ =~= f.map_values(|p: (BrokenCategory, Seq<char>)| p.0));
    assert(string_views(reasons@) =~= f.map_values(|p: (BrokenCategory, Seq<char>)| p.1));
    let id = owned(case_id);
    if categories.len() == 0 {
        CaseAuditReport { case_id: id, verdict: AuditVerdict::Passed, reason: owned("用例质量正常") }
    } else {
        let joined = join_strings(&reasons, "; ");
        CaseAuditReport {
            case_id: id,
            verdict: AuditVerdict::Broken { categories },
            reason: string_from(&joined),
        }
    }
}

} // verus!
