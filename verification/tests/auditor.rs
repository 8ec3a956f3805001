use prism_agent::auditor::{audit_case_fields, AuditVerdict, BrokenCategory};

#[test]
fn audit_flags_each_problem() {
    let r = audit_case_fields("c1", "是", "短");
    assert_eq!(r.case_id, "c1");
    assert_eq!(
        r.verdict,
        AuditVerdict::Broken {
            categories: vec![BrokenCategory::AmbiguousPrompt, BrokenCategory::LowCoverage]
        }
    );
    assert_eq!(r.reason, "查询词过短，可能不明确; 期望答案过短，覆盖不足");
}

#[test]
fn audit_negation_is_misleading() {
    let r = audit_case_fields("c2", "为什么这不是问题", "这是一个足够长的期望答案");
    assert_eq!(
        r.verdict,
        AuditVerdict::Broken { categories: vec![BrokenCategory::MisleadingPrompt] }
    );
    assert_eq!(r.reason, "包含否定词，可能误导");
}

#[test]
fn audit_passes_good_case() {
    let r = audit_case_fields("c3", "什么是保修政策", "保修期为购买之日起两年");
    assert_eq!(r.verdict, AuditVerdict::Passed);
    assert_eq!(r.reason, "用例质量正常");
}
