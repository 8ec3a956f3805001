use prism_agent::trace::{passes_failure_filter, retain_limit, TraceStep};

fn step(i: u32, error: Option<&str>) -> TraceStep {
    TraceStep {
        step_index: i,
        kind: "tool".into(),
        input_summary: "in".into(),
        output_summary: "out".into(),
        latency_ms: 10,
        tool_name: Some("search".into()),
        error: error.map(|e| e.to_string()),
    }
}

#[test]
fn retain_is_clamped() {
    assert_eq!(retain_limit(5), 100);
    assert_eq!(retain_limit(1000), 1000);
    assert_eq!(retain_limit(50_000), 10_000);
}

#[test]
fn failure_filter() {
    let ok = vec![step(0, None), step(1, None)];
    let bad = vec![step(0, None), step(1, Some("boom"))];
    assert!(passes_failure_filter(&ok, None));
    assert!(passes_failure_filter(&bad, None));
    assert!(passes_failure_filter(&bad, Some(true)));
    assert!(!passes_failure_filter(&ok, Some(true)));
    assert!(passes_failure_filter(&ok, Some(false)));
    assert!(!passes_failure_filter(&bad, Some(false)));
}
