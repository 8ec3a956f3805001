//! Agent run traces: the steps recorded for one run, and how many traces
//! are kept.
use vstd::prelude::*;

verus! {

/// One step of an agent run.
#[derive(Debug, Clone)]
pub struct TraceStep {
    pub step_index: u32,
    pub kind: String,
    pub input_summary: String,
    pub output_summary: String,
    pub latency_ms: u64,
    pub tool_name: Option<String>,
    pub error: Option<String>,
}

/// How many traces are kept when the setting asks for `configured`: the
/// setting held to between 100 and 10 000.
pub fn retain_limit(configured: i64) -> (r: i64)
    ensures
        r == if configured < 100 {
            100
        } else if configured > 10_000 {
            10_000
        } else {
            configured
        },
{
    if configured < 100 {
        100
    } else if configured > 10_000 {
        10_000
    } else {
        configured
    }
}

/// Some step of the run reported an error.
pub open spec fn has_failed_step(steps: Seq<TraceStep>) -> bool {
    exists|i: int| 0 <= i < steps.len() && (#[trigger] steps[i]).error is Some
}

/// Whether a run passes the tool-failure filter: with no filter every run
/// does; otherwise the run must have (for `true`) or lack (for `false`) a
/// failed step.
pub fn passes_failure_filter(steps: &Vec<TraceStep>, tool_failed: Option<bool>) -> (r: bool)
    ensures
        r == match tool_failed {
            None => true,
            Some(f) => f == has_failed_step(steps@),
        },
{
    match tool_failed {
        None => true,
        Some(f) => {
            let mut failed = false;
            let mut i: usize = 0;
            while i < steps.len()
                invariant
                    i <= steps@.len(),
                    failed <==> exists|j: int| 0 <= j < i && (#[trigger] steps@[j]).error is Some,
                decreases steps@.len() - i,
            {
                if steps[i].error.is_some() {
                    failed = true;
                }
                i += 1;
            }
            f == failed
        },
    }
}

} // verus!
