use prism_agent::usage::{tally_month, tally_week, usage_tokens, usage_windows, DAY_MS};

#[test]
fn windows_start_at_utc_midnight() {
    let now = 3 * DAY_MS + 5_000;
    let w = usage_windows(now);
    assert_eq!(w.today_start, 3 * DAY_MS);
    assert_eq!(w.week_start, 3 * DAY_MS - 6 * DAY_MS);
    assert_eq!(w.month_start, 3 * DAY_MS - 29 * DAY_MS);
}

#[test]
fn tokens_counted_per_window() {
    let w = usage_windows(10 * DAY_MS + 1);
    let records = vec![(10 * DAY_MS + 1, 100u64), (9 * DAY_MS, 20), (4 * DAY_MS, 7), (3 * DAY_MS, 1000)];
    let t = tally_week(&records, w);
    assert_eq!(t.today_tokens, 100);
    assert_eq!(t.today_calls, 1);
    assert_eq!(t.week_tokens, 127);
    assert_eq!(tally_month(&vec![1, 2, 3]), 6);
}

#[test]
fn windows_before_the_epoch_cut_towards_zero() {
    let w = usage_windows(-DAY_MS - 5);
    assert_eq!(w.today_start, -DAY_MS);
    assert_eq!(w.week_start, -7 * DAY_MS);
}

#[test]
fn usage_record_tokens() {
    assert_eq!(usage_tokens(r#"{"prompt_tokens":12,"completion_tokens":30}"#), Some(42));
    assert_eq!(usage_tokens(r#"{"prompt_tokens":12}"#), Some(12));
    assert_eq!(usage_tokens(r#"{"prompt_tokens":"12","completion_tokens":1.5}"#), Some(0));
    assert_eq!(usage_tokens("[1,2]"), Some(0));
    assert_eq!(usage_tokens("oops"), None);
    assert_eq!(usage_tokens(r#"{"prompt_tokens":18446744073709551615,"completion_tokens":1}"#), None);
}
