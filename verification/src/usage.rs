//! Token usage on the dashboard: the day, week and month windows, and the
//! token counts per window.
use vstd::prelude::*;

use crate::json::{is_json, json_at, number_at, u64_at};

verus! {

/// Milliseconds per day.
pub const DAY_MS: i64 = 86400000;

/// The starts of the usage windows, in milliseconds since the epoch: today
/// (UTC midnight), the last 7 days and the last 30 days (both counting
/// today).
#[derive(Debug, Clone, Copy, PartialEq, Eq, Structural)]
pub struct UsageWindows {
    pub today_start: i64,
    pub week_start: i64,
    pub month_start: i64,
}

/// The remainder of `a` divided by `d` with the sign of `a`, as integer
/// `%` computes it.
pub open spec fn signed_rem(a: int, d: int) -> int {
    if a >= 0 {
        a % d
    } else {
        -((-a) % d)
    }
}

/// The windows for the time `now_ms`: the day starts where the remainder
/// by a day is taken off (so before the epoch the day is cut towards zero).
/// The month window must still be a 64-bit time.
pub fn usage_windows(now_ms: i64) -> (r: UsageWindows)
    requires
        now_ms >= i64::MIN + 30 * DAY_MS,
    ensures
        r.today_start == now_ms - signed_rem(now_ms as int, DAY_MS as int),
        r.week_start == r.today_start - 6 * DAY_MS,
        r.month_start == r.today_start - 29 * DAY_MS,
{
    let rem = if now_ms >= 0 {
        now_ms % DAY_MS
    } else {
        -((-now_ms) % DAY_MS)
    };
    let today_start = now_ms - rem;
    UsageWindows { today_start, week_start: today_start - 6 * DAY_MS, month_start: today_start - 29 * DAY_MS }
}

/// The tokens of a stored usage record: its prompt tokens plus its
/// completion tokens (each 0 when absent or not a whole number); none when
/// the record is not JSON or the sum does not fit in a `u64`.
pub fn usage_tokens(usage_json: &str) -> (r: Option<u64>)
    ensures
        match json_at(usage_json@, seq![]) {
            None => r is None,
            Some(_) => {
                let p = match u64_at(usage_json@, "/prompt_tokens"@) {
                    Some(n) => n as int,
                    None => 0,
                };
                let c = match u64_at(usage_json@, "/completion_tokens"@) {
                    Some(n) => n as int,
                    None => 0,
                };
                if p + c <= u64::MAX {
                    r == Some((p + c) as u64)
                } else {
                    r is None
                }
            },
        },
{
    if !is_json(usage_json) {
        return None;
    }
    let p = match number_at(usage_json, "/prompt_tokens") {
        Some(n) => n,
        None => 0,
    };
    let c = match number_at(usage_json, "/completion_tokens") {
        Some(n) => n,
        None => 0,
    };
    p.checked_add(c)
}

/// The tokens of the records from `since` on.
pub open spec fn tokens_since(records: Seq<(i64, u64)>, since: i64) -> nat
    decreases records.len(),
{
    if records.len() == 0 {
        0
    } else {
        tokens_since(records.drop_last(), since) + if records.last().0 >= since {
            records.last().1 as nat
        } else {
            0nat
        }
    }
}

/// How many records fall from `since` on.
pub open spec fn calls_since(records: Seq<(i64, u64)>, since: i64) -> nat
    decreases records.len(),
{
    if records.len() == 0 {
        0
    } else {
        calls_since(records.drop_last(), since) + if records.last().0 >= since {
            1nat
        } else {
            0nat
        }
    }
}

/// All tokens of the records.
pub open spec fn tokens_total(records: Seq<(i64, u64)>) -> nat
    decreases records.len(),
{
    if records.len() == 0 {
        0
    } else {
        tokens_total(records.drop_last()) + records.last().1 as nat
    }
}

/// Tokens counted by window.
#[derive(Debug, Clone, Copy, PartialEq, Eq, Structural)]
pub struct TokenTally {
    pub today_tokens: u64,
    pub week_tokens: u64,
    pub today_calls: u64,
}

/// Part of the tokens is at most all of them.
proof fn lemma_since_le_total(records: Seq<(i64, u64)>, since: i64)
    ensures
        tokens_since(records, since) <= tokens_total(records),
        calls_since(records, since) <= records.len(),
    decreases records.len(),
{
    if records.len() > 0 {
        lemma_since_le_total(records.drop_last(), since);
    }
}

/// Counts the tokens of this week's records (timestamp, tokens): those of
/// today, those of the week, and today's number of calls.
pub fn tally_week(records: &Vec<(i64, u64)>, w: UsageWindows) -> (r: TokenTally)
    requires
        tokens_total(records@) <= u64::MAX,
    ensures
        r.today_tokens == tokens_since(records@, w.today_start),
        r.week_tokens == tokens_since(records@, w.week_start),
        r.today_calls == calls_since(records@, w.today_start),
{
    let mut today: u64 = 0;
    let mut week: u64 = 0;
    let mut calls: u64 = 0;
    let mut i: usize = 0;
    while i < records.len()
        invariant
            i <= records@.len(),
            tokens_total(records@) <= u64::MAX,
            today == tokens_since(records@.take(i as int), w.today_start),
            week == tokens_since(records@.take(i as int), w.week_start),
            calls == calls_since(records@.take(i as int), w.today_start),
        decreases records@.len() - i,
    {
        let (ts, tokens) = records[i];
        let ghost pre = records@.take(i as int);
        let ghost next = records@.take(i + 1);
        assert(next.drop_last() =~= pre);
        proof {
            lemma_since_le_total(next, w.today_start);
            lemma_since_le_total(next, w.week_start);
            lemma_prefix_total(records@, i + 1);
        }
        if ts >= w.today_start {
            today = today + tokens;
            calls = calls + 1;
        }
        if ts >= w.week_start {
            week = week + tokens;
        }
        i += 1;
    }
    assert(records@.take(records@.len() as int) =~= records@);
    TokenTally { today_tokens: today, week_tokens: week, today_calls: calls }
}

/// A prefix holds at most all the tokens.
proof fn lemma_prefix_total(records: Seq<(i64, u64)>, k: int)
    requires
        0 <= k <= records.len(),
    ensures
        tokens_total(records.take(k)) <= tokens_total(records),
    decreases records.len() - k,
{
    if k < records.len() {
        lemma_prefix_total(records, k + 1);
        assert(records.take(k + 1).drop_last() =~= records.take(k));
    } else {
        assert(records.take(k) =~= records);
    }
}

/// The sum of some token counts.
pub open spec fn token_sum(ts: Seq<u64>) -> nat
    decreases ts.len(),
{
    if ts.len() == 0 {
        0
    } else {
        token_sum(ts.drop_last()) + ts.last() as nat
    }
}

/// A prefix sums to at most the whole.
proof fn lemma_prefix_sum(ts: Seq<u64>, k: int)
    requires
        0 <= k <= ts.len(),
    ensures
        token_sum(ts.take(k)) <= token_sum(ts),
    decreases ts.len() - k,
{
    if k < ts.len() {
        lemma_prefix_sum(ts, k + 1);
        assert(ts.take(k + 1).drop_last() =~= ts.take(k));
    } else {
        assert(ts.take(k) =~= ts);
    }
}

/// The month's tokens: the sum over the month's records.
pub fn tally_month(tokens: &Vec<u64>) -> (r: u64)
    requires
        token_sum(tokens@) <= u64::MAX,
    ensures
        r == token_sum(tokens@),
{
    let mut sum: u64 = 0;
    let mut i: usize = 0;
    while i < tokens.len()
        invariant
            i <= tokens@.len(),
            token_sum(tokens@) <= u64::MAX,
            sum == token_sum(tokens@.take(i as int)),
        decreases tokens@.len() - i,
    {
        assert(tokens@.take(i + 1).drop_last() =~= tokens@.take(i as int));
        proof {
            lemma_prefix_sum(tokens@, i + 1);
        }
        sum = sum + tokens[i];
        i += 1;
    }
    assert(tokens@.take(tokens@.len() as int) =~= tokens@);
    sum
}

} // verus!
