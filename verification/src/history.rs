//! Read-only aggregation over persisted usage events: the total consumed
//! over a recent window, the derived average daily consumption, the insight
//! decision built on it, and the traffic-counter delta the network sensor
//! feeds back into the engine.

use vstd::prelude::*;

use crate::model::{UsageRecord, UsageRecordV};

verus! {

/// Seconds in the seven-day window the insight looks back over.
pub const WEEK_SECS: u64 = 604800;

/// Sum of the amounts of the records newer than `cutoff`.
pub open spec fn usage_sum(records: Seq<UsageRecordV>, cutoff: u64) -> int
    decreases records.len(),
{
    if records.len() == 0 {
        0
    } else {
        usage_sum(records.drop_last(), cutoff) + (if records.last().timestamp > cutoff {
            records.last().amount as int
        } else {
            0
        })
    }
}

pub proof fn lemma_usage_sum_nonneg(records: Seq<UsageRecordV>, cutoff: u64)
    ensures
        usage_sum(records, cutoff) >= 0,
    decreases records.len(),
{
    if records.len() > 0 {
        lemma_usage_sum_nonneg(records.drop_last(), cutoff);
    }
}

/// Adds up the bytes consumed after `cutoff`, capping at `u64::MAX` rather
/// than overflowing.
pub fn total_usage_since(records: &Vec<UsageRecord>, cutoff: u64) -> (r: u64)
    ensures
        usage_sum(records.deep_view(), cutoff) <= u64::MAX ==> r == usage_sum(
            records.deep_view(),
            cutoff,
        ),
        usage_sum(records.deep_view(), cutoff) > u64::MAX ==> r == u64::MAX,
{
    let ghost s = records.deep_view();
    let mut acc: u64 = 0;
    let mut i: usize = 0;
    while i < records.len()
        invariant
            i <= records.len(),
            s == records.deep_view(),
            usage_sum(s.take(i as int), cutoff) <= u64::MAX ==> acc == usage_sum(
                s.take(i as int),
                cutoff,
            ),
            usage_sum(s.take(i as int), cutoff) > u64::MAX ==> acc == u64::MAX,
        decreases records.len() - i,
    {
        proof {
            let t = s.take(i + 1);
            assert(t.drop_last() =~= s.take(i as int));
            lemma_usage_sum_nonneg(s.take(i as int), cutoff);
        }
        if records[i].timestamp > cutoff {
            acc = acc.saturating_add(records[i].amount);
        }
        i += 1;
    }
    proof {
        assert(s.take(i as int) =~= s);
    }
    acc
}

/// The cutoff `calculate_daily_average` looks back to: seven days before
/// `now`, clamped at the epoch.
pub open spec fn week_cutoff(now: u64) -> u64 {
    if now >= WEEK_SECS {
        (now - WEEK_SECS) as u64
    } else {
        0
    }
}

/// Average bytes consumed per day over the last seven days, from the
/// persisted usage events.
pub fn calculate_daily_average(records: &Vec<UsageRecord>, now: u64) -> (r: u64)
    ensures
        usage_sum(records.deep_view(), week_cutoff(now)) <= u64::MAX ==> r == usage_sum(
            records.deep_view(),
            week_cutoff(now),
        ) / 7,
        usage_sum(records.deep_view(), week_cutoff(now)) > u64::MAX ==> r == u64::MAX / 7,
{
    let cutoff = now.saturating_sub(WEEK_SECS);
    let total = total_usage_since(records, cutoff);
    total / 7
}

/// What the insight report says, before any wording: either there is no
/// usage to forecast from, or a forecast of full days left at the recent
/// rate, with a top-up recommendation when fewer than three remain.
#[derive(Clone, Copy, Debug, PartialEq, Eq, Structural)]
pub enum Insight {
    NoHistory,
    Forecast { days_left: u64, recommend_topup: bool },
}

/// The insight decision for a balance and an average daily consumption.
pub fn generate_insight(balance_bytes: u64, daily_avg: u64) -> (r: Insight)
    ensures
        daily_avg == 0 ==> r == Insight::NoHistory,
        daily_avg > 0 ==> r == (Insight::Forecast {
            days_left: balance_bytes / daily_avg,
            recommend_topup: balance_bytes / daily_avg < 3,
        }),
{
    if daily_avg == 0 {
        Insight::NoHistory
    } else {
        let days_left = balance_bytes / daily_avg;
        Insight::Forecast { days_left, recommend_topup: days_left < 3 }
    }
}

/// The usage the network sensor reports from two raw interface counter
/// readings: only a strictly growing counter, after a first real reading,
/// counts as traffic.
pub fn sensor_delta(last_bytes: u64, current_bytes: u64) -> (r: Option<u64>)
    ensures
        last_bytes > 0 && current_bytes > last_bytes ==> r == Some(
            (current_bytes - last_bytes) as u64,
        ),
        !(last_bytes > 0 && current_bytes > last_bytes) ==> r is None,
{
    if last_bytes > 0 && current_bytes > last_bytes {
        Some(current_bytes - last_bytes)
    } else {
        None
    }
}

} // verus!
