//! Usage analytics over a window of the store: rates, remaining time, trend,
//! average and peak hour, all in exact integer arithmetic.
//!
//! Rates and times are fractions; what number a fraction denotes, and what
//! the comparisons made here mean for those numbers, is stated in the laws
//! of this module. A score for the evenness of usage is not among these
//! analytics: it is a square root of a quotient of sums of fractions and has
//! no exact form in integers.

use vstd::prelude::*;
use vstd::arithmetic::div_mod::{lemma_hoist_over_denominator, lemma_mod_multiples_vanish};
use vstd::string::StringExecFns;
use crate::database::{
    balance_since, now_millis, usage_since, window_start, BalanceRecord, Database, UsageRecord,
    MAX_RECORDS,
};
use crate::ratio::{lemma_quotient, Ratio};
use crate::text::{decimal_digits, decimal_text, tenths_digits, tenths_text};

verus! {

/// Where the balance is heading, named after what usage does.
#[derive(Clone, Copy, Debug, PartialEq, Eq, Structural)]
pub enum UsageTrend {
    /// The balance falls by more than one credit per snapshot.
    Increasing,
    /// The balance rises by more than one credit per snapshot.
    Decreasing,
    Stable,
    /// Fewer than three snapshots.
    Insufficient,
}

#[derive(Clone, Copy, Debug, PartialEq, Eq, Structural)]
pub enum AlertLevel {
    Info,
    Warning,
    Critical,
}

/// The credits used over a series of usage records.
pub open spec fn total_usage(records: Seq<UsageRecord>) -> nat
    decreases records.len(),
{
    if records.len() == 0 {
        0
    } else {
        total_usage(records.drop_last()) + records.last().usage_amount as nat
    }
}

/// The minutes covered by a series of usage records.
pub open spec fn total_minutes(records: Seq<UsageRecord>) -> nat
    decreases records.len(),
{
    if records.len() == 0 {
        0
    } else {
        total_minutes(records.drop_last()) + records.last().duration_minutes as nat
    }
}

/// Credits per `scale` minutes over a series: the credits used, times
/// `scale`, over the minutes covered; zero where nothing was recorded or no
/// time is covered.
pub open spec fn usage_rate(records: Seq<UsageRecord>, scale: nat) -> Ratio {
    if records.len() == 0 || total_minutes(records) == 0 {
        Ratio { num: 0, den: 1 }
    } else {
        Ratio { num: (scale * total_usage(records)) as u128, den: total_minutes(records) as u128 }
    }
}

/// The mean credits per usage record; zero where there is none.
pub open spec fn average_usage(records: Seq<UsageRecord>) -> Ratio {
    if records.len() == 0 {
        Ratio { num: 0, den: 1 }
    } else {
        Ratio { num: total_usage(records) as u128, den: records.len() as u128 }
    }
}

/// Neither total of a series exceeds what its length allows.
pub proof fn lemma_totals_bounded(records: Seq<UsageRecord>)
    ensures
        total_usage(records) <= records.len() * 0xffff_ffff,
        total_minutes(records) <= records.len() * 0xffff_ffff,
    decreases records.len(),
{
    if records.len() > 0 {
        lemma_totals_bounded(records.drop_last());
    }
}

/// The credits used and the minutes covered.
pub fn usage_totals(records: &[UsageRecord]) -> (totals: (u128, u128))
    ensures
        totals.0 == total_usage(records@),
        totals.1 == total_minutes(records@),
{
    let mut used: u128 = 0;
    let mut minutes: u128 = 0;
    let mut i: usize = 0;
    while i < records.len()
        invariant
            i <= records.len(),
            used == total_usage(records@.subrange(0, i as int)),
            minutes == total_minutes(records@.subrange(0, i as int)),
            used <= i * 0xffff_ffff,
            minutes <= i * 0xffff_ffff,
        decreases records.len() - i,
    {
        proof {
            assert(records@.subrange(0, i + 1).drop_last() =~= records@.subrange(0, i as int));
        }
        used = used + records[i].usage_amount as u128;
        minutes = minutes + records[i].duration_minutes as u128;
        i = i + 1;
    }
    proof {
        assert(records@.subrange(0, i as int) =~= records@);
    }
    (used, minutes)
}

/// The most credits, and the most minutes, that a series within capacity
/// can total: `MAX_RECORDS` records of `u32::MAX` each.
pub const MAX_TOTAL: u128 = 0x7fff_fffe_8000_0001;

/// The rate per hour and the rate per day are the rate per minute scaled.
/// Requires a series within the store's capacity.
pub fn calculate_usage_rates(usage_history: &[UsageRecord]) -> (rates: (Ratio, Ratio))
    requires
        usage_history.len() <= MAX_RECORDS,
    ensures
        rates.0 == usage_rate(usage_history@, 60),
        rates.1 == usage_rate(usage_history@, 1440),
        rates.0.wf() && rates.1.wf(),
        rates.0.den <= MAX_TOTAL && rates.0.num <= 60 * MAX_TOTAL,
        rates.1.den <= MAX_TOTAL && rates.1.num <= 1440 * MAX_TOTAL,
        usage_history@.len() == 0 ==> rates.0.is_zero() && rates.1.is_zero(),
{
    proof {
        lemma_totals_bounded(usage_history@);
    }
    if usage_history.len() == 0 {
        return (Ratio::zero(), Ratio::zero());
    }
    let (used, minutes) = usage_totals(usage_history);
    if minutes == 0 {
        return (Ratio::zero(), Ratio::zero());
    }
    (Ratio { num: 60 * used, den: minutes }, Ratio { num: 1440 * used, den: minutes })
}

/// The hours that `balance` lasts at `rate` credits per hour: defined where
/// there is a balance and the rate is positive.
pub open spec fn hours_remaining(balance: Option<u32>, rate: Ratio) -> Option<Ratio> {
    match balance {
        Some(b) => if rate.num > 0 {
            Some(Ratio { num: (b * rate.den) as u128, den: rate.num })
        } else {
            None
        },
        None => None,
    }
}

/// The same time in days: the hours over 24.
pub open spec fn days_remaining(balance: Option<u32>, rate: Ratio) -> Option<Ratio> {
    match balance {
        Some(b) => if rate.num > 0 {
            Some(Ratio { num: (b * rate.den) as u128, den: (24 * rate.num) as u128 })
        } else {
            None
        },
        None => None,
    }
}

/// The remaining time in hours and in days. Requires a rate of the size that
/// `calculate_usage_rates` gives.
pub fn calculate_time_remaining(current_balance: Option<u32>, usage_rate_per_hour: Ratio) -> (times:
    (Option<Ratio>, Option<Ratio>))
    requires
        usage_rate_per_hour.wf(),
        usage_rate_per_hour.den <= MAX_TOTAL,
        usage_rate_per_hour.num <= 60 * MAX_TOTAL,
    ensures
        times.0 == hours_remaining(current_balance, usage_rate_per_hour),
        times.1 == days_remaining(current_balance, usage_rate_per_hour),
        times.0 matches Some(h) ==> h.wf() && h.num <= 0xffff_ffff * MAX_TOTAL && h.den <= 60
            * MAX_TOTAL,
        times.1 matches Some(d) ==> d.wf(),
{
    match current_balance {
        Some(balance) => {
            if usage_rate_per_hour.num > 0 {
                let den = usage_rate_per_hour.den;
                assert(balance * den <= 0xffff_ffff * 0x7fff_fffe_8000_0001) by (nonlinear_arith)
                    requires
                        balance <= 0xffff_ffff,
                        den <= 0x7fff_fffe_8000_0001,
                ;
                let lasting: u128 = balance as u128 * den;
                (
                    Some(Ratio { num: lasting, den: usage_rate_per_hour.num }),
                    Some(Ratio { num: lasting, den: 24 * usage_rate_per_hour.num }),
                )
            } else {
                (None, None)
            }
        },
        None => (None, None),
    }
}

/// The mean credits per usage record.
pub fn calculate_average_session_usage(usage_history: &[UsageRecord]) -> (average: Ratio)
    ensures
        average == average_usage(usage_history@),
        average.wf(),
        usage_history@.len() <= MAX_RECORDS ==> average.num <= MAX_TOTAL && average.den
            <= MAX_RECORDS,
{
    proof {
        lemma_totals_bounded(usage_history@);
    }
    if usage_history.len() == 0 {
        return Ratio::zero();
    }
    let (used, _) = usage_totals(usage_history);
    Ratio { num: used, den: usage_history.len() as u128 }
}

/// `0 + 1 + .. + (n - 1)`.
pub open spec fn index_sum(n: nat) -> nat
    decreases n,
{
    if n == 0 {
        0
    } else {
        index_sum((n - 1) as nat) + (n - 1) as nat
    }
}

/// `0² + 1² + .. + (n - 1)²`.
pub open spec fn index_square_sum(n: nat) -> nat
    decreases n,
{
    if n == 0 {
        0
    } else {
        index_square_sum((n - 1) as nat) + ((n - 1) * (n - 1)) as nat
    }
}

/// The sum of the amounts of a series of snapshots.
pub open spec fn amount_sum(history: Seq<BalanceRecord>) -> nat
    decreases history.len(),
{
    if history.len() == 0 {
        0
    } else {
        amount_sum(history.drop_last()) + history.last().amount as nat
    }
}

/// The sum over a series of each amount times its index.
pub open spec fn weighted_sum(history: Seq<BalanceRecord>) -> nat
    decreases history.len(),
{
    if history.len() == 0 {
        0
    } else {
        weighted_sum(history.drop_last()) + ((history.len() - 1) * history.last().amount) as nat
    }
}

/// The numerator of the least-squares slope of amount against index.
pub open spec fn slope_numerator(history: Seq<BalanceRecord>) -> int {
    history.len() * weighted_sum(history) - index_sum(history.len()) * amount_sum(history)
}

/// The denominator of that slope, which depends on the length alone. It is
/// positive from two snapshots on.
pub open spec fn slope_denominator(n: nat) -> int {
    n * index_square_sum(n) - index_sum(n) * index_sum(n)
}

/// The trend of a series: from three snapshots on, by comparing the slope
/// with `-1` and `1`; the slope is the numerator over the denominator, and
/// the denominator is positive.
pub open spec fn trend_of(history: Seq<BalanceRecord>) -> UsageTrend {
    if history.len() < 3 {
        UsageTrend::Insufficient
    } else if slope_numerator(history) < -slope_denominator(history.len()) {
        UsageTrend::Increasing
    } else if slope_numerator(history) > slope_denominator(history.len()) {
        UsageTrend::Decreasing
    } else {
        UsageTrend::Stable
    }
}

/// Classifies the trend of a series of snapshots. Requires a series within
/// the store's capacity.
pub fn calculate_trend(balance_history: &[BalanceRecord]) -> (trend: UsageTrend)
    requires
        balance_history.len() <= MAX_RECORDS,
    ensures
        trend == trend_of(balance_history@),
{
    let n = balance_history.len();
    if n < 3 {
        return UsageTrend::Insufficient;
    }
    let mut sum_x: u128 = 0;
    let mut sum_x2: u128 = 0;
    let mut sum_y: u128 = 0;
    let mut sum_xy: u128 = 0;
    let mut i: usize = 0;
    while i < n
        invariant
            i <= n,
            n == balance_history.len(),
            n <= MAX_RECORDS,
            sum_x == index_sum(i as nat),
            sum_x2 == index_square_sum(i as nat),
            sum_y == amount_sum(balance_history@.subrange(0, i as int)),
            sum_xy == weighted_sum(balance_history@.subrange(0, i as int)),
            sum_x <= i * 0x7fff_ffff,
            sum_x2 <= i * 0x3fff_ffff_0000_0001,
            sum_y <= i * 0xffff_ffff,
            sum_xy <= i * 0x7fff_fffe_8000_0001,
        decreases n - i,
    {
        let x: u128 = i as u128;
        let y: u128 = balance_history[i].amount as u128;
        proof {
            assert(balance_history@.subrange(0, i + 1).drop_last() =~= balance_history@.subrange(
                0,
                i as int,
            ));
            assert(x * x <= 0x3fff_ffff_0000_0001) by (nonlinear_arith)
                requires
                    x <= 0x7fff_ffff,
            ;
            assert(x * y <= 0x7fff_fffe_8000_0001) by (nonlinear_arith)
                requires
                    x <= 0x7fff_ffff,
                    y <= 0xffff_ffff,
            ;
        }
        sum_x = sum_x + x;
        sum_x2 = sum_x2 + x * x;
        sum_y = sum_y + y;
        sum_xy = sum_xy + x * y;
        i = i + 1;
    }
    let count: u128 = n as u128;
    proof {
        assert(balance_history@.subrange(0, n as int) =~= balance_history@);
        assert(count * sum_xy <= 0x7fff_ffff * 0x3fff_fffe_c000_0001_ffff_ffff) by (nonlinear_arith)
            requires
                count <= 0x7fff_ffff,
                sum_xy <= 0x3fff_fffe_c000_0001_ffff_ffff,
        ;
        assert(sum_x * sum_y <= 0x3fff_ffff_0000_0001 * 0x7fff_fffe_8000_0001) by (nonlinear_arith)
            requires
                sum_x <= 0x3fff_ffff_0000_0001,
                sum_y <= 0x7fff_fffe_8000_0001,
        ;
        assert(count * sum_x2 <= 0x7fff_ffff * 0x1fff_ffff_4000_0001_7fff_ffff) by (nonlinear_arith)
            requires
                count <= 0x7fff_ffff,
                sum_x2 <= 0x1fff_ffff_4000_0001_7fff_ffff,
        ;
        assert(sum_x * sum_x <= 0x3fff_ffff_0000_0001 * 0x3fff_ffff_0000_0001) by (nonlinear_arith)
            requires
                sum_x <= 0x3fff_ffff_0000_0001,
        ;
    }
    let numerator: i128 = (count * sum_xy) as i128 - (sum_x * sum_y) as i128;
    let denominator: i128 = (count * sum_x2) as i128 - (sum_x * sum_x) as i128;
    if numerator < -denominator {
        UsageTrend::Increasing
    } else if numerator > denominator {
        UsageTrend::Decreasing
    } else {
        UsageTrend::Stable
    }
}

/// The closed forms of the two sums over indices.
pub proof fn lemma_index_sums(n: nat)
    ensures
        2 * index_sum(n) == n * (n - 1),
        6 * index_square_sum(n) == (n - 1) * n * (2 * n - 1),
    decreases n,
{
    if n > 0 {
        let m = (n - 1) as nat;
        lemma_index_sums(m);
        assert(m * (m - 1) + 2 * m == n * (n - 1)) by (nonlinear_arith)
            requires
                m == n - 1,
        ;
        assert((m - 1) * m * (2 * m - 1) + 6 * (m * m) == (n - 1) * n * (2 * n - 1))
            by (nonlinear_arith)
            requires
                m == n - 1,
        ;
    } else {
        assert(n * (n - 1) == 0 && (n - 1) * n * (2 * n - 1) == 0) by (nonlinear_arith)
            requires
                n == 0,
        ;
    }
}

/// From two snapshots on, the denominator of the slope is positive.
pub proof fn lemma_slope_denominator_positive(n: nat)
    requires
        n >= 2,
    ensures
        slope_denominator(n) > 0,
{
    lemma_index_sums(n);
    let a = index_sum(n) as int;
    let b = index_square_sum(n) as int;
    let k = n as int;
    assert(12 * (k * b - a * a) == k * k * (k - 1) * (k + 1)) by (nonlinear_arith)
        requires
            2 * a == k * (k - 1),
            6 * b == (k - 1) * k * (2 * k - 1),
    ;
    assert(k * k * (k - 1) * (k + 1) > 0) by (nonlinear_arith)
        requires
            k >= 2,
    ;
}

/// Each snapshot holds `step` more than the one before it.
pub open spec fn steady_series(history: Seq<BalanceRecord>, step: int) -> bool {
    forall|i: int|
        0 < i < history.len() ==> (#[trigger] history[i]).amount - history[i - 1].amount == step
}

/// In a steady series the amount at an index is the first amount plus the
/// index times the step.
proof fn lemma_steady_amount(history: Seq<BalanceRecord>, step: int, i: int)
    requires
        steady_series(history, step),
        0 <= i < history.len(),
    ensures
        history[i].amount == history[0].amount + step * i,
    decreases i,
{
    if i > 0 {
        lemma_steady_amount(history, step, i - 1);
        assert(history[i].amount - history[i - 1].amount == step);
        assert(step * (i - 1) + step == step * i) by (nonlinear_arith);
    } else {
        assert(step * i == 0) by (nonlinear_arith)
            requires
                i == 0,
        ;
    }
}

/// The two sums over a steady series, in terms of the sums over indices.
proof fn lemma_steady_sums(history: Seq<BalanceRecord>, step: int)
    requires
        steady_series(history, step),
        history.len() >= 1,
    ensures
        amount_sum(history) == history.len() * history[0].amount + step * index_sum(
            history.len(),
        ),
        weighted_sum(history) == history[0].amount * index_sum(history.len()) + step
            * index_square_sum(history.len()),
    decreases history.len(),
{
    let n = history.len() as int;
    let first = history[0].amount as int;
    let last = history.last().amount as int;
    lemma_steady_amount(history, step, n - 1);
    if n == 1 {
        assert(amount_sum(history.drop_last()) == 0);
        assert(weighted_sum(history.drop_last()) == 0);
        assert(index_sum(1) == 0) by {
            assert(index_sum(0) == 0);
        }
        assert(index_square_sum(1) == 0) by {
            assert(index_square_sum(0) == 0);
        }
        assert((n - 1) * last == 0 && first * 0 == 0 && step * 0 == 0) by (nonlinear_arith)
            requires
                n == 1,
        ;
    } else {
        let front = history.drop_last();
        assert(steady_series(front, step)) by {
            assert forall|i: int| 0 < i < front.len() implies (#[trigger] front[i]).amount
                - front[i - 1].amount == step by {
                assert(history[i].amount - history[i - 1].amount == step);
            }
        }
        lemma_steady_sums(front, step);
        let sx = index_sum((n - 1) as nat) as int;
        let sx2 = index_square_sum((n - 1) as nat) as int;
        assert(index_sum(n as nat) == sx + (n - 1));
        assert(index_square_sum(n as nat) == sx2 + (n - 1) * (n - 1));
        assert((n - 1) * first + step * sx + (first + step * (n - 1)) == n * first + step * (sx + (n
            - 1))) by (nonlinear_arith);
        assert(first * sx + step * sx2 + (n - 1) * (first + step * (n - 1)) == first * (sx + (n
            - 1)) + step * (sx2 + (n - 1) * (n - 1))) by (nonlinear_arith);
    }
}

/// A series of fewer than three snapshots has no trend. A steady series of
/// three or more is `Decreasing` where the step is above `1`, `Increasing`
/// where it is below `-1`, and `Stable` otherwise: its slope is its step.
pub proof fn lemma_trend_of_steady_series(history: Seq<BalanceRecord>, step: int)
    requires
        steady_series(history, step),
    ensures
        history.len() < 3 ==> trend_of(history) == UsageTrend::Insufficient,
        history.len() >= 3 ==> slope_numerator(history) == step * slope_denominator(history.len()),
        history.len() >= 3 && step > 1 ==> trend_of(history) == UsageTrend::Decreasing,
        history.len() >= 3 && step < -1 ==> trend_of(history) == UsageTrend::Increasing,
        history.len() >= 3 && -1 <= step <= 1 ==> trend_of(history) == UsageTrend::Stable,
{
    if history.len() >= 3 {
        let n = history.len() as int;
        let first = history[0].amount as int;
        let sx = index_sum(history.len()) as int;
        let sx2 = index_square_sum(history.len()) as int;
        lemma_steady_sums(history, step);
        lemma_slope_denominator_positive(history.len());
        let den = slope_denominator(history.len());
        let num = slope_numerator(history);
        assert(n * (first * sx + step * sx2) - sx * (n * first + step * sx) == step * (n * sx2 - sx
            * sx)) by (nonlinear_arith);
        assert(num == step * den);
        assert(step > 1 ==> step * den > den) by (nonlinear_arith)
            requires
                den > 0,
        ;
        assert(step < -1 ==> step * den < -den) by (nonlinear_arith)
            requires
                den > 0,
        ;
        assert(-1 <= step <= 1 ==> -den <= step * den <= den) by (nonlinear_arith)
            requires
                den > 0,
        ;
    }
}

/// The hour of the day, in UTC, of an instant given in milliseconds since
/// the Unix epoch.
pub open spec fn hour_of_day(timestamp: i64) -> int {
    (timestamp / 3_600_000) % 24
}

/// The credits that a series used in hour `hour` of the day.
pub open spec fn hour_usage(records: Seq<UsageRecord>, hour: int) -> nat
    decreases records.len(),
{
    if records.len() == 0 {
        0
    } else {
        hour_usage(records.drop_last(), hour) + if hour_of_day(records.last().timestamp) == hour {
            records.last().usage_amount as nat
        } else {
            0
        }
    }
}

/// `hour` is the first hour of the day in which usage is greatest.
pub open spec fn is_peak_hour(records: Seq<UsageRecord>, hour: int) -> bool {
    &&& 0 <= hour < 24
    &&& forall|g: int| 0 <= g < 24 ==> hour_usage(records, g) <= hour_usage(records, hour)
    &&& forall|g: int| 0 <= g < hour ==> hour_usage(records, g) < hour_usage(records, hour)
}

/// The hour of the day of an instant.
pub fn hour_of(timestamp: i64) -> (hour: u8)
    ensures
        hour == hour_of_day(timestamp),
        hour < 24,
{
    // A whole number of days that lifts every instant above zero.
    let lifted: u128 = (timestamp as i128 + 9_223_372_036_915_200_000) as u128;
    let hours: u128 = lifted / 3_600_000;
    proof {
        let days_lifted: int = 106_751_991_168;
        let t = timestamp as int;
        assert(9_223_372_036_915_200_000 == (24 * days_lifted) * 3_600_000);
        lemma_hoist_over_denominator(t, 24 * days_lifted, 3_600_000);
        assert(hours == t / 3_600_000 + 24 * days_lifted);
        lemma_mod_multiples_vanish(days_lifted, t / 3_600_000, 24);
    }
    (hours % 24) as u8
}

/// The first hour of the day in which usage is greatest; none for an empty
/// series.
pub fn calculate_peak_usage_hour(usage_history: &[UsageRecord]) -> (peak: Option<u8>)
    ensures
        peak is None <==> usage_history@.len() == 0,
        peak matches Some(hour) ==> is_peak_hour(usage_history@, hour as int),
{
    if usage_history.len() == 0 {
        return None;
    }
    let mut hourly: Vec<u128> = Vec::new();
    while hourly.len() < 24
        invariant
            hourly.len() <= 24,
            forall|g: int| 0 <= g < hourly.len() ==> hourly[g] == 0,
        decreases 24 - hourly.len(),
    {
        hourly.push(0);
    }
    let mut i: usize = 0;
    while i < usage_history.len()
        invariant
            i <= usage_history.len(),
            hourly.len() == 24,
            forall|g: int|
                0 <= g < 24 ==> hourly[g] == hour_usage(usage_history@.subrange(0, i as int), g),
            forall|g: int| 0 <= g < 24 ==> hourly[g] <= i * 0xffff_ffff,
        decreases usage_history.len() - i,
    {
        proof {
            assert(usage_history@.subrange(0, i + 1).drop_last() =~= usage_history@.subrange(
                0,
                i as int,
            ));
        }
        let hour = hour_of(usage_history[i].timestamp) as usize;
        let sum = hourly[hour] + usage_history[i].usage_amount as u128;
        hourly.set(hour, sum);
        i = i + 1;
    }
    proof {
        assert(usage_history@.subrange(0, i as int) =~= usage_history@);
    }
    let mut best: usize = 0;
    let mut g: usize = 1;
    while g < 24
        invariant
            1 <= g <= 24,
            best < g,
            hourly.len() == 24,
            forall|k: int| 0 <= k < 24 ==> hourly[k] == hour_usage(usage_history@, k),
            forall|k: int| 0 <= k < g ==> hourly[k] <= hourly[best as int],
            forall|k: int| 0 <= k < best ==> hourly[k] < hourly[best as int],
        decreases 24 - g,
    {
        if hourly[g] > hourly[best] {
            best = g;
        }
        g = g + 1;
    }
    Some(best as u8)
}

/// In an hour in which a series holds no record, it used nothing; where every
/// record falls in one hour, that hour holds the whole usage.
proof fn lemma_usage_in_one_hour(records: Seq<UsageRecord>, hour: int, other: int)
    requires
        forall|i: int| 0 <= i < records.len() ==> hour_of_day(records[i].timestamp) == hour,
        other != hour,
    ensures
        hour_usage(records, other) == 0,
        hour_usage(records, hour) == total_usage(records),
    decreases records.len(),
{
    if records.len() > 0 {
        assert(hour_of_day(records[records.len() - 1].timestamp) == hour);
        lemma_usage_in_one_hour(records.drop_last(), hour, other);
    }
}

/// Where every record of a series of valid records falls in one hour of the
/// day, that hour is the peak.
pub proof fn lemma_peak_of_one_hour(records: Seq<UsageRecord>, hour: int)
    requires
        records.len() > 0,
        0 <= hour < 24,
        forall|i: int| 0 <= i < records.len() ==> (#[trigger] records[i]).valid(),
        forall|i: int| 0 <= i < records.len() ==> hour_of_day(records[i].timestamp) == hour,
    ensures
        is_peak_hour(records, hour),
        forall|g: int| is_peak_hour(records, g) ==> g == hour,
{
    assert(total_usage(records) > 0) by {
        assert(records[records.len() - 1].valid());
    }
    assert forall|g: int| 0 <= g < 24 && g != hour implies hour_usage(records, g) == 0
        && hour_usage(records, hour) == total_usage(records) by {
        lemma_usage_in_one_hour(records, hour, g);
    }
    lemma_usage_in_one_hour(records, hour, hour + 1);
}

/// A point of the balance chart.
#[derive(Clone, Copy, Debug, PartialEq, Eq, Structural)]
pub struct BalanceDataPoint {
    pub timestamp: i64,
    pub balance: u32,
}

/// A point of the usage chart.
#[derive(Clone, Copy, Debug, PartialEq, Eq, Structural)]
pub struct UsageDataPoint {
    pub timestamp: i64,
    pub usage_amount: u32,
    pub rate_per_hour: Ratio,
}

/// The chart point of a snapshot.
pub open spec fn balance_point(record: BalanceRecord) -> BalanceDataPoint {
    BalanceDataPoint { timestamp: record.timestamp, balance: record.amount }
}

/// The chart point of a usage record: its credits per hour, zero where it
/// covers no time.
pub open spec fn usage_point(record: UsageRecord) -> UsageDataPoint {
    UsageDataPoint {
        timestamp: record.timestamp,
        usage_amount: record.usage_amount,
        rate_per_hour: if record.duration_minutes > 0 {
            Ratio { num: (record.usage_amount * 60) as u128, den: record.duration_minutes as u128 }
        } else {
            Ratio { num: 0, den: 1 }
        },
    }
}

/// What is known of usage over a window of the store.
#[derive(Debug)]
pub struct UsageAnalytics {
    pub current_balance: Option<u32>,
    pub usage_rate_per_hour: Ratio,
    pub usage_rate_per_day: Ratio,
    pub estimated_days_remaining: Option<Ratio>,
    pub estimated_hours_remaining: Option<Ratio>,
    pub total_usage_period: u32,
    pub average_session_usage: Ratio,
    pub peak_usage_hour: Option<u8>,
    pub trend: UsageTrend,
    pub balance_history: Vec<BalanceDataPoint>,
    pub usage_history: Vec<UsageDataPoint>,
}

impl UsageAnalytics {
    /// Every fraction has a positive denominator and is of a size that a
    /// window of the store gives.
    pub open spec fn wf(&self) -> bool {
        &&& self.usage_rate_per_hour.wf()
        &&& self.usage_rate_per_hour.den <= MAX_TOTAL
        &&& self.usage_rate_per_hour.num <= 60 * MAX_TOTAL
        &&& self.usage_rate_per_day.wf()
        &&& self.average_session_usage.wf()
        &&& self.average_session_usage.num <= MAX_TOTAL
        &&& self.average_session_usage.den <= MAX_RECORDS
        &&& self.estimated_hours_remaining matches Some(h) ==> h.wf() && h.num <= 0xffff_ffff
            * MAX_TOTAL && h.den <= 60 * MAX_TOTAL
        &&& self.estimated_days_remaining matches Some(d) ==> d.wf()
    }

    /// These are the analytics of the given window over `hours` hours.
    pub open spec fn describes(
        &self,
        balances: Seq<BalanceRecord>,
        usages: Seq<UsageRecord>,
        hours: u32,
    ) -> bool {
        &&& self.current_balance == if balances.len() > 0 {
            Some(balances.last().amount)
        } else {
            None
        }
        &&& self.usage_rate_per_hour == usage_rate(usages, 60)
        &&& self.usage_rate_per_day == usage_rate(usages, 1440)
        &&& self.estimated_hours_remaining == hours_remaining(
            self.current_balance,
            self.usage_rate_per_hour,
        )
        &&& self.estimated_days_remaining == days_remaining(
            self.current_balance,
            self.usage_rate_per_hour,
        )
        &&& self.total_usage_period == hours
        &&& self.average_session_usage == average_usage(usages)
        &&& self.peak_usage_hour is None <==> usages.len() == 0
        &&& self.peak_usage_hour matches Some(hour) ==> is_peak_hour(usages, hour as int)
        &&& self.trend == trend_of(balances)
        &&& self.balance_history@ == balances.map_values(|r: BalanceRecord| balance_point(r))
        &&& self.usage_history@ == usages.map_values(|r: UsageRecord| usage_point(r))
    }
}

/// The analytics of a window: `balance_history` and `usage_history` are the
/// snapshots and usage records of the last `hours` hours, earliest first.
/// Requires both within the store's capacity.
pub fn summarize(
    balance_history: &[BalanceRecord],
    usage_history: &[UsageRecord],
    hours: u32,
) -> (analytics: UsageAnalytics)
    requires
        balance_history.len() <= MAX_RECORDS,
        usage_history.len() <= MAX_RECORDS,
    ensures
        analytics.describes(balance_history@, usage_history@, hours),
        analytics.wf(),
{
    let current_balance = if balance_history.len() > 0 {
        Some(balance_history[balance_history.len() - 1].amount)
    } else {
        None
    };
    let (usage_rate_per_hour, usage_rate_per_day) = calculate_usage_rates(usage_history);
    let (estimated_hours_remaining, estimated_days_remaining) = calculate_time_remaining(
        current_balance,
        usage_rate_per_hour,
    );
    let trend = calculate_trend(balance_history);
    let average_session_usage = calculate_average_session_usage(usage_history);
    let peak_usage_hour = calculate_peak_usage_hour(usage_history);

    let mut balance_points: Vec<BalanceDataPoint> = Vec::new();
    let mut i: usize = 0;
    while i < balance_history.len()
        invariant
            i <= balance_history.len(),
            balance_points@ == balance_history@.subrange(0, i as int).map_values(
                |r: BalanceRecord| balance_point(r),
            ),
        decreases balance_history.len() - i,
    {
        balance_points.push(
            BalanceDataPoint {
                timestamp: balance_history[i].timestamp,
                balance: balance_history[i].amount,
            },
        );
        i = i + 1;
        proof {
            assert(balance_points@ =~= balance_history@.subrange(0, i as int).map_values(
                |r: BalanceRecord| balance_point(r),
            ));
        }
    }
    let mut usage_points: Vec<UsageDataPoint> = Vec::new();
    let mut j: usize = 0;
    while j < usage_history.len()
        invariant
            j <= usage_history.len(),
            usage_points@ == usage_history@.subrange(0, j as int).map_values(
                |r: UsageRecord| usage_point(r),
            ),
        decreases usage_history.len() - j,
    {
        let record = usage_history[j];
        let rate_per_hour = if record.duration_minutes > 0 {
            Ratio { num: record.usage_amount as u128 * 60, den: record.duration_minutes as u128 }
        } else {
            Ratio::zero()
        };
        usage_points.push(
            UsageDataPoint {
                timestamp: record.timestamp,
                usage_amount: record.usage_amount,
                rate_per_hour,
            },
        );
        j = j + 1;
        proof {
            assert(usage_points@ =~= usage_history@.subrange(0, j as int).map_values(
                |r: UsageRecord| usage_point(r),
            ));
        }
    }
    proof {
        assert(balance_history@.subrange(0, i as int) =~= balance_history@);
        assert(usage_history@.subrange(0, j as int) =~= usage_history@);
    }
    UsageAnalytics {
        current_balance,
        usage_rate_per_hour,
        usage_rate_per_day,
        estimated_days_remaining,
        estimated_hours_remaining,
        total_usage_period: hours,
        average_session_usage,
        peak_usage_hour,
        trend,
        balance_history: balance_points,
        usage_history: usage_points,
    }
}

/// The usage to expect over `hours_ahead` hours at `rate` credits per hour.
pub open spec fn predicted_usage(rate: Ratio, hours_ahead: u32) -> Ratio {
    Ratio { num: (rate.num * hours_ahead) as u128, den: rate.den }
}

/// How grave an alert is and what it says.
#[derive(Debug)]
pub struct AlertInfo {
    pub level: AlertLevel,
    pub message: String,
    pub estimated_time_remaining: Option<Ratio>,
}

/// An alert with its message as a sequence of characters.
pub struct AlertText {
    pub level: AlertLevel,
    pub message: Seq<char>,
    pub estimated_time_remaining: Option<Ratio>,
}

impl View for AlertInfo {
    type V = AlertText;

    open spec fn view(&self) -> AlertText {
        AlertText {
            level: self.level,
            message: self.message@,
            estimated_time_remaining: self.estimated_time_remaining,
        }
    }
}

/// The alert on the balance itself: critical at or below `critical`,
/// otherwise a warning at or below `low`.
pub open spec fn threshold_alerts(
    balance: u32,
    low: u32,
    critical: u32,
    time: Option<Ratio>,
) -> Seq<AlertText> {
    if balance <= critical {
        seq![
            AlertText {
                level: AlertLevel::Critical,
                message: "Critical: Only "@ + decimal_digits(balance as nat)
                    + " credits remaining!"@,
                estimated_time_remaining: time,
            },
        ]
    } else if balance <= low {
        seq![
            AlertText {
                level: AlertLevel::Warning,
                message: "Warning: "@ + decimal_digits(balance as nat) + " credits remaining"@,
                estimated_time_remaining: time,
            },
        ]
    } else {
        Seq::empty()
    }
}

/// The alert on the time that is left: critical at two hours or less,
/// otherwise a warning at twenty-four hours or less.
pub open spec fn depletion_alerts(time: Option<Ratio>) -> Seq<AlertText> {
    match time {
        Some(hours) => if hours.at_most(2) {
            seq![
                AlertText {
                    level: AlertLevel::Critical,
                    message: "Credits will be depleted in "@ + tenths_digits(hours)
                        + " hours at current usage rate"@,
                    estimated_time_remaining: time,
                },
            ]
        } else if hours.at_most(24) {
            seq![
                AlertText {
                    level: AlertLevel::Warning,
                    message: "Credits will be depleted in "@ + tenths_digits(hours)
                        + " hours at current usage rate"@,
                    estimated_time_remaining: time,
                },
            ]
        } else {
            Seq::empty()
        },
        None => Seq::empty(),
    }
}

/// The alerts that a set of analytics calls for: none without a balance,
/// else the one on the balance followed by the one on the time left.
pub open spec fn alerts_for(analytics: UsageAnalytics, low: u32, critical: u32) -> Seq<AlertText> {
    match analytics.current_balance {
        Some(balance) => threshold_alerts(
            balance,
            low,
            critical,
            analytics.estimated_hours_remaining,
        ) + depletion_alerts(analytics.estimated_hours_remaining),
        None => Seq::empty(),
    }
}

/// The alerts that `analytics` calls for under the two thresholds.
pub fn balance_alerts(
    analytics: &UsageAnalytics,
    low_threshold: u32,
    critical_threshold: u32,
) -> (alerts: Vec<AlertInfo>)
    requires
        analytics.wf(),
    ensures
        alerts@.map_values(|a: AlertInfo| a@) == alerts_for(
            *analytics,
            low_threshold,
            critical_threshold,
        ),
{
    let mut alerts: Vec<AlertInfo> = Vec::new();
    let time = analytics.estimated_hours_remaining;
    if let Some(balance) = analytics.current_balance {
        if balance <= critical_threshold {
            let mut message = String::from_str("Critical: Only ");
            message.append(decimal_text(balance as u128).as_str());
            message.append(" credits remaining!");
            alerts.push(
                AlertInfo { level: AlertLevel::Critical, message, estimated_time_remaining: time },
            );
        } else if balance <= low_threshold {
            let mut message = String::from_str("Warning: ");
            message.append(decimal_text(balance as u128).as_str());
            message.append(" credits remaining");
            alerts.push(
                AlertInfo { level: AlertLevel::Warning, message, estimated_time_remaining: time },
            );
        }
        let ghost first = alerts@.map_values(|a: AlertInfo| a@);
        proof {
            assert(first =~= threshold_alerts(balance, low_threshold, critical_threshold, time));
        }
        if let Some(hours) = time {
            if hours.num <= 24 * hours.den {
                let mut message = String::from_str("Credits will be depleted in ");
                message.append(tenths_text(hours).as_str());
                message.append(" hours at current usage rate");
                let level = if hours.num <= 2 * hours.den {
                    AlertLevel::Critical
                } else {
                    AlertLevel::Warning
                };
                alerts.push(AlertInfo { level, message, estimated_time_remaining: time });
            }
        }
        proof {
            assert(alerts@.map_values(|a: AlertInfo| a@) =~= first + depletion_alerts(time));
        }
    }
    proof {
        assert(alerts@.map_values(|a: AlertInfo| a@) =~= alerts_for(
            *analytics,
            low_threshold,
            critical_threshold,
        ));
    }
    alerts
}

/// Computes analytics and alerts from the store. Predictions and alerts go
/// by the window of the engine.
pub struct AnalyticsEngine {
    window_hours: u32,
}

impl AnalyticsEngine {
    /// The hours that predictions and alerts look back.
    pub closed spec fn window(&self) -> u32 {
        self.window_hours
    }

    /// An engine with a window of twenty-four hours.
    pub fn new() -> (engine: Self)
        ensures
            engine.window() == 24,
    {
        AnalyticsEngine { window_hours: 24 }
    }

    /// The analytics of the window of `hours` hours that ends at `now`.
    pub fn usage_analytics_at(&self, database: &Database, hours: u32, now: i64) -> (analytics:
        UsageAnalytics)
        requires
            database.wf(),
        ensures
            analytics.describes(
                database.balances().filter(balance_since(window_start(now, hours))),
                database.usages().filter(usage_since(window_start(now, hours))),
                hours,
            ),
            analytics.wf(),
    {
        proof {
            database.balances().lemma_filter_len(balance_since(window_start(now, hours)));
            database.usages().lemma_filter_len(usage_since(window_start(now, hours)));
        }
        let balance_history = database.balance_history_at(hours, now);
        let usage_history = database.usage_history_at(hours, now);
        summarize(balance_history.as_slice(), usage_history.as_slice(), hours)
    }

    /// The analytics of the last `hours` hours: those of a window of that
    /// length ending at the clock's time.
    pub fn calculate_usage_analytics(&self, database: &Database, hours: u32) -> (analytics:
        UsageAnalytics)
        requires
            database.wf(),
        ensures
            analytics.wf(),
            exists|now: i64|
                analytics.describes(
                    database.balances().filter(balance_since(window_start(now, hours))),
                    database.usages().filter(usage_since(window_start(now, hours))),
                    hours,
                ),
    {
        let now = now_millis();
        self.usage_analytics_at(database, hours, now)
    }

    /// The analytics of the engine's window that ends at `now`.
    pub fn window_analytics_at(&self, database: &Database, now: i64) -> (analytics: UsageAnalytics)
        requires
            database.wf(),
        ensures
            analytics.describes(
                database.balances().filter(balance_since(window_start(now, self.window()))),
                database.usages().filter(usage_since(window_start(now, self.window()))),
                self.window(),
            ),
            analytics.wf(),
    {
        self.usage_analytics_at(database, self.window_hours, now)
    }

    /// The usage to expect over `hours_ahead` hours, at the rate of the
    /// engine's window before `now`.
    pub fn usage_prediction_at(&self, database: &Database, hours_ahead: u32, now: i64) -> (usage:
        Ratio)
        requires
            database.wf(),
        ensures
            usage == predicted_usage(
                usage_rate(
                    database.usages().filter(usage_since(window_start(now, self.window()))),
                    60,
                ),
                hours_ahead,
            ),
            usage.wf(),
    {
        let analytics = self.usage_analytics_at(database, self.window_hours, now);
        let rate = analytics.usage_rate_per_hour;
        assert(rate.num * hours_ahead <= 60 * 0x7fff_fffe_8000_0001 * 0xffff_ffff)
            by (nonlinear_arith)
            requires
                rate.num <= 60 * 0x7fff_fffe_8000_0001,
                hours_ahead <= 0xffff_ffff,
        ;
        Ratio { num: rate.num * hours_ahead as u128, den: rate.den }
    }

    /// The usage to expect over `hours_ahead` hours, at the rate of the
    /// engine's window before the clock's time.
    pub fn get_usage_prediction(&self, database: &Database, hours_ahead: u32) -> (usage: Ratio)
        requires
            database.wf(),
        ensures
            usage.wf(),
            exists|now: i64|
                usage == predicted_usage(
                    usage_rate(
                        database.usages().filter(usage_since(window_start(now, self.window()))),
                        60,
                    ),
                    hours_ahead,
                ),
    {
        let now = now_millis();
        self.usage_prediction_at(database, hours_ahead, now)
    }

    /// The alerts that the engine's window before `now` calls for.
    pub fn balance_alerts_at(
        &self,
        database: &Database,
        low_threshold: u32,
        critical_threshold: u32,
        now: i64,
    ) -> (alerts: Vec<AlertInfo>)
        requires
            database.wf(),
        ensures
            exists|analytics: UsageAnalytics|
                {
                    &&& analytics.describes(
                        database.balances().filter(
                            balance_since(window_start(now, self.window())),
                        ),
                        database.usages().filter(usage_since(window_start(now, self.window()))),
                        self.window(),
                    )
                    &&& alerts@.map_values(|a: AlertInfo| a@) == alerts_for(
                        analytics,
                        low_threshold,
                        critical_threshold,
                    )
                },
    {
        let analytics = self.usage_analytics_at(database, self.window_hours, now);
        balance_alerts(&analytics, low_threshold, critical_threshold)
    }

    /// The alerts that the engine's window before the clock's time calls
    /// for.
    pub fn get_balance_alerts(
        &self,
        database: &Database,
        low_threshold: u32,
        critical_threshold: u32,
    ) -> (alerts: Vec<AlertInfo>)
        requires
            database.wf(),
        ensures
            exists|now: i64, analytics: UsageAnalytics|
                {
                    &&& analytics.describes(
                        database.balances().filter(
                            balance_since(window_start(now, self.window())),
                        ),
                        database.usages().filter(usage_since(window_start(now, self.window()))),
                        self.window(),
                    )
                    &&& alerts@.map_values(|a: AlertInfo| a@) == alerts_for(
                        analytics,
                        low_threshold,
                        critical_threshold,
                    )
                },
    {
        let now = now_millis();
        self.balance_alerts_at(database, low_threshold, critical_threshold, now)
    }
}

/// Without usage records the rate is zero, whatever the scale; and no rate
/// has a zero denominator.
pub proof fn lemma_rate_without_usage(records: Seq<UsageRecord>, scale: nat)
    ensures
        records.len() == 0 ==> usage_rate(records, scale).is_zero(),
        total_usage(records) == 0 ==> usage_rate(records, scale).is_zero(),
        records.len() <= MAX_RECORDS ==> usage_rate(records, scale).wf(),
{
    lemma_totals_bounded(records);
    assert(scale * 0 == 0) by (nonlinear_arith);
}

/// The credits used per minute over a series, as a number: the credits used
/// over the minutes covered, and zero where no time is covered.
pub open spec fn rate_per_minute(records: Seq<UsageRecord>) -> real {
    if total_minutes(records) == 0 {
        0real
    } else {
        total_usage(records) as real / total_minutes(records) as real
    }
}

/// The slope of the least-squares line of amount against index, as a
/// number.
pub open spec fn slope(history: Seq<BalanceRecord>) -> real {
    slope_numerator(history) as real / slope_denominator(history.len()) as real
}

/// A multiple of a quotient is the quotient of the multiple.
proof fn lemma_scaled_quotient(c: real, u: real, m: real)
    requires
        m > 0real,
    ensures
        (c * u) / m == c * (u / m),
{
    lemma_quotient(u, m, 0real);
    lemma_quotient(c * u, m, c * (u / m));
    assert(c * (u / m) * m == c * u) by (nonlinear_arith)
        requires
            (u / m) * m == u,
    ;
}

/// The rate that `usage_rate` gives denotes `scale` times the credits used
/// per minute: sixty times for the rate per hour, and 1440 times for the
/// rate per day, which is thus twenty-four times the rate per hour.
pub proof fn lemma_rate_value(records: Seq<UsageRecord>, scale: nat)
    requires
        records.len() <= MAX_RECORDS,
        scale <= 1440,
    ensures
        usage_rate(records, scale).value() == (scale as real) * rate_per_minute(records),
        usage_rate(records, scale).value() >= 0real,
        usage_rate(records, 1440).value() == 24real * usage_rate(records, 60).value(),
{
    lemma_totals_bounded(records);
    let used = total_usage(records);
    let minutes = total_minutes(records);
    assert(scale * used <= 1440 * 0x7fff_fffe_8000_0001) by (nonlinear_arith)
        requires
            scale <= 1440,
            used <= 0x7fff_fffe_8000_0001,
    ;
    assert(60 * used <= 1440 * 0x7fff_fffe_8000_0001);
    if records.len() == 0 || minutes == 0 {
        assert(rate_per_minute(records) == 0real);
        assert((scale as real) * 0real == 0real) by (nonlinear_arith);
        assert(24real * 0real == 0real);
        lemma_quotient(0real, 1real, 0real);
    } else {
        let u = used as real;
        let m = minutes as real;
        lemma_quotient(u, m, 0real);
        lemma_scaled_quotient(scale as real, u, m);
        lemma_scaled_quotient(1440real, u, m);
        lemma_scaled_quotient(60real, u, m);
        assert((scale * used) as real == (scale as real) * u) by (nonlinear_arith)
            requires
                u == used as real,
        ;
        assert((1440 * used) as real == 1440real * u);
        assert((60 * used) as real == 60real * u);
        assert(((scale as real) * u) / m == (scale as real) * (u / m));
        assert((1440real * u) / m == 1440real * (u / m));
        assert((60real * u) / m == 60real * (u / m));
        assert(u / m >= 0real) by (nonlinear_arith)
            requires
                u >= 0real,
                m > 0real,
                (u / m) * m == u,
        ;
        assert((scale as real) * (u / m) >= 0real) by (nonlinear_arith)
            requires
                u / m >= 0real,
                scale as real >= 0real,
        ;
    }
}

/// The mean that `average_usage` gives denotes the credits used over the
/// number of records.
pub proof fn lemma_average_value(records: Seq<UsageRecord>)
    requires
        0 < records.len() <= MAX_RECORDS,
    ensures
        average_usage(records).value() == total_usage(records) as real / records.len() as real,
{
    lemma_totals_bounded(records);
}

/// The remaining time denotes the balance over the rate: in hours for a
/// rate per hour, and in days that over twenty-four.
pub proof fn lemma_remaining_time(balance: u32, rate: Ratio)
    requires
        rate.wf(),
        rate.is_positive(),
        rate.den <= MAX_TOTAL,
        rate.num <= 60 * MAX_TOTAL,
    ensures
        hours_remaining(Some(balance), rate) matches Some(hours) && hours.value() == balance as real
            / rate.value(),
        days_remaining(Some(balance), rate) matches Some(days) && days.value() == hours_remaining(
            Some(balance),
            rate,
        )->0.value() / 24real,
{
    let den = rate.den;
    assert(balance * den <= 0xffff_ffff * 0x7fff_fffe_8000_0001) by (nonlinear_arith)
        requires
            balance <= 0xffff_ffff,
            den <= 0x7fff_fffe_8000_0001,
    ;
    let b = balance as real;
    let n = rate.num as real;
    let d = rate.den as real;
    assert((balance * den) as real == b * d) by (nonlinear_arith)
        requires
            b == balance as real,
            d == den as real,
    ;
    assert((24 * rate.num) as real == 24real * n);
    lemma_quotient(n, d, 0real);
    lemma_quotient(b * d, n, b / (n / d));
    lemma_quotient(b, n / d, 0real);
    assert((b / (n / d)) * n == b * d) by (nonlinear_arith)
        requires
            (n / d) * d == n,
            (b / (n / d)) * (n / d) == b,
    ;
    lemma_quotient(b * d, 24real * n, ((b * d) / n) / 24real);
    lemma_quotient((b * d) / n, 24real, 0real);
    lemma_quotient(b * d, n, 0real);
    assert((((b * d) / n) / 24real) * (24real * n) == b * d) by (nonlinear_arith)
        requires
            (((b * d) / n) / 24real) * 24real == (b * d) / n,
            ((b * d) / n) * n == b * d,
    ;
}

/// The expected usage denotes the rate times the hours.
pub proof fn lemma_predicted_usage(rate: Ratio, hours_ahead: u32)
    requires
        rate.wf(),
        rate.num <= 60 * MAX_TOTAL,
    ensures
        predicted_usage(rate, hours_ahead).value() == rate.value() * hours_ahead as real,
{
    let num = rate.num;
    assert(num * hours_ahead <= 60 * 0x7fff_fffe_8000_0001 * 0xffff_ffff) by (nonlinear_arith)
        requires
            num <= 60 * 0x7fff_fffe_8000_0001,
            hours_ahead <= 0xffff_ffff,
    ;
    let n = rate.num as real;
    let d = rate.den as real;
    let h = hours_ahead as real;
    assert((num * hours_ahead) as real == n * h) by (nonlinear_arith)
        requires
            n == num as real,
            h == hours_ahead as real,
    ;
    lemma_quotient(n, d, 0real);
    lemma_quotient(n * h, d, (n / d) * h);
    assert((n / d) * h * d == n * h) by (nonlinear_arith)
        requires
            (n / d) * d == n,
    ;
}

/// From three snapshots on, the trend says how the slope stands to `-1` and
/// `1`: usage is `Increasing` where the balance falls by more than one a
/// snapshot, `Decreasing` where it rises by more than one, and `Stable`
/// between.
pub proof fn lemma_trend_by_slope(history: Seq<BalanceRecord>)
    requires
        history.len() >= 3,
    ensures
        trend_of(history) == UsageTrend::Increasing <==> slope(history) < -1real,
        trend_of(history) == UsageTrend::Decreasing <==> slope(history) > 1real,
        trend_of(history) == UsageTrend::Stable <==> -1real <= slope(history) <= 1real,
        trend_of(history) != UsageTrend::Insufficient,
{
    lemma_slope_denominator_positive(history.len());
    let num = slope_numerator(history);
    let den = slope_denominator(history.len());
    lemma_quotient(num as real, den as real, 1real);
    lemma_quotient(num as real, den as real, -1real);
    assert((-den) as real == -1real * den as real);
    assert(den as real == 1real * den as real);
}

/// The slope of a steady series is its step.
pub proof fn lemma_slope_of_steady_series(history: Seq<BalanceRecord>, step: int)
    requires
        steady_series(history, step),
        history.len() >= 3,
    ensures
        slope(history) == step as real,
{
    lemma_trend_of_steady_series(history, step);
    lemma_slope_denominator_positive(history.len());
    let den = slope_denominator(history.len());
    lemma_quotient(slope_numerator(history) as real, den as real, step as real);
    assert((step * den) as real == (step as real) * (den as real)) by (nonlinear_arith);
}

/// No series has two peak hours.
pub proof fn lemma_peak_hour_unique(records: Seq<UsageRecord>, first: int, second: int)
    requires
        is_peak_hour(records, first),
        is_peak_hour(records, second),
    ensures
        first == second,
{
    if first < second {
        assert(hour_usage(records, first) < hour_usage(records, second));
        assert(hour_usage(records, second) <= hour_usage(records, first));
    } else if second < first {
        assert(hour_usage(records, second) < hour_usage(records, first));
        assert(hour_usage(records, first) <= hour_usage(records, second));
    }
}

/// The analytics are a function of the window alone: two sets of analytics
/// that describe one window agree in everything.
pub proof fn lemma_analytics_determined(
    one: UsageAnalytics,
    other: UsageAnalytics,
    balances: Seq<BalanceRecord>,
    usages: Seq<UsageRecord>,
    hours: u32,
)
    requires
        one.describes(balances, usages, hours),
        other.describes(balances, usages, hours),
    ensures
        one.current_balance == other.current_balance,
        one.usage_rate_per_hour == other.usage_rate_per_hour,
        one.usage_rate_per_day == other.usage_rate_per_day,
        one.estimated_hours_remaining == other.estimated_hours_remaining,
        one.estimated_days_remaining == other.estimated_days_remaining,
        one.total_usage_period == other.total_usage_period,
        one.average_session_usage == other.average_session_usage,
        one.peak_usage_hour == other.peak_usage_hour,
        one.trend == other.trend,
        one.balance_history@ == other.balance_history@,
        one.usage_history@ == other.usage_history@,
{
    if usages.len() > 0 {
        lemma_peak_hour_unique(
            usages,
            one.peak_usage_hour->0 as int,
            other.peak_usage_hour->0 as int,
        );
    }
}

} // verus!
