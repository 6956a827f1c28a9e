use credit_monitor::analytics::{
    balance_alerts, calculate_average_session_usage, calculate_peak_usage_hour,
    calculate_time_remaining, calculate_trend, calculate_usage_rates, hour_of, summarize,
    usage_totals, AlertLevel, AnalyticsEngine, UsageTrend,
};
use credit_monitor::database::{BalanceRecord, Database, UsageRecord};
use credit_monitor::ratio::Ratio;

const T0: i64 = 1_699_920_000_000;
const MINUTE: i64 = 60_000;
const HOUR: i64 = 3_600_000;

fn value(r: Ratio) -> f64 {
    r.num as f64 / r.den as f64
}

fn snapshots(amounts: &[u32]) -> Vec<BalanceRecord> {
    amounts
        .iter()
        .enumerate()
        .map(|(i, a)| BalanceRecord {
            id: i as u128,
            amount: *a,
            timestamp: T0 + i as i64 * MINUTE,
            source: "scraper".to_string(),
        })
        .collect()
}

fn usage(amount: u32, minutes: u32, timestamp: i64) -> UsageRecord {
    UsageRecord {
        id: timestamp as u128,
        start_balance: amount,
        end_balance: 0,
        usage_amount: amount,
        duration_minutes: minutes,
        timestamp,
    }
}

#[test]
fn rate_is_zero_without_usage() {
    let (per_hour, per_day) = calculate_usage_rates(&[]);
    assert_eq!(per_hour, Ratio { num: 0, den: 1 });
    assert_eq!(per_day, Ratio { num: 0, den: 1 });
    let mut db = Database::new();
    db.record_balance(1, 1000, T0, 2, "scraper").unwrap();
    db.record_balance(3, 1000, T0 + 10 * MINUTE, 4, "scraper").unwrap();
    let analytics = AnalyticsEngine::new().usage_analytics_at(&db, 24, T0 + 10 * MINUTE);
    assert_eq!(analytics.usage_rate_per_hour.num, 0);
    assert_eq!(analytics.usage_rate_per_day.num, 0);
    assert!(analytics.estimated_hours_remaining.is_none());
    assert!(analytics.estimated_days_remaining.is_none());
}

#[test]
fn rate_is_usage_over_minutes() {
    let records = [usage(300, 60, T0), usage(100, 20, T0 + HOUR)];
    assert_eq!(usage_totals(&records), (400, 80));
    let (per_hour, per_day) = calculate_usage_rates(&records);
    assert_eq!(per_hour, Ratio { num: 24_000, den: 80 });
    assert_eq!(per_day, Ratio { num: 576_000, den: 80 });
    assert_eq!(value(per_hour), 300.0);
    assert_eq!(value(per_day), 7200.0);
    let no_time = [usage(5, 0, T0)];
    assert_eq!(calculate_usage_rates(&no_time).0, Ratio { num: 0, den: 1 });
}

#[test]
fn remaining_time_is_balance_over_rate() {
    let rate = Ratio { num: 18_000, den: 60 };
    let (hours, days) = calculate_time_remaining(Some(700), rate);
    assert_eq!(hours, Some(Ratio { num: 42_000, den: 18_000 }));
    assert_eq!(days, Some(Ratio { num: 42_000, den: 432_000 }));
    assert_eq!(calculate_time_remaining(None, rate), (None, None));
    assert_eq!(calculate_time_remaining(Some(700), Ratio { num: 0, den: 1 }), (None, None));
    assert_eq!(
        calculate_time_remaining(Some(0), rate).0,
        Some(Ratio { num: 0, den: 18_000 })
    );
}

#[test]
fn trend_of_steady_series() {
    assert_eq!(calculate_trend(&snapshots(&[100, 105, 110])), UsageTrend::Decreasing);
    assert_eq!(calculate_trend(&snapshots(&[0, 5, 10, 15, 20, 25])), UsageTrend::Decreasing);
    assert_eq!(calculate_trend(&snapshots(&[110, 105, 100])), UsageTrend::Increasing);
    assert_eq!(calculate_trend(&snapshots(&[500, 495, 490, 485])), UsageTrend::Increasing);
    assert_eq!(calculate_trend(&snapshots(&[100, 100, 100])), UsageTrend::Stable);
    assert_eq!(calculate_trend(&snapshots(&[7, 7, 7, 7, 7])), UsageTrend::Stable);
}

#[test]
fn trend_needs_three_snapshots() {
    assert_eq!(calculate_trend(&snapshots(&[])), UsageTrend::Insufficient);
    assert_eq!(calculate_trend(&snapshots(&[100])), UsageTrend::Insufficient);
    assert_eq!(calculate_trend(&snapshots(&[100, 0])), UsageTrend::Insufficient);
}

#[test]
fn trend_dead_zone() {
    // A slope of exactly one in either direction is still stable.
    assert_eq!(calculate_trend(&snapshots(&[10, 11, 12, 13])), UsageTrend::Stable);
    assert_eq!(calculate_trend(&snapshots(&[13, 12, 11, 10])), UsageTrend::Stable);
    assert_eq!(calculate_trend(&snapshots(&[10, 12, 14])), UsageTrend::Decreasing);
    assert_eq!(calculate_trend(&snapshots(&[14, 12, 10])), UsageTrend::Increasing);
    // Slope 1.1 and -1.1 over 0, 1, 2, 3.
    assert_eq!(calculate_trend(&snapshots(&[100, 101, 102, 104])), UsageTrend::Decreasing);
    assert_eq!(calculate_trend(&snapshots(&[104, 102, 101, 100])), UsageTrend::Increasing);
    assert_eq!(
        calculate_trend(&snapshots(&[u32::MAX, 0, u32::MAX, 0, u32::MAX])),
        UsageTrend::Stable
    );
    assert_eq!(calculate_trend(&snapshots(&[0, 0, u32::MAX])), UsageTrend::Decreasing);
}

#[test]
fn average_is_usage_over_records() {
    assert_eq!(calculate_average_session_usage(&[]), Ratio { num: 0, den: 1 });
    let records = [usage(300, 60, T0), usage(100, 20, T0), usage(50, 1, T0)];
    assert_eq!(calculate_average_session_usage(&records), Ratio { num: 450, den: 3 });
}

#[test]
fn peak_hour_of_concentrated_usage() {
    let fourteen = T0 + 14 * HOUR;
    let records =
        [usage(10, 5, fourteen), usage(20, 5, fourteen + 59 * MINUTE), usage(1, 1, fourteen + 86_400_000)];
    assert_eq!(calculate_peak_usage_hour(&records), Some(14));
    assert_eq!(calculate_peak_usage_hour(&[]), None);
}

#[test]
fn peak_hour_ties_go_to_the_earliest() {
    let records = [usage(10, 5, T0 + 20 * HOUR), usage(10, 5, T0 + 3 * HOUR), usage(4, 5, T0 + 9 * HOUR)];
    assert_eq!(calculate_peak_usage_hour(&records), Some(3));
    let more = [usage(10, 5, T0 + 20 * HOUR), usage(10, 5, T0 + 3 * HOUR), usage(1, 5, T0 + 20 * HOUR)];
    assert_eq!(calculate_peak_usage_hour(&more), Some(20));
    let nothing_used = [usage(0, 5, T0 + 20 * HOUR)];
    assert_eq!(calculate_peak_usage_hour(&nothing_used), Some(0));
}

#[test]
fn hour_of_day() {
    assert_eq!(hour_of(0), 0);
    assert_eq!(hour_of(T0), 0);
    assert_eq!(hour_of(T0 + 14 * HOUR + 1), 14);
    assert_eq!(hour_of(T0 + 24 * HOUR - 1), 23);
    assert_eq!(hour_of(-1), 23);
    assert_eq!(hour_of(-HOUR), 23);
    assert_eq!(hour_of(-HOUR - 1), 22);
    assert_eq!(hour_of(i64::MAX), ((i64::MAX / HOUR) % 24) as u8);
    assert_eq!(hour_of(i64::MIN), (i64::MIN.div_euclid(HOUR).rem_euclid(24)) as u8);
}

#[test]
fn end_to_end() {
    let mut db = Database::new();
    let engine = AnalyticsEngine::new();
    db.record_balance(1, 1000, T0, 11, "scraper").unwrap();
    let (_, none) = db.record_balance(2, 1000, T0 + 10 * MINUTE, 12, "scraper").unwrap();
    assert!(none.is_none());
    let idle = engine.usage_analytics_at(&db, 24, T0 + 10 * MINUTE);
    assert_eq!(value(idle.usage_rate_per_hour), 0.0);
    let (_, usage) = db.record_balance(3, 700, T0 + 70 * MINUTE, 13, "scraper").unwrap();
    let usage = usage.unwrap();
    assert_eq!(usage.usage_amount, 300);
    assert_eq!(usage.duration_minutes, 60);
    let analytics = engine.usage_analytics_at(&db, 24, T0 + 70 * MINUTE);
    assert_eq!(analytics.current_balance, Some(700));
    assert_eq!(value(analytics.usage_rate_per_hour), 300.0);
    assert_eq!(value(analytics.usage_rate_per_day), 7200.0);
    let hours = value(analytics.estimated_hours_remaining.unwrap());
    assert!((hours - 2.3333333).abs() < 1e-6);
    let days = value(analytics.estimated_days_remaining.unwrap());
    assert!((days - 2.3333333 / 24.0).abs() < 1e-6);
    assert_eq!(analytics.total_usage_period, 24);
    assert_eq!(value(analytics.average_session_usage), 300.0);
    assert_eq!(analytics.peak_usage_hour, Some(1));
    assert_eq!(analytics.trend, UsageTrend::Increasing);
    assert_eq!(analytics.balance_history.len(), 3);
    assert_eq!(analytics.balance_history[2].balance, 700);
    assert_eq!(analytics.balance_history[2].timestamp, T0 + 70 * MINUTE);
    assert_eq!(analytics.usage_history.len(), 1);
    assert_eq!(analytics.usage_history[0].usage_amount, 300);
    assert_eq!(value(analytics.usage_history[0].rate_per_hour), 300.0);
    assert_eq!(value(engine.usage_prediction_at(&db, 5, T0 + 70 * MINUTE)), 1500.0);
}

#[test]
fn analytics_see_the_window_only() {
    let mut db = Database::new();
    let engine = AnalyticsEngine::new();
    db.record_balance(1, 5000, T0, 11, "scraper").unwrap();
    db.record_balance(2, 1000, T0 + 30 * HOUR, 12, "scraper").unwrap();
    db.record_balance(3, 900, T0 + 31 * HOUR, 13, "scraper").unwrap();
    let analytics = engine.usage_analytics_at(&db, 2, T0 + 31 * HOUR);
    assert_eq!(analytics.balance_history.len(), 2);
    assert_eq!(analytics.usage_history.len(), 2);
    let narrow = engine.usage_analytics_at(&db, 0, T0 + 31 * HOUR);
    assert_eq!(narrow.current_balance, Some(900));
    assert_eq!(narrow.usage_history.len(), 1);
    assert_eq!(value(narrow.usage_rate_per_hour), 100.0);
    let empty = engine.usage_analytics_at(&db, 1, T0 + 40 * HOUR);
    assert_eq!(empty.current_balance, None);
    assert_eq!(empty.trend, UsageTrend::Insufficient);
    assert_eq!(empty.peak_usage_hour, None);
}

#[test]
fn alerts_on_balance_and_time() {
    let balances = snapshots(&[1000, 400, 90]);
    let usages = [usage(600, 60, T0 + MINUTE), usage(310, 60, T0 + 2 * MINUTE)];
    let analytics = summarize(&balances, &usages, 24);
    // 910 credits in 120 minutes is 455 an hour; 90 credits last 0.2 hours.
    let alerts = balance_alerts(&analytics, 500, 100);
    assert_eq!(alerts.len(), 2);
    assert_eq!(alerts[0].level, AlertLevel::Critical);
    assert_eq!(alerts[0].message, "Critical: Only 90 credits remaining!");
    assert_eq!(alerts[0].estimated_time_remaining, analytics.estimated_hours_remaining);
    assert_eq!(alerts[1].level, AlertLevel::Critical);
    assert_eq!(alerts[1].message, "Credits will be depleted in 0.2 hours at current usage rate");
    let relaxed = balance_alerts(&analytics, 50, 10);
    assert_eq!(relaxed.len(), 1);
    let low = balance_alerts(&analytics, 500, 10);
    assert_eq!(low[0].level, AlertLevel::Warning);
    assert_eq!(low[0].message, "Warning: 90 credits remaining");
}

#[test]
fn alerts_on_time_alone() {
    let balances = snapshots(&[10_000, 9_000]);
    let usages = [usage(1000, 60, T0 + MINUTE)];
    let analytics = summarize(&balances, &usages, 24);
    let alerts = balance_alerts(&analytics, 500, 100);
    assert_eq!(alerts.len(), 1);
    assert_eq!(alerts[0].level, AlertLevel::Warning);
    assert_eq!(alerts[0].message, "Credits will be depleted in 9.0 hours at current usage rate");
    let slow = summarize(&balances, &[usage(1, 60, T0)], 24);
    assert!(balance_alerts(&slow, 500, 100).is_empty());
    let none = summarize(&[], &usages, 24);
    assert!(balance_alerts(&none, 500, 100).is_empty());
    // Two hours exactly are critical, twenty-four exactly a warning.
    let two = summarize(&snapshots(&[2000]), &usages, 24);
    assert_eq!(balance_alerts(&two, 500, 100)[0].level, AlertLevel::Critical);
    let day = summarize(&snapshots(&[24_000]), &usages, 24);
    assert_eq!(balance_alerts(&day, 500, 100)[0].level, AlertLevel::Warning);
    let more = summarize(&snapshots(&[24_001]), &usages, 24);
    assert!(balance_alerts(&more, 500, 100).is_empty());
}

#[test]
fn engine_by_the_clock() {
    let mut db = Database::new();
    let engine = AnalyticsEngine::new();
    db.insert_balance_record(1000, "scraper").unwrap();
    db.insert_balance_record(40, "scraper").unwrap();
    let analytics = engine.calculate_usage_analytics(&db, 24);
    assert_eq!(analytics.current_balance, Some(40));
    assert_eq!(value(analytics.usage_rate_per_hour), 57_600.0);
    assert_eq!(value(engine.get_usage_prediction(&db, 2)), 115_200.0);
    let alerts = engine.get_balance_alerts(&db, 500, 100);
    assert_eq!(alerts.len(), 2);
    assert_eq!(alerts[0].message, "Critical: Only 40 credits remaining!");
}
