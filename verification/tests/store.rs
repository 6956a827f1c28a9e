use credit_monitor::database::{
    cutoff_at, minutes_between, BalanceRecord, Database, UsageRecord,
};
use credit_monitor::error::AppError;

const T0: i64 = 1_699_920_000_000;
const MINUTE: i64 = 60_000;
const HOUR: i64 = 3_600_000;
const DAY: i64 = 86_400_000;

fn amounts(records: &[BalanceRecord]) -> Vec<u32> {
    records.iter().map(|r| r.amount).collect()
}

#[test]
fn decrease_derives_usage_record() {
    let mut db = Database::new();
    let (first, none) = db.record_balance(1, 1000, T0, 2, "scraper").unwrap();
    assert_eq!(first.id, 1);
    assert_eq!(first.amount, 1000);
    assert_eq!(first.timestamp, T0);
    assert_eq!(first.source, "scraper");
    assert!(none.is_none());
    let (_, same) = db.record_balance(3, 1000, T0 + 10 * MINUTE, 4, "scraper").unwrap();
    assert!(same.is_none());
    let (_, usage) = db.record_balance(5, 700, T0 + 70 * MINUTE, 6, "scraper").unwrap();
    assert_eq!(
        usage,
        Some(UsageRecord {
            id: 6,
            start_balance: 1000,
            end_balance: 700,
            usage_amount: 300,
            duration_minutes: 60,
            timestamp: T0 + 70 * MINUTE,
        })
    );
}

#[test]
fn usage_exactly_when_balance_falls() {
    let series: [u32; 8] = [500, 500, 450, 900, 899, 899, 0, 0];
    let mut db = Database::new();
    let mut previous: Option<u32> = None;
    let mut derived = 0;
    for (i, amount) in series.iter().enumerate() {
        let (_, usage) =
            db.record_balance(i as u128, *amount, T0 + i as i64 * MINUTE, 100 + i as u128, "scraper").unwrap();
        match previous {
            Some(before) if before > *amount => {
                let u = usage.expect("a decrease derives a usage record");
                assert_eq!(u.usage_amount, before - *amount);
                assert_eq!(u.start_balance, before);
                assert_eq!(u.end_balance, *amount);
                derived += 1;
            }
            _ => assert!(usage.is_none()),
        }
        previous = Some(*amount);
    }
    assert_eq!(derived, 3);
    assert_eq!(db.usage_history_at(24, T0 + HOUR).len(), 3);
}

#[test]
fn top_up_derives_nothing() {
    let mut db = Database::new();
    db.record_balance(1, 100, T0, 2, "scraper").unwrap();
    let (_, usage) = db.record_balance(3, 5000, T0 + MINUTE, 4, "scraper").unwrap();
    assert!(usage.is_none());
}

#[test]
fn duration_is_at_least_one_minute() {
    let mut db = Database::new();
    db.record_balance(1, 1000, T0, 2, "scraper").unwrap();
    let (_, usage) = db.record_balance(3, 900, T0 + 5_000, 4, "scraper").unwrap();
    assert_eq!(usage.unwrap().duration_minutes, 1);
    let (_, at_once) = db.record_balance(5, 800, T0 + 5_000, 6, "scraper").unwrap();
    assert_eq!(at_once.unwrap().duration_minutes, 1);
    assert_eq!(minutes_between(T0, T0), 1);
    assert_eq!(minutes_between(T0, T0 + 59_999), 1);
    assert_eq!(minutes_between(T0, T0 + 60_000), 1);
    assert_eq!(minutes_between(T0, T0 + 119_999), 1);
    assert_eq!(minutes_between(T0, T0 + 120_000), 2);
    assert_eq!(minutes_between(T0 + MINUTE, T0), 1);
    assert_eq!(minutes_between(i64::MIN, i64::MAX), u32::MAX);
}

#[test]
fn snapshot_goes_into_its_place_in_time() {
    let mut db = Database::new();
    db.record_balance(1, 1000, T0, 11, "scraper").unwrap();
    db.record_balance(2, 800, T0 + 20 * MINUTE, 12, "scraper").unwrap();
    // A reading that is older than the latest goes between the two: it is
    // held against the snapshot before it, not against the latest.
    let (_, usage) = db.record_balance(3, 900, T0 + 10 * MINUTE, 13, "scraper").unwrap();
    let usage = usage.unwrap();
    assert_eq!(usage.start_balance, 1000);
    assert_eq!(usage.usage_amount, 100);
    assert_eq!(usage.duration_minutes, 10);
    assert_eq!(amounts(&db.balance_history_at(24, T0 + HOUR)), vec![1000, 900, 800]);
    let times: Vec<i64> = db.usage_history_at(24, T0 + HOUR).iter().map(|u| u.timestamp).collect();
    assert_eq!(times, vec![T0 + 10 * MINUTE, T0 + 20 * MINUTE]);
    // A reading at the same time as another goes behind it.
    db.record_balance(4, 850, T0 + 10 * MINUTE, 14, "scraper").unwrap();
    assert_eq!(amounts(&db.balance_history_at(24, T0 + HOUR)), vec![1000, 900, 850, 800]);
}

#[test]
fn latest_and_previous() {
    let mut db = Database::new();
    assert!(db.get_latest_balance().is_none());
    assert!(db.get_previous_balance_record().is_none());
    db.record_balance(1, 10, T0, 2, "scraper").unwrap();
    assert_eq!(db.get_latest_balance().unwrap().amount, 10);
    assert!(db.get_previous_balance_record().is_none());
    db.record_balance(3, 20, T0 + MINUTE, 4, "scraper").unwrap();
    assert_eq!(db.get_latest_balance().unwrap().amount, 20);
    assert_eq!(db.get_previous_balance_record().unwrap().amount, 10);
}

#[test]
fn history_is_a_window_in_time_order() {
    let mut db = Database::new();
    db.record_balance(1, 1000, T0, 11, "scraper").unwrap();
    db.record_balance(2, 900, T0 + HOUR, 12, "scraper").unwrap();
    db.record_balance(3, 800, T0 + 2 * HOUR, 13, "scraper").unwrap();
    db.record_balance(4, 700, T0 + 3 * HOUR, 14, "scraper").unwrap();
    let now = T0 + 3 * HOUR;
    assert_eq!(amounts(&db.balance_history_at(24, now)), vec![1000, 900, 800, 700]);
    assert_eq!(amounts(&db.balance_history_at(2, now)), vec![900, 800, 700]);
    assert_eq!(amounts(&db.balance_history_at(1, now)), vec![800, 700]);
    assert_eq!(amounts(&db.balance_history_at(0, now)), vec![700]);
    assert_eq!(amounts(&db.balance_history_at(0, now + 1)), Vec::<u32>::new());
    assert_eq!(db.usage_history_at(1, now).len(), 2);
    assert_eq!(db.usage_history_at(24, now).len(), 3);
    assert_eq!(db.usage_history_at(u32::MAX, i64::MIN).len(), 3);
}

#[test]
fn pruning_drops_what_is_past_retention() {
    let mut db = Database::new();
    db.record_balance(1, 1000, T0, 11, "scraper").unwrap();
    db.record_balance(2, 900, T0 + DAY, 12, "scraper").unwrap();
    db.record_balance(3, 800, T0 + 2 * DAY, 13, "scraper").unwrap();
    db.prune_at(1, T0 + 2 * DAY);
    assert_eq!(amounts(&db.balance_history_at(1000, T0 + 2 * DAY)), vec![900, 800]);
    assert_eq!(db.usage_history_at(1000, T0 + 2 * DAY).len(), 2);
    db.prune_at(0, T0 + 2 * DAY);
    assert_eq!(amounts(&db.balance_history_at(1000, T0 + 2 * DAY)), vec![800]);
    assert_eq!(db.usage_history_at(1000, T0 + 2 * DAY).len(), 1);
    db.prune_at(0, T0 + 3 * DAY);
    assert!(db.get_latest_balance().is_none());
    assert_eq!(db.usage_history_at(1000, T0 + 2 * DAY).len(), 0);
}

#[test]
fn usage_record_is_stored_only_when_valid() {
    let mut db = Database::new();
    let good = UsageRecord {
        id: 1,
        start_balance: 10,
        end_balance: 4,
        usage_amount: 6,
        duration_minutes: 3,
        timestamp: T0,
    };
    assert_eq!(db.insert_usage_record(good).unwrap(), good);
    for bad in [
        UsageRecord { usage_amount: 0, end_balance: 10, ..good },
        UsageRecord { duration_minutes: 0, ..good },
        UsageRecord { usage_amount: 5, ..good },
        UsageRecord { start_balance: 4, end_balance: 10, ..good },
    ] {
        match db.insert_usage_record(bad) {
            Err(AppError::Database(_)) => {}
            other => panic!("unexpected outcome: {:?}", other),
        }
    }
    assert_eq!(db.usage_history_at(1, T0).len(), 1);
}

#[test]
fn readings_by_the_clock() {
    let mut db = Database::new();
    let (first, none) = db.insert_balance_record(1000, "scraper").unwrap();
    assert!(none.is_none());
    assert_eq!(first.amount, 1000);
    assert!(first.timestamp > 1_600_000_000_000);
    let (second, usage) = db.insert_balance_record(400, "scraper").unwrap();
    assert_ne!(first.id, second.id);
    assert!(second.timestamp >= first.timestamp);
    let usage = usage.unwrap();
    assert_eq!(usage.usage_amount, 600);
    assert_eq!(usage.duration_minutes, 1);
    assert_ne!(usage.id, second.id);
    assert_eq!(db.get_balance_history(1).len(), 2);
    assert_eq!(db.get_usage_history(1).len(), 1);
    db.cleanup_old_records(1);
    assert_eq!(db.get_balance_history(1).len(), 2);
}

#[test]
fn retention_cutoff() {
    assert_eq!(cutoff_at(0, T0), T0);
    assert_eq!(cutoff_at(1, T0), T0 - DAY);
    assert_eq!(cutoff_at(30, T0), T0 - 30 * DAY);
    assert_eq!(cutoff_at(1, i64::MIN), i64::MIN);
    assert_eq!(cutoff_at(u32::MAX, i64::MAX), i64::MAX - u32::MAX as i64 * DAY);
}
