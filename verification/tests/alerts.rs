use credit_monitor::analytics::{summarize, AlertLevel, UsageAnalytics};
use credit_monitor::database::{BalanceRecord, UsageRecord};
use credit_monitor::notifications::{AlertRule, NotificationManager, NOTIFICATION_TIMEOUT};

const T0: i64 = 1_699_920_000_000;

fn snapshot(amount: u32) -> BalanceRecord {
    BalanceRecord { id: 1, amount, timestamp: T0, source: "scraper".to_string() }
}

fn usage(amount: u32, minutes: u32) -> UsageRecord {
    UsageRecord {
        id: 2,
        start_balance: amount,
        end_balance: 0,
        usage_amount: amount,
        duration_minutes: minutes,
        timestamp: T0,
    }
}

/// A balance with usage of `amount` credits in `minutes` minutes.
fn analytics(balance: u32, amount: u32, minutes: u32) -> UsageAnalytics {
    summarize(&[snapshot(balance)], &[usage(amount, minutes)], 24)
}

/// A balance with nothing used.
fn quiet(balance: u32) -> UsageAnalytics {
    summarize(&[snapshot(balance)], &[], 24)
}

fn rules(manager: &NotificationManager, a: &UsageAnalytics, balance: u32, now: u64) -> Vec<AlertRule> {
    manager.check_and_send_alerts(a, balance, now).into_iter().map(|(rule, _)| rule).collect()
}

#[test]
fn same_rule_within_cooldown_fires_once() {
    let mut manager = NotificationManager::new();
    let a = quiet(50);
    let mut delivered = 0;
    for now in [1_000u64, 2_000, 150_000, 300_999] {
        for (rule, _) in manager.check_and_send_alerts(&a, 50, now) {
            manager.record_sent(rule, now);
            delivered += 1;
        }
    }
    assert_eq!(delivered, 1);
    // Five minutes after the first delivery the rule fires again.
    let again = manager.check_and_send_alerts(&a, 50, 301_000);
    assert_eq!(again.len(), 1);
    assert_eq!(again[0].0, AlertRule::CriticalBalance);
}

#[test]
fn cooldown_is_kept_by_rule_not_by_message() {
    let mut manager = NotificationManager::new();
    manager.record_sent(AlertRule::CriticalBalance, 10_000);
    assert!(rules(&manager, &quiet(50), 50, 20_000).is_empty());
    assert!(rules(&manager, &quiet(49), 49, 30_000).is_empty());
    // Another rule is not held back.
    assert_eq!(rules(&manager, &quiet(400), 400, 30_000), vec![AlertRule::LowBalance]);
}

#[test]
fn undelivered_notification_is_due_again() {
    let manager = NotificationManager::new();
    let a = quiet(50);
    assert_eq!(manager.check_and_send_alerts(&a, 50, 1_000).len(), 1);
    assert_eq!(manager.check_and_send_alerts(&a, 50, 1_001).len(), 1);
}

#[test]
fn should_send_and_history() {
    let mut manager = NotificationManager::new();
    assert!(manager.should_send(AlertRule::HighUsage, 0));
    manager.record_sent(AlertRule::HighUsage, 1_000);
    assert!(!manager.should_send(AlertRule::HighUsage, 1_000));
    assert!(!manager.should_send(AlertRule::HighUsage, 500));
    assert!(!manager.should_send(AlertRule::HighUsage, 300_999));
    assert!(manager.should_send(AlertRule::HighUsage, 301_000));
    assert!(manager.should_send(AlertRule::TimeWarning, 1_000));
    manager.set_cooldown_duration(10);
    assert!(!manager.should_send(AlertRule::HighUsage, 1_009));
    assert!(manager.should_send(AlertRule::HighUsage, 1_010));
    manager.set_cooldown_duration(0);
    assert!(manager.should_send(AlertRule::HighUsage, 1_000));
    manager.set_cooldown_duration(300_000);
    manager.clear_notification_history();
    assert!(manager.should_send(AlertRule::HighUsage, 1_000));
}

#[test]
fn balance_rules() {
    let manager = NotificationManager::new();
    assert_eq!(rules(&manager, &quiet(100), 100, 0), vec![AlertRule::CriticalBalance]);
    assert_eq!(rules(&manager, &quiet(101), 101, 0), vec![AlertRule::LowBalance]);
    assert_eq!(rules(&manager, &quiet(500), 500, 0), vec![AlertRule::LowBalance]);
    assert!(rules(&manager, &quiet(501), 501, 0).is_empty());
    let critical = manager.check_and_send_alerts(&quiet(0), 0, 0);
    assert_eq!(critical[0].1.title, "Critical Balance Alert");
    assert_eq!(critical[0].1.message, "Only 0 credits remaining!");
    assert_eq!(critical[0].1.level, AlertLevel::Critical);
    assert_eq!(critical[0].1.icon, "dialog-error");
    let low = manager.check_and_send_alerts(&quiet(432), 432, 0);
    assert_eq!(low[0].1.title, "Low Balance Warning");
    assert_eq!(low[0].1.message, "432 credits remaining");
    assert_eq!(low[0].1.level, AlertLevel::Warning);
    assert_eq!(low[0].1.icon, "dialog-warning");
}

#[test]
fn thresholds_can_be_set() {
    let mut manager = NotificationManager::new();
    manager.set_thresholds(2000, 1000);
    assert_eq!(rules(&manager, &quiet(1000), 1000, 0), vec![AlertRule::CriticalBalance]);
    assert_eq!(rules(&manager, &quiet(1500), 1500, 0), vec![AlertRule::LowBalance]);
    assert!(rules(&manager, &quiet(2001), 2001, 0).is_empty());
}

#[test]
fn time_rules() {
    let manager = NotificationManager::new();
    // 1000 credits an hour.
    let two_hours = analytics(2000, 1000, 60);
    let alerts = manager.check_and_send_alerts(&two_hours, 2000, 0);
    assert_eq!(alerts.len(), 1);
    assert_eq!(alerts[0].0, AlertRule::TimeCritical);
    assert_eq!(alerts[0].1.title, "Credits Depleting Soon");
    assert_eq!(alerts[0].1.message, "Credits will run out in 2.0 hours at current usage rate");
    assert_eq!(alerts[0].1.level, AlertLevel::Critical);
    let a_day = analytics(24_000, 1000, 60);
    let alerts = manager.check_and_send_alerts(&a_day, 24_000, 0);
    assert_eq!(alerts.len(), 1);
    assert_eq!(alerts[0].0, AlertRule::TimeWarning);
    assert_eq!(alerts[0].1.title, "Credits Running Low");
    assert_eq!(alerts[0].1.message, "Credits will run out in 24.0 hours at current usage rate");
    assert_eq!(alerts[0].1.level, AlertLevel::Warning);
    assert!(rules(&manager, &analytics(24_001, 1000, 60), 24_001, 0).is_empty());
    assert_eq!(
        rules(&manager, &analytics(2001, 1000, 60), 2001, 0),
        vec![AlertRule::TimeWarning]
    );
}

#[test]
fn high_usage_rule() {
    let manager = NotificationManager::new();
    // 100 credits in 10 minutes: 600 an hour against an average of 100.
    let busy = analytics(1_000_000, 100, 10);
    let alerts = manager.check_and_send_alerts(&busy, 1_000_000, 0);
    assert_eq!(alerts.len(), 1);
    assert_eq!(alerts[0].0, AlertRule::HighUsage);
    assert_eq!(alerts[0].1.title, "High Usage Detected");
    assert_eq!(
        alerts[0].1.message,
        "Current usage rate (600.0/hour) is significantly higher than average"
    );
    assert_eq!(alerts[0].1.level, AlertLevel::Warning);
    // 100 credits in 30 minutes: 200 an hour is twice the average, not more.
    assert!(rules(&manager, &analytics(1_000_000, 100, 30), 1_000_000, 0).is_empty());
    assert_eq!(
        rules(&manager, &analytics(1_000_000, 100, 29), 1_000_000, 0),
        vec![AlertRule::HighUsage]
    );
    assert!(rules(&manager, &quiet(1_000_000), 1_000_000, 0).is_empty());
}

#[test]
fn rules_fire_side_by_side() {
    let mut manager = NotificationManager::new();
    let a = analytics(90, 100, 10);
    assert_eq!(
        rules(&manager, &a, 90, 0),
        vec![AlertRule::CriticalBalance, AlertRule::TimeCritical, AlertRule::HighUsage]
    );
    manager.record_sent(AlertRule::TimeCritical, 0);
    assert_eq!(
        rules(&manager, &a, 90, 1),
        vec![AlertRule::CriticalBalance, AlertRule::HighUsage]
    );
}

#[test]
fn other_notifications() {
    let manager = NotificationManager::new();
    assert_eq!(NOTIFICATION_TIMEOUT, 5000);
    let n = manager.send_balance_update(700, Some(1000));
    assert_eq!(n.title, "Balance Update");
    assert_eq!(n.message, "Balance decreased by 300 to 700 credits");
    assert_eq!(n.level, AlertLevel::Info);
    assert_eq!(n.icon, "dialog-information");
    assert_eq!(
        manager.send_balance_update(1000, Some(700)).message,
        "Balance increased by 300 to 1000 credits"
    );
    assert_eq!(
        manager.send_balance_update(u32::MAX, Some(0)).message,
        "Balance increased by 4294967295 to 4294967295 credits"
    );
    assert_eq!(manager.send_balance_update(5, Some(5)).message, "Balance unchanged at 5 credits");
    assert_eq!(manager.send_balance_update(5, None).message, "Current balance: 5 credits");
    let e = manager.send_error_notification("disk full");
    assert_eq!(e.title, "orb Monitor Error");
    assert_eq!(e.message, "Error: disk full");
    assert_eq!(e.level, AlertLevel::Warning);
    let up = manager.send_connection_status(true);
    assert_eq!(up.title, "Connection Restored");
    assert_eq!(up.message, "Successfully reconnected to orb portal");
    assert_eq!(up.level, AlertLevel::Info);
    let down = manager.send_connection_status(false);
    assert_eq!(down.title, "Connection Lost");
    assert_eq!(down.message, "Unable to connect to orb portal");
    assert_eq!(down.level, AlertLevel::Warning);
    let three = manager.test_notifications();
    assert_eq!(three.len(), 3);
    assert_eq!(three[0].title, "Test Notification - Info");
    assert_eq!(three[1].message, "This is a test warning notification");
    assert_eq!(three[2].level, AlertLevel::Critical);
    assert_eq!(three[2].icon, "dialog-error");
    let custom = manager.send_notification("T", "M".to_string(), AlertLevel::Warning);
    assert_eq!((custom.title.as_str(), custom.message.as_str()), ("T", "M"));
    assert_eq!(custom.icon, "dialog-warning");
    assert_eq!(custom.app_name, "orb Credit Monitor");
    assert_eq!(custom.timeout, 5000);
}
