//! The monitoring cycle: what is done with a reading once it is fetched.
//!
//! A cycle stores the reading, computes the analytics of the engine's window
//! and prepares the notifications that are due, in this order. A store that
//! takes the reading not in holds the cycle up no further: analytics and
//! notifications go by what the store holds.

use vstd::prelude::*;
use crate::analytics::{AnalyticsEngine, UsageAnalytics};
use crate::database::{
    balance_since, fresh_id, now_millis, usage_since, window_start, BalanceRecord, Database,
    UsageRecord,
};
use crate::display::{short_balance, tray_title, tray_tooltip};
use crate::error::AppResult;
use crate::notifications::{alert_view, AlertRule, Notification, NotificationManager};

verus! {

/// What came of a cycle.
#[derive(Debug)]
pub struct CycleReport {
    /// What the store made of the reading, or why it took nothing in.
    pub stored: AppResult<(BalanceRecord, Option<UsageRecord>)>,
    /// The analytics of the engine's window, the reading included.
    pub analytics: UsageAnalytics,
    /// The notifications to deliver, each with its rule.
    pub notifications: Vec<(AlertRule, Notification)>,
    /// The balance in short, and the line that explains it.
    pub title: String,
    pub tooltip: String,
}

/// Runs the part of a cycle that follows the fetch: takes the reading
/// `balance` in at `timestamp` under the given identifiers and label, and
/// hands back the analytics and the notifications that are due at `now` on
/// the clock of the cooldown.
pub fn monitoring_cycle(
    database: &mut Database,
    engine: &AnalyticsEngine,
    alerts: &NotificationManager,
    balance: u32,
    source: &str,
    id: u128,
    usage_id: u128,
    timestamp: i64,
    now: u64,
) -> (report: CycleReport)
    requires
        old(database).wf(),
    ensures
        final(database).wf(),
        old(database).recorded(
            final(database),
            report.stored,
            id,
            balance,
            timestamp,
            usage_id,
            source@,
        ),
        report.analytics.wf(),
        report.analytics.describes(
            final(database).balances().filter(
                balance_since(window_start(timestamp, engine.window())),
            ),
            final(database).usages().filter(usage_since(window_start(timestamp, engine.window()))),
            engine.window(),
        ),
        report.notifications@.map_values(|a: (AlertRule, Notification)| alert_view(a)) == alerts.due(
            report.analytics,
            balance,
            now,
        ),
        report.title@ == short_balance(balance),
        report.tooltip@ == short_balance(balance) + " - Augment Credits"@,
{
    let stored = database.record_balance(id, balance, timestamp, usage_id, source);
    let analytics = engine.window_analytics_at(database, timestamp);
    let notifications = alerts.check_and_send_alerts(&analytics, balance, now);
    CycleReport {
        stored,
        analytics,
        notifications,
        title: tray_title(balance),
        tooltip: tray_tooltip(balance),
    }
}


/// One turn of the monitoring loop behind the fetch: what `monitoring_cycle`
/// does, at the clock's time and under fresh identifiers.
pub fn monitoring_loop(
    database: &mut Database,
    engine: &AnalyticsEngine,
    alerts: &NotificationManager,
    balance: u32,
    source: &str,
    now: u64,
) -> (report: CycleReport)
    requires
        old(database).wf(),
    ensures
        final(database).wf(),
        report.analytics.wf(),
        exists|id: u128, usage_id: u128, timestamp: i64|
            {
                &&& old(database).recorded(
                    final(database),
                    report.stored,
                    id,
                    balance,
                    timestamp,
                    usage_id,
                    source@,
                )
                &&& report.analytics.describes(
                    final(database).balances().filter(
                        balance_since(window_start(timestamp, engine.window())),
                    ),
                    final(database).usages().filter(
                        usage_since(window_start(timestamp, engine.window())),
                    ),
                    engine.window(),
                )
            },
        report.notifications@.map_values(|a: (AlertRule, Notification)| alert_view(a)) == alerts.due(
            report.analytics,
            balance,
            now,
        ),
        report.title@ == short_balance(balance),
        report.tooltip@ == short_balance(balance) + " - Augment Credits"@,
{
    let id = fresh_id();
    let usage_id = fresh_id();
    let timestamp = now_millis();
    monitoring_cycle(database, engine, alerts, balance, source, id, usage_id, timestamp, now)
}

} // verus!
