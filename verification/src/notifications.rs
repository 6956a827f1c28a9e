//! The alert engine: which notifications a set of analytics calls for, and
//! the cooldown that keeps one rule from firing again too soon.
//!
//! Times are milliseconds on a clock that does not run backwards. The engine
//! decides; whoever delivers a notification reports the delivery back with
//! `record_sent`.

use std::collections::HashMap;
use vstd::prelude::*;
use vstd::string::StringExecFns;
use crate::analytics::{AlertLevel, UsageAnalytics};
use crate::ratio::Ratio;
use crate::text::{decimal_digits, decimal_text, tenths_digits, tenths_text};

verus! {

broadcast use vstd::std_specs::hash::group_hash_axioms;

/// The kinds of alert. The cooldown is kept per kind.
#[derive(Clone, Copy, Debug, PartialEq, Eq, Structural)]
pub enum AlertRule {
    CriticalBalance,
    LowBalance,
    TimeCritical,
    TimeWarning,
    HighUsage,
}

impl AlertRule {
    /// The number under which the rule's last delivery is kept.
    pub open spec fn code(self) -> u64 {
        match self {
            AlertRule::CriticalBalance => 0,
            AlertRule::LowBalance => 1,
            AlertRule::TimeCritical => 2,
            AlertRule::TimeWarning => 3,
            AlertRule::HighUsage => 4,
        }
    }

    /// The number under which the rule's last delivery is kept.
    pub fn key(&self) -> (key: u64)
        ensures
            key == self.code(),
    {
        match self {
            AlertRule::CriticalBalance => 0,
            AlertRule::LowBalance => 1,
            AlertRule::TimeCritical => 2,
            AlertRule::TimeWarning => 3,
            AlertRule::HighUsage => 4,
        }
    }

    /// The title of the rule's notification.
    pub open spec fn title(self) -> Seq<char> {
        match self {
            AlertRule::CriticalBalance => "Critical Balance Alert"@,
            AlertRule::LowBalance => "Low Balance Warning"@,
            AlertRule::TimeCritical => "Credits Depleting Soon"@,
            AlertRule::TimeWarning => "Credits Running Low"@,
            AlertRule::HighUsage => "High Usage Detected"@,
        }
    }

    /// How grave the rule's notification is.
    pub open spec fn level(self) -> AlertLevel {
        match self {
            AlertRule::CriticalBalance => AlertLevel::Critical,
            AlertRule::LowBalance => AlertLevel::Warning,
            AlertRule::TimeCritical => AlertLevel::Critical,
            AlertRule::TimeWarning => AlertLevel::Warning,
            AlertRule::HighUsage => AlertLevel::Warning,
        }
    }
}

/// A notification to deliver: what it says, how grave it is, the icon that
/// shows it, the name that it is shown under, and how long it stays, in
/// milliseconds.
#[derive(Debug)]
pub struct Notification {
    pub title: String,
    pub message: String,
    pub level: AlertLevel,
    pub icon: String,
    pub app_name: String,
    pub timeout: u32,
}

/// A notification with its texts as sequences of characters.
pub struct NotificationText {
    pub title: Seq<char>,
    pub message: Seq<char>,
    pub level: AlertLevel,
    pub icon: Seq<char>,
    pub app_name: Seq<char>,
    pub timeout: u32,
}

impl View for Notification {
    type V = NotificationText;

    open spec fn view(&self) -> NotificationText {
        NotificationText {
            title: self.title@,
            message: self.message@,
            level: self.level,
            icon: self.icon@,
            app_name: self.app_name@,
            timeout: self.timeout,
        }
    }
}

/// How long a notification stays, in milliseconds.
pub const NOTIFICATION_TIMEOUT: u32 = 5000;

/// The name of the icon that goes with a level.
pub open spec fn icon_name(level: AlertLevel) -> Seq<char> {
    match level {
        AlertLevel::Critical => "dialog-error"@,
        AlertLevel::Warning => "dialog-warning"@,
        AlertLevel::Info => "dialog-information"@,
    }
}

/// The notification with the given texts and level.
pub open spec fn notification_of(
    title: Seq<char>,
    message: Seq<char>,
    level: AlertLevel,
) -> NotificationText {
    NotificationText {
        title,
        message,
        level,
        icon: icon_name(level),
        app_name: "orb Credit Monitor"@,
        timeout: NOTIFICATION_TIMEOUT,
    }
}

/// A rule with its notification.
pub open spec fn alert_view(alert: (AlertRule, Notification)) -> (AlertRule, NotificationText) {
    (alert.0, alert.1@)
}

/// The rule on the balance itself: critical at or below `critical`,
/// otherwise low at or below `low`.
pub open spec fn balance_rule(balance: u32, low: u32, critical: u32) -> Option<AlertRule> {
    if balance <= critical {
        Some(AlertRule::CriticalBalance)
    } else if balance <= low {
        Some(AlertRule::LowBalance)
    } else {
        None
    }
}

/// The rule on the hours that are left: critical at two or less, otherwise
/// a warning at twenty-four or less.
pub open spec fn time_rule(time: Option<Ratio>) -> Option<AlertRule> {
    match time {
        Some(hours) => if hours.at_most(2) {
            Some(AlertRule::TimeCritical)
        } else if hours.at_most(24) {
            Some(AlertRule::TimeWarning)
        } else {
            None
        },
        None => None,
    }
}

/// The rule on unusual usage: a positive rate per hour of more than twice
/// the average usage per record.
pub open spec fn usage_rule(rate: Ratio, average: Ratio) -> Option<AlertRule> {
    if rate.is_positive() && rate.exceeds_multiple(2, average) {
        Some(AlertRule::HighUsage)
    } else {
        None
    }
}

/// What the notification of a rule says.
pub open spec fn rule_message(rule: AlertRule, analytics: UsageAnalytics, balance: u32) -> Seq<
    char,
> {
    match rule {
        AlertRule::CriticalBalance => "Only "@ + decimal_digits(balance as nat)
            + " credits remaining!"@,
        AlertRule::LowBalance => decimal_digits(balance as nat) + " credits remaining"@,
        AlertRule::TimeCritical => "Credits will run out in "@ + tenths_digits(
            analytics.estimated_hours_remaining->0,
        ) + " hours at current usage rate"@,
        AlertRule::TimeWarning => "Credits will run out in "@ + tenths_digits(
            analytics.estimated_hours_remaining->0,
        ) + " hours at current usage rate"@,
        AlertRule::HighUsage => "Current usage rate ("@ + tenths_digits(
            analytics.usage_rate_per_hour,
        ) + "/hour) is significantly higher than average"@,
    }
}

/// The notification of a rule.
pub open spec fn rule_notification(
    rule: AlertRule,
    analytics: UsageAnalytics,
    balance: u32,
) -> NotificationText {
    notification_of(rule.title(), rule_message(rule, analytics, balance), rule.level())
}

/// The milliseconds from `last` to `now`; none where the clock shows an
/// earlier time.
pub open spec fn elapsed(last: u64, now: u64) -> int {
    if now >= last {
        now - last
    } else {
        0
    }
}

/// The rule was delivered less than `cooldown` milliseconds before `now`.
pub open spec fn in_cooldown(
    sent: Map<u64, u64>,
    cooldown: u64,
    rule: AlertRule,
    now: u64,
) -> bool {
    sent.contains_key(rule.code()) && elapsed(sent[rule.code()], now) < cooldown
}

/// The notification of a rule that triggered and is not in its cooldown.
pub open spec fn pending(
    sent: Map<u64, u64>,
    cooldown: u64,
    rule: Option<AlertRule>,
    analytics: UsageAnalytics,
    balance: u32,
    now: u64,
) -> Seq<(AlertRule, NotificationText)> {
    match rule {
        Some(r) => if in_cooldown(sent, cooldown, r, now) {
            Seq::empty()
        } else {
            seq![(r, rule_notification(r, analytics, balance))]
        },
        None => Seq::empty(),
    }
}

/// The rule triggers for the given analytics, balance and thresholds.
pub open spec fn triggers(
    rule: AlertRule,
    analytics: UsageAnalytics,
    balance: u32,
    low: u32,
    critical: u32,
) -> bool {
    balance_rule(balance, low, critical) == Some(rule) || time_rule(
        analytics.estimated_hours_remaining,
    ) == Some(rule) || usage_rule(analytics.usage_rate_per_hour, analytics.average_session_usage)
        == Some(rule)
}

/// A rule that was delivered at `first` is in its cooldown at every later
/// time less than `cooldown` after it, and out of it from then on; and the
/// delivery leaves every other rule as it was.
pub proof fn lemma_cooldown_gates_repeat(
    sent: Map<u64, u64>,
    cooldown: u64,
    rule: AlertRule,
    first: u64,
    second: u64,
)
    requires
        first <= second,
    ensures
        second - first < cooldown ==> in_cooldown(
            sent.insert(rule.code(), first),
            cooldown,
            rule,
            second,
        ),
        second - first >= cooldown ==> !in_cooldown(
            sent.insert(rule.code(), first),
            cooldown,
            rule,
            second,
        ),
        forall|other: AlertRule|
            other != rule ==> in_cooldown(sent.insert(rule.code(), first), cooldown, other, second)
                == in_cooldown(sent, cooldown, other, second),
{
}

/// What is due holds a rule exactly when the rule triggers and is not in its
/// cooldown, and then holds it once, with the rule's notification.
pub proof fn lemma_due_exactly_when_out_of_cooldown(
    manager: NotificationManager,
    analytics: UsageAnalytics,
    balance: u32,
    now: u64,
    rule: AlertRule,
)
    ensures
        (exists|i: int|
            0 <= i < manager.due(analytics, balance, now).len() && (#[trigger] manager.due(
                analytics,
                balance,
                now,
            )[i]).0 == rule) <==> (triggers(
            rule,
            analytics,
            balance,
            manager.low(),
            manager.critical(),
        ) && !in_cooldown(manager.last_sent(), manager.cooldown(), rule, now)),
        forall|i: int, j: int|
            0 <= i < j < manager.due(analytics, balance, now).len() ==> (#[trigger] manager.due(
                analytics,
                balance,
                now,
            )[i]).0 != (#[trigger] manager.due(analytics, balance, now)[j]).0,
        forall|i: int|
            0 <= i < manager.due(analytics, balance, now).len() ==> (#[trigger] manager.due(
                analytics,
                balance,
                now,
            )[i]).1 == rule_notification(
                manager.due(analytics, balance, now)[i].0,
                analytics,
                balance,
            ),
{
    let sent = manager.last_sent();
    let cooldown = manager.cooldown();
    let first = pending(
        sent,
        cooldown,
        balance_rule(balance, manager.low(), manager.critical()),
        analytics,
        balance,
        now,
    );
    let second = pending(
        sent,
        cooldown,
        time_rule(analytics.estimated_hours_remaining),
        analytics,
        balance,
        now,
    );
    let third = pending(
        sent,
        cooldown,
        usage_rule(analytics.usage_rate_per_hour, analytics.average_session_usage),
        analytics,
        balance,
        now,
    );
    let due = manager.due(analytics, balance, now);
    assert(due == first + second + third);
    if triggers(rule, analytics, balance, manager.low(), manager.critical()) && !in_cooldown(
        sent,
        cooldown,
        rule,
        now,
    ) {
        if balance_rule(balance, manager.low(), manager.critical()) == Some(rule) {
            assert(due[0].0 == rule);
        } else if time_rule(analytics.estimated_hours_remaining) == Some(rule) {
            assert(due[first.len() as int].0 == rule);
        } else {
            assert(due[(first.len() + second.len()) as int].0 == rule);
        }
    }
}

/// The state of the alert engine: when each rule was last delivered, the
/// cooldown, and the two balance thresholds.
pub struct NotificationManager {
    last_notifications: HashMap<u64, u64>,
    notification_cooldown: u64,
    low_threshold: u32,
    critical_threshold: u32,
}

impl NotificationManager {
    /// When each rule was last delivered, by the rule's code.
    pub closed spec fn last_sent(&self) -> Map<u64, u64> {
        self.last_notifications@
    }

    /// The cooldown in milliseconds.
    pub closed spec fn cooldown(&self) -> u64 {
        self.notification_cooldown
    }

    /// The balance at or below which a low-balance warning is due.
    pub closed spec fn low(&self) -> u32 {
        self.low_threshold
    }

    /// The balance at or below which a critical alert is due.
    pub closed spec fn critical(&self) -> u32 {
        self.critical_threshold
    }

    /// What `check_and_send_alerts` hands back: for each of the three groups
    /// of rules, in this order, the notification of the rule that triggered,
    /// unless that rule is in its cooldown.
    pub open spec fn due(&self, analytics: UsageAnalytics, balance: u32, now: u64) -> Seq<
        (AlertRule, NotificationText),
    > {
        pending(
            self.last_sent(),
            self.cooldown(),
            balance_rule(balance, self.low(), self.critical()),
            analytics,
            balance,
            now,
        ) + pending(
            self.last_sent(),
            self.cooldown(),
            time_rule(analytics.estimated_hours_remaining),
            analytics,
            balance,
            now,
        ) + pending(
            self.last_sent(),
            self.cooldown(),
            usage_rule(analytics.usage_rate_per_hour, analytics.average_session_usage),
            analytics,
            balance,
            now,
        )
    }

    /// An engine that has delivered nothing, with a cooldown of five minutes
    /// and thresholds of 500 and 100 credits.
    pub fn new() -> (manager: Self)
        ensures
            manager.last_sent() == Map::<u64, u64>::empty(),
            manager.cooldown() == 300_000,
            manager.low() == 500,
            manager.critical() == 100,
    {
        NotificationManager {
            last_notifications: HashMap::new(),
            notification_cooldown: 300_000,
            low_threshold: 500,
            critical_threshold: 100,
        }
    }

    /// Sets the cooldown, in milliseconds.
    pub fn set_cooldown_duration(&mut self, duration: u64)
        ensures
            final(self).cooldown() == duration,
            final(self).last_sent() == old(self).last_sent(),
            final(self).low() == old(self).low(),
            final(self).critical() == old(self).critical(),
    {
        self.notification_cooldown = duration;
    }

    /// Sets the two balance thresholds.
    pub fn set_thresholds(&mut self, low: u32, critical: u32)
        ensures
            final(self).low() == low,
            final(self).critical() == critical,
            final(self).cooldown() == old(self).cooldown(),
            final(self).last_sent() == old(self).last_sent(),
    {
        self.low_threshold = low;
        self.critical_threshold = critical;
    }

    /// Forgets every delivery, so that no rule is in its cooldown.
    pub fn clear_notification_history(&mut self)
        ensures
            final(self).last_sent() == Map::<u64, u64>::empty(),
            final(self).cooldown() == old(self).cooldown(),
            final(self).low() == old(self).low(),
            final(self).critical() == old(self).critical(),
    {
        self.last_notifications.clear();
    }

    /// Whether `rule` may be delivered at `now`: it may unless it was
    /// delivered less than the cooldown ago.
    pub fn should_send(&self, rule: AlertRule, now: u64) -> (send: bool)
        ensures
            send == !in_cooldown(self.last_sent(), self.cooldown(), rule, now),
    {
        let key = rule.key();
        match self.last_notifications.get(&key) {
            Some(last) => {
                let passed: u64 = if now >= *last {
                    now - *last
                } else {
                    0
                };
                passed >= self.notification_cooldown
            },
            None => true,
        }
    }

    /// Notes that `rule` was delivered at `now`.
    pub fn record_sent(&mut self, rule: AlertRule, now: u64)
        ensures
            final(self).last_sent() == old(self).last_sent().insert(rule.code(), now),
            final(self).cooldown() == old(self).cooldown(),
            final(self).low() == old(self).low(),
            final(self).critical() == old(self).critical(),
    {
        let key = rule.key();
        self.last_notifications.insert(key, now);
    }

    /// The notification with the given texts and level, with the icon of
    /// the level, the name of the monitor, and the time that it stays.
    pub fn send_notification(
        &self,
        title: &str,
        message: String,
        level: AlertLevel,
    ) -> (notification: Notification)
        ensures
            notification@ == notification_of(title@, message@, level),
    {
        let icon = match level {
            AlertLevel::Critical => "dialog-error",
            AlertLevel::Warning => "dialog-warning",
            AlertLevel::Info => "dialog-information",
        };
        Notification {
            title: String::from_str(title),
            message,
            level,
            icon: String::from_str(icon),
            app_name: String::from_str("orb Credit Monitor"),
            timeout: NOTIFICATION_TIMEOUT,
        }
    }

    /// The notification of a new balance.
    pub fn send_balance_update(
        &self,
        current_balance: u32,
        previous_balance: Option<u32>,
    ) -> (notification: Notification)
        ensures
            notification@ == notification_of(
                "Balance Update"@,
                balance_update_text(current_balance, previous_balance),
                AlertLevel::Info,
            ),
    {
        let message = match previous_balance {
            Some(before) => {
                if current_balance == before {
                    let mut message = String::from_str("Balance unchanged at ");
                    message.append(decimal_text(current_balance as u128).as_str());
                    message.append(" credits");
                    message
                } else {
                    let (mut message, change) = if current_balance < before {
                        (String::from_str("Balance decreased by "), before - current_balance)
                    } else {
                        (String::from_str("Balance increased by "), current_balance - before)
                    };
                    message.append(decimal_text(change as u128).as_str());
                    message.append(" to ");
                    message.append(decimal_text(current_balance as u128).as_str());
                    message.append(" credits");
                    message
                }
            },
            None => {
                let mut message = String::from_str("Current balance: ");
                message.append(decimal_text(current_balance as u128).as_str());
                message.append(" credits");
                message
            },
        };
        self.send_notification("Balance Update", message, AlertLevel::Info)
    }

    /// The notification of an error.
    pub fn send_error_notification(&self, error_message: &str) -> (notification: Notification)
        ensures
            notification@ == notification_of(
                "orb Monitor Error"@,
                "Error: "@ + error_message@,
                AlertLevel::Warning,
            ),
    {
        let message = String::from_str("Error: ").concat(error_message);
        self.send_notification("orb Monitor Error", message, AlertLevel::Warning)
    }

    /// The notification of the connection: that it is back, for
    /// information; or that it is lost, as a warning.
    pub fn send_connection_status(&self, is_connected: bool) -> (notification: Notification)
        ensures
            notification@ == if is_connected {
                notification_of(
                    "Connection Restored"@,
                    "Successfully reconnected to orb portal"@,
                    AlertLevel::Info,
                )
            } else {
                notification_of(
                    "Connection Lost"@,
                    "Unable to connect to orb portal"@,
                    AlertLevel::Warning,
                )
            },
    {
        if is_connected {
            self.send_notification(
                "Connection Restored",
                String::from_str("Successfully reconnected to orb portal"),
                AlertLevel::Info,
            )
        } else {
            self.send_notification(
                "Connection Lost",
                String::from_str("Unable to connect to orb portal"),
                AlertLevel::Warning,
            )
        }
    }

    /// One notification of each level, to try the delivery with.
    pub fn test_notifications(&self) -> (notifications: Vec<Notification>)
        ensures
            notifications@.map_values(|n: Notification| n@) == seq![
                notification_of(
                    "Test Notification - Info"@,
                    "This is a test info notification"@,
                    AlertLevel::Info,
                ),
                notification_of(
                    "Test Notification - Warning"@,
                    "This is a test warning notification"@,
                    AlertLevel::Warning,
                ),
                notification_of(
                    "Test Notification - Critical"@,
                    "This is a test critical notification"@,
                    AlertLevel::Critical,
                ),
            ],
    {
        let mut notifications: Vec<Notification> = Vec::new();
        notifications.push(
            self.send_notification(
                "Test Notification - Info",
                String::from_str("This is a test info notification"),
                AlertLevel::Info,
            ),
        );
        notifications.push(
            self.send_notification(
                "Test Notification - Warning",
                String::from_str("This is a test warning notification"),
                AlertLevel::Warning,
            ),
        );
        notifications.push(
            self.send_notification(
                "Test Notification - Critical",
                String::from_str("This is a test critical notification"),
                AlertLevel::Critical,
            ),
        );
        proof {
            assert(notifications@.map_values(|n: Notification| n@) =~= seq![
                notification_of(
                    "Test Notification - Info"@,
                    "This is a test info notification"@,
                    AlertLevel::Info,
                ),
                notification_of(
                    "Test Notification - Warning"@,
                    "This is a test warning notification"@,
                    AlertLevel::Warning,
                ),
                notification_of(
                    "Test Notification - Critical"@,
                    "This is a test critical notification"@,
                    AlertLevel::Critical,
                ),
            ]);
        }
        notifications
    }

    /// The notification of `rule`, if it may be delivered at `now`.
    fn prepare(&self, rule: AlertRule, analytics: &UsageAnalytics, balance: u32, now: u64) -> (out:
        Option<(AlertRule, Notification)>)
        requires
            analytics.wf(),
            rule == AlertRule::TimeCritical || rule == AlertRule::TimeWarning
                ==> analytics.estimated_hours_remaining is Some,
        ensures
            match out {
                Some(alert) => seq![alert_view(alert)],
                None => Seq::empty(),
            } == pending(self.last_sent(), self.cooldown(), Some(rule), *analytics, balance, now),
    {
        if !self.should_send(rule, now) {
            return None;
        }
        let notification = match rule {
            AlertRule::CriticalBalance => {
                let mut message = String::from_str("Only ");
                message.append(decimal_text(balance as u128).as_str());
                message.append(" credits remaining!");
                self.send_notification("Critical Balance Alert", message, AlertLevel::Critical)
            },
            AlertRule::LowBalance => {
                let mut message = decimal_text(balance as u128);
                message.append(" credits remaining");
                self.send_notification("Low Balance Warning", message, AlertLevel::Warning)
            },
            AlertRule::TimeCritical => {
                let mut message = String::from_str("Credits will run out in ");
                message.append(tenths_text(analytics.estimated_hours_remaining.unwrap()).as_str());
                message.append(" hours at current usage rate");
                self.send_notification("Credits Depleting Soon", message, AlertLevel::Critical)
            },
            AlertRule::TimeWarning => {
                let mut message = String::from_str("Credits will run out in ");
                message.append(tenths_text(analytics.estimated_hours_remaining.unwrap()).as_str());
                message.append(" hours at current usage rate");
                self.send_notification("Credits Running Low", message, AlertLevel::Warning)
            },
            AlertRule::HighUsage => {
                let mut message = String::from_str("Current usage rate (");
                message.append(tenths_text(analytics.usage_rate_per_hour).as_str());
                message.append("/hour) is significantly higher than average");
                self.send_notification("High Usage Detected", message, AlertLevel::Warning)
            },
        };
        Some((rule, notification))
    }

    /// The notifications to deliver at `now` for `analytics` and the balance
    /// `current_balance`. Nothing is noted as delivered: that is for
    /// `record_sent`, once a delivery has succeeded.
    pub fn check_and_send_alerts(
        &self,
        analytics: &UsageAnalytics,
        current_balance: u32,
        now: u64,
    ) -> (notifications: Vec<(AlertRule, Notification)>)
        requires
            analytics.wf(),
        ensures
            notifications@.map_values(|a: (AlertRule, Notification)| alert_view(a)) == self.due(
                *analytics,
                current_balance,
                now,
            ),
    {
        let mut notifications: Vec<(AlertRule, Notification)> = Vec::new();
        let ghost sent = self.last_sent();
        let ghost cooldown = self.cooldown();

        let on_balance = if current_balance <= self.critical_threshold {
            Some(AlertRule::CriticalBalance)
        } else if current_balance <= self.low_threshold {
            Some(AlertRule::LowBalance)
        } else {
            None
        };
        if let Some(rule) = on_balance {
            if let Some(n) = self.prepare(rule, analytics, current_balance, now) {
                notifications.push(n);
            }
        }
        let ghost first = notifications@.map_values(|a: (AlertRule, Notification)| alert_view(a));
        proof {
            assert(first =~= pending(
                sent,
                cooldown,
                balance_rule(current_balance, self.low(), self.critical()),
                *analytics,
                current_balance,
                now,
            ));
        }

        let on_time = match analytics.estimated_hours_remaining {
            Some(hours) => {
                if hours.num <= 2 * hours.den {
                    Some(AlertRule::TimeCritical)
                } else if hours.num <= 24 * hours.den {
                    Some(AlertRule::TimeWarning)
                } else {
                    None
                }
            },
            None => None,
        };
        if let Some(rule) = on_time {
            if let Some(n) = self.prepare(rule, analytics, current_balance, now) {
                notifications.push(n);
            }
        }
        let ghost second = notifications@.map_values(|a: (AlertRule, Notification)| alert_view(a));
        proof {
            assert(second =~= first + pending(
                sent,
                cooldown,
                time_rule(analytics.estimated_hours_remaining),
                *analytics,
                current_balance,
                now,
            ));
        }

        let rate = analytics.usage_rate_per_hour;
        let average = analytics.average_session_usage;
        proof {
            assert(rate.num * average.den <= 60 * 0x7fff_fffe_8000_0001 * 0x7fff_ffff)
                by (nonlinear_arith)
                requires
                    rate.num <= 60 * 0x7fff_fffe_8000_0001,
                    average.den <= 0x7fff_ffff,
            ;
            assert(2 * average.num * rate.den <= 2 * 0x7fff_fffe_8000_0001 * 0x7fff_fffe_8000_0001)
                by (nonlinear_arith)
                requires
                    average.num <= 0x7fff_fffe_8000_0001,
                    rate.den <= 0x7fff_fffe_8000_0001,
            ;
        }
        let on_usage = if rate.num > 0 && rate.num * average.den > 2 * average.num * rate.den {
            Some(AlertRule::HighUsage)
        } else {
            None
        };
        if let Some(rule) = on_usage {
            if let Some(n) = self.prepare(rule, analytics, current_balance, now) {
                notifications.push(n);
            }
        }
        proof {
            assert(notifications@.map_values(|a: (AlertRule, Notification)| alert_view(a)) =~= second
                + pending(
                sent,
                cooldown,
                usage_rule(rate, average),
                *analytics,
                current_balance,
                now,
            ));
        }
        notifications
    }
}

/// What a notification of a new balance says: by how much it went down or
/// up from the one before, or that it is unchanged; without one before, the
/// balance alone.
pub open spec fn balance_update_text(current: u32, previous: Option<u32>) -> Seq<char> {
    match previous {
        Some(before) => if current < before {
            "Balance decreased by "@ + decimal_digits((before - current) as nat) + " to "@
                + decimal_digits(current as nat) + " credits"@
        } else if current > before {
            "Balance increased by "@ + decimal_digits((current - before) as nat) + " to "@
                + decimal_digits(current as nat) + " credits"@
        } else {
            "Balance unchanged at "@ + decimal_digits(current as nat) + " credits"@
        },
        None => "Current balance: "@ + decimal_digits(current as nat) + " credits"@,
    }
}

} // verus!
