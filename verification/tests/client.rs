use credit_monitor::augment_client::{
    usage_summary, AugmentClient, ConsumptionDataPoint, CreditConsumptionResponse, CreditsResponse,
    DailyUsage, DateRange, Endpoint, SubscriptionResponse, UserResponse,
};
use credit_monitor::error::AppError;
use credit_monitor::text::{date_part, parse_positive, parse_signed};

fn point(start: &str, credits: Option<&str>, key: Option<&str>) -> ConsumptionDataPoint {
    ConsumptionDataPoint {
        date_range: DateRange { start_date_iso: start.to_string(), end_date_iso: String::new() },
        credits_consumed: credits.map(|s| s.to_string()),
        group_key: key.map(|s| s.to_string()),
    }
}

fn client() -> AugmentClient {
    AugmentClient::new("abc".to_string())
}

fn subscription(included: i64, trial: i64) -> SubscriptionResponse {
    SubscriptionResponse {
        portal_url: None,
        plan_id: "p".to_string(),
        plan_type: 1,
        plan_name: "Pro".to_string(),
        billing_period_end: "2025-12-01".to_string(),
        trial_period_end: None,
        credit_consumption_min_date: None,
        credits_renewing_each_billing_cycle: 0,
        credits_included_this_billing_cycle: included,
        billing_cycle_billing_amount: String::new(),
        monthly_total_cost: String::new(),
        price_per_seat: String::new(),
        max_num_seats: 1,
        number_of_seats_this_billing_cycle: 1,
        number_of_seats_next_billing_cycle: 1,
        subscription_end_date: None,
        plan_is_expired: false,
        auto_top_up_available: false,
        teams_allowed: false,
        additional_usage_unit_cost: String::new(),
        scheduled_target_plan_id: None,
        usage_unit_display_name: String::new(),
        usage_units_per_seat: 0,
        plan_facts: vec![],
        trial_grant: trial,
        cancelled_due_to_payment_failure: false,
        is_cancellation_immediate: false,
        next_billing_cycle_plan_name: String::new(),
    }
}

fn user(email: &str) -> UserResponse {
    UserResponse {
        email: email.to_string(),
        is_admin: false,
        is_self_serve_team_member: false,
        tenant_tier: String::new(),
        is_subscription_pending: false,
        show_team_management_link: false,
        user_source_submitted: false,
        business_email_verified: false,
        preferred_team_name: String::new(),
    }
}

#[test]
fn daily_usage_keeps_days_with_credits() {
    let consumption = CreditConsumptionResponse {
        data_points: vec![
            point("2025-11-06T00:00:00Z", Some("120"), None),
            point("2025-11-07T00:00:00Z", Some("0"), None),
            point("2025-11-08T00:00:00Z", None, None),
            point("2025-11-09T00:00:00Z", Some("-5"), None),
            point("2025-11-10T00:00:00Z", Some("12.5"), None),
            point("2025-11-11", Some("+7"), Some("ignored")),
            point("", Some("9223372036854775807"), None),
            point("T", Some("9223372036854775808"), None),
        ],
    };
    let days: Vec<(String, i64)> = client()
        .to_daily_usage(&consumption)
        .into_iter()
        .map(|d| (d.date, d.total_credits))
        .collect();
    assert_eq!(
        days,
        vec![
            ("2025-11-06".to_string(), 120),
            ("2025-11-11".to_string(), 7),
            (String::new(), i64::MAX),
        ]
    );
}

#[test]
fn grouped_usage_needs_a_group() {
    let consumption = CreditConsumptionResponse {
        data_points: vec![
            point("d", Some("10"), Some("alpha")),
            point("d", Some("20"), None),
            point("d", Some("x"), Some("beta")),
            point("d", Some("30"), Some("")),
        ],
    };
    let models: Vec<(String, i64)> = client()
        .to_model_usage(&consumption)
        .into_iter()
        .map(|m| (m.model_name, m.credits))
        .collect();
    assert_eq!(models, vec![("alpha".to_string(), 10), (String::new(), 30)]);
    let activities: Vec<(String, i64)> = client()
        .to_activity_usage(&consumption)
        .into_iter()
        .map(|a| (a.activity_type, a.credits))
        .collect();
    assert_eq!(activities, models);
}

#[test]
fn texts_of_dates_and_numbers() {
    assert_eq!(date_part("2025-11-06T00:00:00Z"), "2025-11-06");
    assert_eq!(date_part("2025-11-06"), "2025-11-06");
    assert_eq!(date_part("T12"), "");
    assert_eq!(date_part(""), "");
    assert_eq!(date_part("día T1"), "día ");
    assert_eq!(parse_positive("15"), Some(15));
    assert_eq!(parse_positive("+15"), Some(15));
    assert_eq!(parse_positive("0"), None);
    assert_eq!(parse_positive("-15"), None);
    assert_eq!(parse_positive(""), None);
    assert_eq!(parse_positive("1 "), None);
}

#[test]
fn addresses() {
    let c = client();
    assert_eq!(c.cookie_header(), "_session=abc");
    assert_eq!(c.endpoint_url(Endpoint::Credits), "https://app.augmentcode.com/api/credits");
    assert_eq!(c.endpoint_url(Endpoint::Subscription), "https://app.augmentcode.com/api/subscription");
    assert_eq!(c.endpoint_url(Endpoint::User), "https://app.augmentcode.com/api/user");
    // 2025-11-06 12:00:00 UTC
    let now = 1_762_430_400;
    assert_eq!(
        c.report_url(Endpoint::CreditAnalytics, 30, now).unwrap(),
        "https://app.augmentcode.com/api/credit-analytics-info?startDateIso=2025-10-07T00%3A00%3A00.000Z&endDateIso=2025-11-06T00%3A00%3A00.000Z"
    );
    assert_eq!(
        c.report_url(Endpoint::DailyConsumption, 0, now).unwrap(),
        "https://app.augmentcode.com/api/credit-consumption?groupBy=NONE&granularity=DAY&startDateIso=2025-11-06T00%3A00%3A00.000Z&endDateIso=2025-11-06T00%3A00%3A00.000Z"
    );
    assert!(c
        .report_url(Endpoint::ModelConsumption, 1, now)
        .unwrap()
        .starts_with("https://app.augmentcode.com/api/credit-consumption?groupBy=MODEL_NAME&granularity=TOTAL&startDateIso=2025-11-05T"));
    assert!(c
        .report_url(Endpoint::ActivityConsumption, 1, now)
        .unwrap()
        .contains("groupBy=ACTIVITY_TYPE&granularity=TOTAL&"));
    assert!(c.report_url(Endpoint::DailyConsumption, 1, i64::MIN).is_none());
    assert!(c.report_url(Endpoint::DailyConsumption, 1, i64::MAX).is_none());
}

#[test]
fn status_of_an_answer() {
    let c = client();
    assert!(c.check_status(Endpoint::Credits, 200).is_ok());
    assert!(c.check_status(Endpoint::User, 299).is_ok());
    let refusal = |endpoint, status| match c.check_status(endpoint, status) {
        Err(AppError::Auth(m)) => m,
        other => panic!("unexpected outcome: {:?}", other),
    };
    assert_eq!(refusal(Endpoint::Credits, 401), "API error: 401 - Session may have expired");
    assert_eq!(refusal(Endpoint::Subscription, 300), "Subscription API error: 300");
    assert_eq!(refusal(Endpoint::User, 199), "User API error: 199");
    assert_eq!(refusal(Endpoint::CreditAnalytics, 500), "Credit analytics API error: 500");
    assert_eq!(refusal(Endpoint::DailyConsumption, 500), "Daily consumption API error: 500");
    assert_eq!(refusal(Endpoint::ModelConsumption, 500), "Model consumption API error: 500");
    assert_eq!(refusal(Endpoint::ActivityConsumption, 500), "Activity consumption API error: 500");
}

#[test]
fn session_validity() {
    let c = client();
    assert_eq!(c.validate_session(Ok(user("a@b.c"))).unwrap(), true);
    assert_eq!(c.validate_session(Err(AppError::Auth("no".to_string()))).unwrap(), false);
    match c.validate_session(Err(AppError::Timeout)) {
        Err(AppError::Timeout) => {}
        other => panic!("unexpected outcome: {:?}", other),
    }
}

#[test]
fn balance_info_and_balance() {
    let credits = CreditsResponse {
        usage_units_available: 10,
        usage_units_used_this_billing_cycle: 20,
        usage_units_remaining: 2666,
        usage_units_consumed_this_billing_cycle: 40,
    };
    let info = client().fetch_balance_info(&credits, subscription(5000, 250), user("a@b.c"));
    assert_eq!(info.credits_remaining, 2666);
    assert_eq!(info.credits_used, 40);
    assert_eq!(info.credits_total, 5250);
    assert_eq!(info.plan_name, "Pro");
    assert_eq!(info.billing_period_end, "2025-12-01");
    assert_eq!(info.user_email, "a@b.c");
    assert_eq!(credits.balance(), 2666);
    let odd = |remaining: i64| CreditsResponse { usage_units_remaining: remaining, ..credits }.balance();
    assert_eq!(odd(0), 0);
    assert_eq!(odd(-1), u32::MAX);
    assert_eq!(odd(1 << 32), 0);
    assert_eq!(odd((1 << 32) + 5), 5);
    assert_eq!(odd(i64::MIN), 0);
    assert_eq!(odd(i64::MAX), u32::MAX);
}

#[test]
fn summary_of_days() {
    let days = vec![
        DailyUsage { date: "a".to_string(), total_credits: 10 },
        DailyUsage { date: "b".to_string(), total_credits: 32 },
        DailyUsage { date: "c".to_string(), total_credits: i64::MAX },
    ];
    assert_eq!(usage_summary(&days), (i64::MAX as i128 + 42, 3));
    assert_eq!(usage_summary(&vec![]), (0, 0));
}

#[test]
fn reports_are_put_together() {
    let daily = CreditConsumptionResponse {
        data_points: vec![
            point("2025-11-06T00:00:00Z", Some("120"), None),
            point("2025-11-07T00:00:00Z", Some("30"), None),
            point("2025-11-08T00:00:00Z", Some("nothing"), None),
        ],
    };
    let by_model = CreditConsumptionResponse { data_points: vec![point("d", Some("9"), Some("m"))] };
    let overview =
        client().fetch_augment_analytics(Some("-15"), Some(4), Some(daily), Some(by_model), None, 30);
    assert_eq!(overview.total_credits_consumed, -15);
    assert_eq!(overview.active_users, 4);
    assert_eq!(overview.daily_usage.len(), 2);
    assert_eq!(overview.model_usage.len(), 1);
    assert_eq!(overview.activity_usage.len(), 0);
    assert_eq!(overview.total_credits_used, 150);
    assert_eq!(overview.days_with_data, 2);
    assert_eq!((overview.avg_daily_usage.num, overview.avg_daily_usage.den), (150, 2));
    assert_eq!(overview.period_days, 30);
    let empty = client().fetch_augment_analytics(Some("much"), None, None, None, None, 7);
    assert_eq!(empty.total_credits_consumed, 0);
    assert_eq!(empty.active_users, 1);
    assert_eq!(empty.days_with_data, 0);
    assert_eq!((empty.avg_daily_usage.num, empty.avg_daily_usage.den), (0, 1));
    assert_eq!(client().fetch_augment_analytics(None, None, None, None, None, 7).total_credits_consumed, 0);
}

#[test]
fn signed_numbers() {
    assert_eq!(parse_signed("0"), Some(0));
    assert_eq!(parse_signed("-0"), Some(0));
    assert_eq!(parse_signed("+42"), Some(42));
    assert_eq!(parse_signed("-42"), Some(-42));
    assert_eq!(parse_signed("9223372036854775807"), Some(i64::MAX));
    assert_eq!(parse_signed("9223372036854775808"), None);
    assert_eq!(parse_signed("-9223372036854775808"), Some(i64::MIN));
    assert_eq!(parse_signed("-9223372036854775809"), None);
    assert_eq!(parse_signed("-"), None);
    assert_eq!(parse_signed("+"), None);
    assert_eq!(parse_signed("+-1"), None);
    assert_eq!(parse_signed("-+1"), None);
    assert_eq!(parse_signed(""), None);
    assert_eq!(parse_signed("1.0"), None);
}

#[test]
fn headers_of_a_request() {
    let headers = client().build_headers();
    assert_eq!(headers.len(), 2);
    assert_eq!(headers[0].0, "User-Agent");
    assert!(headers[0].1.starts_with("Mozilla/5.0 (Macintosh;"));
    assert_eq!(headers[1], ("Cookie".to_string(), "_session=abc".to_string()));
}
