//! The session-based backend: the shapes of its answers, and what is read
//! out of them.

use vstd::prelude::*;
use vstd::string::{StringExecFns, StringSliceAdditionalSpecFns};
use vstd::utf8::encode_utf8;
use crate::error::{AppError, AppResult};
use crate::ratio::Ratio;
use crate::text::{
    before_time, date_part, decimal_digits, decimal_text, parse_positive, parse_signed,
    positive_value, signed_value,
};

verus! {

/// The answer to a request for the credit balance.
#[derive(Clone, Copy, Debug, PartialEq, Eq, Structural)]
pub struct CreditsResponse {
    pub usage_units_available: i64,
    pub usage_units_used_this_billing_cycle: i64,
    pub usage_units_remaining: i64,
    pub usage_units_consumed_this_billing_cycle: i64,
}

/// The answer to a request for the subscription.
#[derive(Debug)]
pub struct SubscriptionResponse {
    pub portal_url: Option<String>,
    pub plan_id: String,
    pub plan_type: i32,
    pub plan_name: String,
    pub billing_period_end: String,
    pub trial_period_end: Option<String>,
    pub credit_consumption_min_date: Option<String>,
    pub credits_renewing_each_billing_cycle: i64,
    pub credits_included_this_billing_cycle: i64,
    pub billing_cycle_billing_amount: String,
    pub monthly_total_cost: String,
    pub price_per_seat: String,
    pub max_num_seats: i32,
    pub number_of_seats_this_billing_cycle: i32,
    pub number_of_seats_next_billing_cycle: i32,
    pub subscription_end_date: Option<String>,
    pub plan_is_expired: bool,
    pub auto_top_up_available: bool,
    pub teams_allowed: bool,
    pub additional_usage_unit_cost: String,
    pub scheduled_target_plan_id: Option<String>,
    pub usage_unit_display_name: String,
    pub usage_units_per_seat: i64,
    pub plan_facts: Vec<String>,
    pub trial_grant: i64,
    pub cancelled_due_to_payment_failure: bool,
    pub is_cancellation_immediate: bool,
    pub next_billing_cycle_plan_name: String,
}

/// The answer to a request for the user.
#[derive(Debug)]
pub struct UserResponse {
    pub email: String,
    pub is_admin: bool,
    pub is_self_serve_team_member: bool,
    pub tenant_tier: String,
    pub is_subscription_pending: bool,
    pub show_team_management_link: bool,
    pub user_source_submitted: bool,
    pub business_email_verified: bool,
    pub preferred_team_name: String,
}

/// The span of time that a data point covers.
#[derive(Debug)]
pub struct DateRange {
    pub start_date_iso: String,
    pub end_date_iso: String,
}

/// One data point of a consumption report.
#[derive(Debug)]
pub struct ConsumptionDataPoint {
    pub date_range: DateRange,
    pub credits_consumed: Option<String>,
    pub group_key: Option<String>,
}

/// The answer to a request for a consumption report.
#[derive(Debug)]
pub struct CreditConsumptionResponse {
    pub data_points: Vec<ConsumptionDataPoint>,
}

/// The credits used on one day.
#[derive(Debug)]
pub struct DailyUsage {
    pub date: String,
    pub total_credits: i64,
}

/// The credits used by one model.
#[derive(Debug)]
pub struct ModelUsage {
    pub model_name: String,
    pub credits: i64,
}

/// The credits used by one kind of activity.
#[derive(Debug)]
pub struct ActivityUsage {
    pub activity_type: String,
    pub credits: i64,
}

/// Balance, plan and user in one.
#[derive(Debug)]
pub struct AugmentBalanceInfo {
    pub credits_remaining: i64,
    pub credits_used: i64,
    pub credits_total: i64,
    pub plan_name: String,
    pub billing_period_end: String,
    pub user_email: String,
}

impl CreditsResponse {
    /// The balance that the answer stands for: the low 32 bits of the units
    /// that remain.
    pub fn balance(&self) -> (balance: u32)
        ensures
            balance == (self.usage_units_remaining as int) % 0x1_0000_0000,
    {
        let low: i64 = self.usage_units_remaining % 0x1_0000_0000;
        if low < 0 {
            (low + 0x1_0000_0000) as u32
        } else {
            low as u32
        }
    }
}

/// The credits used over a series of days.
pub open spec fn credits_sum(days: Seq<DailyUsage>) -> int
    decreases days.len(),
{
    if days.len() == 0 {
        0
    } else {
        credits_sum(days.drop_last()) + days.last().total_credits
    }
}

/// The credits used over a series of days and the number of days. The mean
/// per day is the first over the second.
pub fn usage_summary(days: &Vec<DailyUsage>) -> (summary: (i128, usize))
    ensures
        summary.0 == credits_sum(days@),
        summary.1 == days@.len(),
{
    let mut total: i128 = 0;
    let mut i: usize = 0;
    while i < days.len()
        invariant
            i <= days.len(),
            total == credits_sum(days@.subrange(0, i as int)),
            -0x8000_0000_0000_0000 * i <= total <= 0x7fff_ffff_ffff_ffff * i,
        decreases days.len() - i,
    {
        proof {
            assert(days@.subrange(0, i + 1).drop_last() =~= days@.subrange(0, i as int));
        }
        total = total + days[i].total_credits as i128;
        i = i + 1;
    }
    proof {
        assert(days@.subrange(0, i as int) =~= days@);
    }
    (total, days.len())
}

/// The credits of a data point: the positive number that its text denotes.
pub open spec fn point_credits(point: ConsumptionDataPoint) -> Option<i64> {
    match point.credits_consumed {
        Some(text) => positive_value(encode_utf8(text@)),
        None => None,
    }
}

/// The day and the credits of a data point that holds credits.
pub open spec fn daily_of(point: ConsumptionDataPoint) -> Option<(Seq<char>, i64)> {
    match point_credits(point) {
        Some(credits) => Some((before_time(point.date_range.start_date_iso@), credits)),
        None => None,
    }
}

/// The group and the credits of a data point that holds credits and names
/// its group.
pub open spec fn grouped_of(point: ConsumptionDataPoint) -> Option<(Seq<char>, i64)> {
    match (point_credits(point), point.group_key) {
        (Some(credits), Some(key)) => Some((key@, credits)),
        _ => None,
    }
}

/// The credits of a data point.
fn credits_of(point: &ConsumptionDataPoint) -> (credits: Option<i64>)
    ensures
        credits == point_credits(*point),
        credits matches Some(c) ==> c > 0,
{
    match &point.credits_consumed {
        Some(text) => parse_positive(text.as_str()),
        None => None,
    }
}

/// The address of the backend.
pub open spec fn base_url() -> Seq<char> {
    "https://app.augmentcode.com"@
}

/// The requests that the backend answers.
#[derive(Clone, Copy, Debug, PartialEq, Eq, Structural)]
pub enum Endpoint {
    Credits,
    Subscription,
    User,
    CreditAnalytics,
    DailyConsumption,
    ModelConsumption,
    ActivityConsumption,
}

impl Endpoint {
    /// The path of the request, with its fixed parameters.
    pub open spec fn path(self) -> Seq<char> {
        match self {
            Endpoint::Credits => "/api/credits"@,
            Endpoint::Subscription => "/api/subscription"@,
            Endpoint::User => "/api/user"@,
            Endpoint::CreditAnalytics => "/api/credit-analytics-info?"@,
            Endpoint::DailyConsumption => "/api/credit-consumption?groupBy=NONE&granularity=DAY&"@,
            Endpoint::ModelConsumption =>
                "/api/credit-consumption?groupBy=MODEL_NAME&granularity=TOTAL&"@,
            Endpoint::ActivityConsumption =>
                "/api/credit-consumption?groupBy=ACTIVITY_TYPE&granularity=TOTAL&"@,
        }
    }

    /// The request covers a span of days.
    pub open spec fn ranged(self) -> bool {
        match self {
            Endpoint::Credits => false,
            Endpoint::Subscription => false,
            Endpoint::User => false,
            _ => true,
        }
    }

    /// How the refusal of the request begins.
    pub open spec fn refusal(self) -> Seq<char> {
        match self {
            Endpoint::Credits => "API error: "@,
            Endpoint::Subscription => "Subscription API error: "@,
            Endpoint::User => "User API error: "@,
            Endpoint::CreditAnalytics => "Credit analytics API error: "@,
            Endpoint::DailyConsumption => "Daily consumption API error: "@,
            Endpoint::ModelConsumption => "Model consumption API error: "@,
            Endpoint::ActivityConsumption => "Activity consumption API error: "@,
        }
    }

    /// How the refusal of the request ends.
    pub open spec fn refusal_end(self) -> Seq<char> {
        match self {
            Endpoint::Credits => " - Session may have expired"@,
            _ => Seq::empty(),
        }
    }

    /// The path of the request.
    fn write_path(&self) -> (path: &'static str)
        ensures
            path@ == self.path(),
    {
        match self {
            Endpoint::Credits => "/api/credits",
            Endpoint::Subscription => "/api/subscription",
            Endpoint::User => "/api/user",
            Endpoint::CreditAnalytics => "/api/credit-analytics-info?",
            Endpoint::DailyConsumption => "/api/credit-consumption?groupBy=NONE&granularity=DAY&",
            Endpoint::ModelConsumption =>
                "/api/credit-consumption?groupBy=MODEL_NAME&granularity=TOTAL&",
            Endpoint::ActivityConsumption =>
                "/api/credit-consumption?groupBy=ACTIVITY_TYPE&granularity=TOTAL&",
        }
    }
}

/// The byte needs no escape in a parameter: a letter, a digit, or one of
/// `-`, `.`, `_`, `~`.
pub open spec fn unreserved(b: u8) -> bool {
    (48 <= b <= 57) || (65 <= b <= 90) || (97 <= b <= 122) || b == 45 || b == 46 || b == 95 || b
        == 126
}

/// The digit of a value below 16 in hexadecimal, in upper case.
pub open spec fn hex_digit(n: int) -> u8 {
    if n < 10 {
        (48 + n) as u8
    } else {
        (55 + n) as u8
    }
}

/// A text with every byte that needs an escape written as a percent sign
/// and two hexadecimal digits.
pub open spec fn percent_encoded(s: Seq<u8>) -> Seq<u8>
    decreases s.len(),
{
    if s.len() == 0 {
        Seq::empty()
    } else if unreserved(s.last()) {
        percent_encoded(s.drop_last()).push(s.last())
    } else {
        percent_encoded(s.drop_last()) + seq![
            37u8,
            hex_digit(s.last() as int / 16),
            hex_digit(s.last() as int % 16),
        ]
    }
}

/// Calls `urlencoding::encode`, which escapes every byte but letters,
/// digits and `-`, `.`, `_`, `~` as a percent sign and two hexadecimal digits
/// in upper case.
#[verifier::external_body]
fn percent_encode(text: &str) -> (encoded: String)
    ensures
        encode_utf8(encoded@) == percent_encoded(encode_utf8(text@)),
{
    urlencoding::encode(text).into_owned()
}

/// The calendar day, in UTC, of an instant given in seconds since the Unix
/// epoch, written as year, month and day, as the `chrono` crate writes it;
/// none where the crate cannot hold the instant.
pub uninterp spec fn calendar_day(seconds: i64) -> Option<Seq<char>>;

/// Makes the instant with `chrono::DateTime::from_timestamp` and writes its
/// day with `DateTime::format`. The result is what `calendar_day` names.
#[verifier::external_body]
fn write_calendar_day(seconds: i64) -> (day: Option<String>)
    ensures
        match day {
            Some(d) => calendar_day(seconds) == Some(d@),
            None => calendar_day(seconds) is None,
        },
{
    chrono::DateTime::from_timestamp(seconds, 0).map(|d| d.format("%Y-%m-%d").to_string())
}

/// The start of the day of an instant, in ISO form.
pub open spec fn day_start(seconds: i64) -> Option<Seq<char>> {
    match calendar_day(seconds) {
        Some(day) => Some(day + "T00:00:00.000Z"@),
        None => None,
    }
}

/// The instant `days` days before `now`, in seconds; none where it is out
/// of the range of 64 bits.
pub open spec fn days_before(now: i64, days: u32) -> Option<i64> {
    if now - days * 86_400 >= i64::MIN {
        Some((now - days * 86_400) as i64)
    } else {
        None
    }
}

/// The parameters that give a span of days.
pub open spec fn range_parameters(start: Seq<char>, end: Seq<char>) -> Seq<u8> {
    "startDateIso=".spec_bytes() + percent_encoded(encode_utf8(start)) + "&endDateIso=".spec_bytes()
        + percent_encoded(encode_utf8(end))
}

/// Writes the start of the day of an instant.
fn write_day_start(seconds: i64) -> (text: Option<String>)
    ensures
        match text {
            Some(t) => day_start(seconds) == Some(t@),
            None => day_start(seconds) is None,
        },
{
    match write_calendar_day(seconds) {
        Some(day) => Some(day.concat("T00:00:00.000Z")),
        None => None,
    }
}

/// The client of the session-based backend: it holds the session cookie.
pub struct AugmentClient {
    session_cookie: String,
}

impl AugmentClient {
    /// The session cookie.
    pub closed spec fn cookie(&self) -> Seq<char> {
        self.session_cookie@
    }

    /// A client that holds the given session cookie.
    pub fn new(session_cookie: String) -> (client: Self)
        ensures
            client.cookie() == session_cookie@,
    {
        AugmentClient { session_cookie }
    }

    /// The value of the cookie header that carries the session.
    pub fn cookie_header(&self) -> (header: String)
        ensures
            header@ == "_session="@ + self.cookie(),
    {
        String::from_str("_session=").concat(self.session_cookie.as_str())
    }

    /// The headers that a request carries: the name of the browser, and the
    /// cookie of the session.
    pub fn build_headers(&self) -> (headers: Vec<(String, String)>)
        ensures
            headers@.map_values(|h: (String, String)| (h.0@, h.1@)) == seq![
                (
                    "User-Agent"@,
                    "Mozilla/5.0 (Macintosh; Intel Mac OS X 10_15_7) AppleWebKit/537.36 (KHTML, like Gecko) Chrome/120.0.0.0 Safari/537.36"@,
                ),
                ("Cookie"@, "_session="@ + self.cookie()),
            ],
    {
        let mut headers: Vec<(String, String)> = Vec::new();
        headers.push(
            (
                String::from_str("User-Agent"),
                String::from_str(
                    "Mozilla/5.0 (Macintosh; Intel Mac OS X 10_15_7) AppleWebKit/537.36 (KHTML, like Gecko) Chrome/120.0.0.0 Safari/537.36",
                ),
            ),
        );
        headers.push((String::from_str("Cookie"), self.cookie_header()));
        proof {
            assert(headers@.map_values(|h: (String, String)| (h.0@, h.1@)) =~= seq![
                (
                    "User-Agent"@,
                    "Mozilla/5.0 (Macintosh; Intel Mac OS X 10_15_7) AppleWebKit/537.36 (KHTML, like Gecko) Chrome/120.0.0.0 Safari/537.36"@,
                ),
                ("Cookie"@, "_session="@ + self.cookie()),
            ]);
        }
        headers
    }

    /// The address of a request that covers no span of days.
    pub fn endpoint_url(&self, endpoint: Endpoint) -> (url: String)
        requires
            !endpoint.ranged(),
        ensures
            url@ == base_url() + endpoint.path(),
    {
        String::from_str("https://app.augmentcode.com").concat(endpoint.write_path())
    }

    /// The address of a request that covers the `days` days before `now`,
    /// given in seconds since the Unix epoch: from the start of the first
    /// day to the start of the last. There is none where a day is out of
    /// range.
    pub fn report_url(&self, endpoint: Endpoint, days: u32, now: i64) -> (url: Option<String>)
        requires
            endpoint.ranged(),
        ensures
            match url {
                Some(u) => {
                    &&& days_before(now, days) is Some
                    &&& day_start(days_before(now, days)->0) is Some
                    &&& day_start(now) is Some
                    &&& encode_utf8(u@) == encode_utf8(base_url() + endpoint.path())
                        + range_parameters(
                        day_start(days_before(now, days)->0)->0,
                        day_start(now)->0,
                    )
                },
                None => days_before(now, days) is None || day_start(days_before(now, days)->0)
                    is None || day_start(now) is None,
            },
    {
        let earlier: i128 = now as i128 - (days as i128) * 86_400;
        if earlier < -0x8000_0000_0000_0000 {
            return None;
        }
        let start = match write_day_start(earlier as i64) {
            Some(s) => s,
            None => {
                return None;
            },
        };
        let end = match write_day_start(now) {
            Some(e) => e,
            None => {
                return None;
            },
        };
        let mut url = String::from_str("https://app.augmentcode.com").concat(
            endpoint.write_path(),
        );
        let ghost stem = url@;
        let first = percent_encode(start.as_str());
        let second = percent_encode(end.as_str());
        url.append("startDateIso=");
        url.append(first.as_str());
        url.append("&endDateIso=");
        url.append(second.as_str());
        proof {
            lemma_bytes_of_joined(stem, "startDateIso="@);
            lemma_bytes_of_joined(stem + "startDateIso="@, first@);
            lemma_bytes_of_joined(stem + "startDateIso="@ + first@, "&endDateIso="@);
            lemma_bytes_of_joined(stem + "startDateIso="@ + first@ + "&endDateIso="@, second@);
        }
        Some(url)
    }

    /// The days on which credits were used, with the credits of each.
    pub fn to_daily_usage(&self, consumption: &CreditConsumptionResponse) -> (usage: Vec<
        DailyUsage,
    >)
        ensures
            usage@.map_values(|d: DailyUsage| (d.date@, d.total_credits))
                == consumption.data_points@.filter_map(|p: ConsumptionDataPoint| daily_of(p)),
    {
        let points = &consumption.data_points;
        let mut usage: Vec<DailyUsage> = Vec::new();
        let mut i: usize = 0;
        while i < points.len()
            invariant
                i <= points.len(),
                usage@.map_values(|d: DailyUsage| (d.date@, d.total_credits)) == points@.subrange(
                    0,
                    i as int,
                ).filter_map(|p: ConsumptionDataPoint| daily_of(p)),
            decreases points.len() - i,
        {
            let ghost before = usage@.map_values(|d: DailyUsage| (d.date@, d.total_credits));
            proof {
                assert(points@.subrange(0, i + 1).drop_last() =~= points@.subrange(0, i as int));
            }
            if let Some(credits) = credits_of(&points[i]) {
                let date = date_part(points[i].date_range.start_date_iso.as_str());
                usage.push(DailyUsage { date, total_credits: credits });
                proof {
                    assert(usage@.map_values(|d: DailyUsage| (d.date@, d.total_credits))
                        =~= before + seq![daily_of(points@[i as int])->0]);
                }
            }
            i = i + 1;
        }
        proof {
            assert(points@.subrange(0, i as int) =~= points@);
        }
        usage
    }

    /// The models that used credits, with the credits of each.
    pub fn to_model_usage(&self, consumption: &CreditConsumptionResponse) -> (usage: Vec<
        ModelUsage,
    >)
        ensures
            usage@.map_values(|m: ModelUsage| (m.model_name@, m.credits))
                == consumption.data_points@.filter_map(|p: ConsumptionDataPoint| grouped_of(p)),
    {
        let points = &consumption.data_points;
        let mut usage: Vec<ModelUsage> = Vec::new();
        let mut i: usize = 0;
        while i < points.len()
            invariant
                i <= points.len(),
                usage@.map_values(|m: ModelUsage| (m.model_name@, m.credits)) == points@.subrange(
                    0,
                    i as int,
                ).filter_map(|p: ConsumptionDataPoint| grouped_of(p)),
            decreases points.len() - i,
        {
            let ghost before = usage@.map_values(|m: ModelUsage| (m.model_name@, m.credits));
            proof {
                assert(points@.subrange(0, i + 1).drop_last() =~= points@.subrange(0, i as int));
            }
            if let Some(credits) = credits_of(&points[i]) {
                if let Some(key) = &points[i].group_key {
                    usage.push(ModelUsage { model_name: key.clone(), credits });
                    proof {
                        assert(usage@.map_values(|m: ModelUsage| (m.model_name@, m.credits))
                            =~= before + seq![grouped_of(points@[i as int])->0]);
                    }
                }
            }
            i = i + 1;
        }
        proof {
            assert(points@.subrange(0, i as int) =~= points@);
        }
        usage
    }

    /// The kinds of activity that used credits, with the credits of each.
    pub fn to_activity_usage(&self, consumption: &CreditConsumptionResponse) -> (usage: Vec<
        ActivityUsage,
    >)
        ensures
            usage@.map_values(|a: ActivityUsage| (a.activity_type@, a.credits))
                == consumption.data_points@.filter_map(|p: ConsumptionDataPoint| grouped_of(p)),
    {
        let points = &consumption.data_points;
        let mut usage: Vec<ActivityUsage> = Vec::new();
        let mut i: usize = 0;
        while i < points.len()
            invariant
                i <= points.len(),
                usage@.map_values(|a: ActivityUsage| (a.activity_type@, a.credits))
                    == points@.subrange(0, i as int).filter_map(
                    |p: ConsumptionDataPoint| grouped_of(p),
                ),
            decreases points.len() - i,
        {
            let ghost before = usage@.map_values(|a: ActivityUsage| (a.activity_type@, a.credits));
            proof {
                assert(points@.subrange(0, i + 1).drop_last() =~= points@.subrange(0, i as int));
            }
            if let Some(credits) = credits_of(&points[i]) {
                if let Some(key) = &points[i].group_key {
                    usage.push(ActivityUsage { activity_type: key.clone(), credits });
                    proof {
                        assert(usage@.map_values(|a: ActivityUsage| (a.activity_type@, a.credits))
                            =~= before + seq![grouped_of(points@[i as int])->0]);
                    }
                }
            }
            i = i + 1;
        }
        proof {
            assert(points@.subrange(0, i as int) =~= points@);
        }
        usage
    }

    /// Balance, plan and user in one. Requires that the credits of the
    /// cycle and the trial grant add up within 64 bits.
    pub fn fetch_balance_info(
        &self,
        credits: &CreditsResponse,
        subscription: SubscriptionResponse,
        user: UserResponse,
    ) -> (info: AugmentBalanceInfo)
        requires
            i64::MIN <= subscription.credits_included_this_billing_cycle + subscription.trial_grant
                <= i64::MAX,
        ensures
            info.credits_remaining == credits.usage_units_remaining,
            info.credits_used == credits.usage_units_consumed_this_billing_cycle,
            info.credits_total == subscription.credits_included_this_billing_cycle
                + subscription.trial_grant,
            info.plan_name == subscription.plan_name,
            info.billing_period_end == subscription.billing_period_end,
            info.user_email == user.email,
    {
        AugmentBalanceInfo {
            credits_remaining: credits.usage_units_remaining,
            credits_used: credits.usage_units_consumed_this_billing_cycle,
            credits_total: subscription.credits_included_this_billing_cycle
                + subscription.trial_grant,
            plan_name: subscription.plan_name,
            billing_period_end: subscription.billing_period_end,
            user_email: user.email,
        }
    }

    /// What the status of an answer says of the request: a status other
    /// than success refuses it, as a failure to authenticate.
    pub fn check_status(&self, endpoint: Endpoint, status: u16) -> (outcome: AppResult<()>)
        ensures
            200 <= status < 300 ==> outcome is Ok,
            !(200 <= status < 300) ==> (outcome matches Err(AppError::Auth(m)) && m@
                == endpoint.refusal() + decimal_digits(status as nat) + endpoint.refusal_end()),
    {
        if 200 <= status && status < 300 {
            return Ok(());
        }
        let mut message = match endpoint {
            Endpoint::Credits => String::from_str("API error: "),
            Endpoint::Subscription => String::from_str("Subscription API error: "),
            Endpoint::User => String::from_str("User API error: "),
            Endpoint::CreditAnalytics => String::from_str("Credit analytics API error: "),
            Endpoint::DailyConsumption => String::from_str("Daily consumption API error: "),
            Endpoint::ModelConsumption => String::from_str("Model consumption API error: "),
            Endpoint::ActivityConsumption => String::from_str("Activity consumption API error: "),
        };
        message.append(decimal_text(status as u128).as_str());
        match endpoint {
            Endpoint::Credits => {
                message.append(" - Session may have expired");
            },
            _ => {
                assert(message@ + Seq::<char>::empty() =~= message@);
            },
        }
        Err(AppError::Auth(message))
    }

    /// Whether the session is valid, by the outcome of a request for the
    /// user: an answer says yes, a failure to authenticate says no, and any
    /// other failure stands.
    pub fn validate_session(&self, outcome: AppResult<UserResponse>) -> (valid: AppResult<bool>)
        ensures
            match outcome {
                Ok(_) => valid matches Ok(v) && v,
                Err(AppError::Auth(_)) => valid matches Ok(v) && !v,
                Err(e) => valid matches Err(f) && f == e,
            },
    {
        match outcome {
            Ok(_) => Ok(true),
            Err(AppError::Auth(_)) => Ok(false),
            Err(e) => Err(e),
        }
    }
}

/// The bytes of two texts joined are the bytes of the first followed by the
/// bytes of the second.
proof fn lemma_bytes_of_joined(first: Seq<char>, second: Seq<char>)
    ensures
        encode_utf8(first + second) == encode_utf8(first) + encode_utf8(second),
    decreases first.len(),
{
    reveal_with_fuel(encode_utf8, 2);
    if first.len() == 0 {
        assert(first + second =~= second);
        assert(encode_utf8(first) + encode_utf8(second) =~= encode_utf8(second));
    } else {
        lemma_bytes_of_joined(first.drop_first(), second);
        assert((first + second).drop_first() =~= first.drop_first() + second);
        assert((first + second)[0] == first[0]);
    }
}

/// The usage of a span of days, by day, by model and by activity, with the
/// totals.
#[derive(Debug)]
pub struct UsageOverview {
    pub total_credits_consumed: i64,
    pub active_users: i32,
    pub daily_usage: Vec<DailyUsage>,
    pub model_usage: Vec<ModelUsage>,
    pub activity_usage: Vec<ActivityUsage>,
    pub total_credits_used: i128,
    pub days_with_data: usize,
    pub avg_daily_usage: Ratio,
    pub period_days: u32,
}

/// The total that a report gives, where it gives one that is a number;
/// else zero.
pub open spec fn reported_total(total: Option<Seq<char>>) -> i64 {
    match total {
        Some(text) => match signed_value(encode_utf8(text)) {
            Some(n) => n,
            None => 0,
        },
        None => 0,
    }
}

/// The data points of a report, none for a report that is missing.
pub open spec fn points_of(report: Option<CreditConsumptionResponse>) -> Seq<ConsumptionDataPoint> {
    match report {
        Some(r) => r.data_points@,
        None => Seq::empty(),
    }
}

/// The mean of the credits used per day with data; zero without such days.
pub open spec fn daily_mean(days: Seq<DailyUsage>) -> Ratio {
    if days.len() == 0 || credits_sum(days) < 0 {
        Ratio { num: 0, den: 1 }
    } else {
        Ratio { num: credits_sum(days) as u128, den: days.len() as u128 }
    }
}

/// The characters of a text that may be missing.
pub open spec fn total_text(total: Option<&str>) -> Option<Seq<char>> {
    match total {
        Some(t) => Some(t@),
        None => None,
    }
}

impl AugmentClient {
    /// Puts the reports of a span of `days` days together. A report that is
    /// missing counts as empty, a total that is missing as zero, and a count
    /// of users that is missing as one.
    pub fn fetch_augment_analytics(
        &self,
        total_consumed: Option<&str>,
        active_users: Option<i32>,
        daily: Option<CreditConsumptionResponse>,
        by_model: Option<CreditConsumptionResponse>,
        by_activity: Option<CreditConsumptionResponse>,
        days: u32,
    ) -> (overview: UsageOverview)
        ensures
            overview.total_credits_consumed == reported_total(total_text(total_consumed)),
            overview.active_users == match active_users {
                Some(n) => n,
                None => 1,
            },
            overview.daily_usage@.map_values(|d: DailyUsage| (d.date@, d.total_credits))
                == points_of(daily).filter_map(|p: ConsumptionDataPoint| daily_of(p)),
            overview.model_usage@.map_values(|m: ModelUsage| (m.model_name@, m.credits))
                == points_of(by_model).filter_map(|p: ConsumptionDataPoint| grouped_of(p)),
            overview.activity_usage@.map_values(|a: ActivityUsage| (a.activity_type@, a.credits))
                == points_of(by_activity).filter_map(|p: ConsumptionDataPoint| grouped_of(p)),
            overview.total_credits_used == credits_sum(overview.daily_usage@),
            overview.days_with_data == overview.daily_usage@.len(),
            overview.avg_daily_usage == daily_mean(overview.daily_usage@),
            overview.avg_daily_usage.wf(),
            overview.period_days == days,
    {
        let total_credits_consumed = match total_consumed {
            Some(text) => match parse_signed(text) {
                Some(n) => n,
                None => 0,
            },
            None => 0,
        };
        let daily_usage = match &daily {
            Some(report) => self.to_daily_usage(report),
            None => Vec::new(),
        };
        let model_usage = match &by_model {
            Some(report) => self.to_model_usage(report),
            None => Vec::new(),
        };
        let activity_usage = match &by_activity {
            Some(report) => self.to_activity_usage(report),
            None => Vec::new(),
        };
        let (total_credits_used, days_with_data) = usage_summary(&daily_usage);
        let avg_daily_usage = if days_with_data == 0 || total_credits_used < 0 {
            Ratio::zero()
        } else {
            Ratio { num: total_credits_used as u128, den: days_with_data as u128 }
        };
        UsageOverview {
            total_credits_consumed,
            active_users: match active_users {
                Some(n) => n,
                None => 1,
            },
            daily_usage,
            model_usage,
            activity_usage,
            total_credits_used,
            days_with_data,
            avg_daily_usage,
            period_days: days,
        }
    }
}

} // verus!
