//! The settings of the monitor and the rules that hold between them.

use vstd::prelude::*;
use vstd::string::StringExecFns;
use crate::portal::{ledger_url, write_ledger_url};
use crate::error::{AppError, AppResult};

verus! {

#[derive(Clone, Copy, Debug, PartialEq, Eq, Structural)]
pub enum Theme {
    Light,
    Dark,
    System,
}

/// The settings. The first three fields belong to the portal link, the next
/// two to the session login.
#[derive(Debug)]
pub struct AppConfig {
    pub orb_token: Option<String>,
    pub customer_id: Option<String>,
    pub pricing_unit_id: Option<String>,
    pub session_cookie: Option<String>,
    pub user_email: Option<String>,
    pub polling_interval_seconds: u64,
    pub low_balance_threshold: u32,
    pub critical_balance_threshold: u32,
    pub enable_notifications: bool,
    pub enable_sound_alerts: bool,
    pub auto_start: bool,
    pub window_always_on_top: bool,
    pub compact_mode: bool,
    pub theme: Theme,
    pub data_retention_days: u32,
}

/// The ways to authenticate.
#[derive(Clone, Copy, Debug, PartialEq, Eq, Structural)]
pub enum AuthMethod {
    /// By the session cookie.
    Augment,
    /// By the portal link.
    Orb,
    /// In no way.
    Unset,
}

/// The setting is there and not empty.
pub open spec fn filled(setting: Option<String>) -> bool {
    setting matches Some(text) && text@.len() > 0
}

/// Whether the setting is there and not empty.
fn is_filled(setting: &Option<String>) -> (yes: bool)
    ensures
        yes == filled(*setting),
{
    match setting {
        Some(text) => !text.as_str().is_empty(),
        None => false,
    }
}

/// The message with which `validate` refuses the settings, if it does: the
/// first of the three rules that is broken decides.
pub open spec fn validation_failure(config: AppConfig) -> Option<Seq<char>> {
    if config.polling_interval_seconds < 30 {
        Some("Polling interval must be at least 30 seconds"@)
    } else if config.critical_balance_threshold >= config.low_balance_threshold {
        Some("Critical threshold must be less than low threshold"@)
    } else if config.data_retention_days == 0 {
        Some("Data retention must be at least 1 day"@)
    } else {
        None
    }
}

impl Default for AppConfig {
    fn default() -> (config: Self)
        ensures
            config.orb_token is None,
            config.customer_id is None,
            config.pricing_unit_id is None,
            config.session_cookie is None,
            config.user_email is None,
            config.polling_interval_seconds == 60,
            config.low_balance_threshold == 500,
            config.critical_balance_threshold == 100,
            config.enable_notifications,
            !config.enable_sound_alerts,
            !config.auto_start,
            !config.window_always_on_top,
            config.compact_mode,
            config.theme == Theme::System,
            config.data_retention_days == 30,
            validation_failure(config) is None,
    {
        AppConfig {
            orb_token: None,
            customer_id: None,
            pricing_unit_id: None,
            session_cookie: None,
            user_email: None,
            polling_interval_seconds: 60,
            low_balance_threshold: 500,
            critical_balance_threshold: 100,
            enable_notifications: true,
            enable_sound_alerts: false,
            auto_start: false,
            window_always_on_top: false,
            compact_mode: true,
            theme: Theme::System,
            data_retention_days: 30,
        }
    }
}

impl AppConfig {
    /// Accepts the settings where the polling interval is at least thirty
    /// seconds, the critical threshold is below the low one, and records are
    /// kept for at least a day.
    pub fn validate(&self) -> (outcome: AppResult<()>)
        ensures
            match validation_failure(*self) {
                Some(message) => outcome matches Err(AppError::Config(m)) && m@ == message,
                None => outcome is Ok,
            },
    {
        if self.polling_interval_seconds < 30 {
            return Err(
                AppError::Config(String::from_str("Polling interval must be at least 30 seconds")),
            );
        }
        if self.critical_balance_threshold >= self.low_balance_threshold {
            return Err(
                AppError::Config(
                    String::from_str("Critical threshold must be less than low threshold"),
                ),
            );
        }
        if self.data_retention_days == 0 {
            return Err(AppError::Config(String::from_str("Data retention must be at least 1 day")));
        }
        Ok(())
    }

    /// A portal token is set.
    pub fn is_token_configured(&self) -> (yes: bool)
        ensures
            yes == filled(self.orb_token),
    {
        is_filled(&self.orb_token)
    }

    /// The portal link is complete: token, customer and pricing unit are set.
    pub fn is_orb_configured(&self) -> (yes: bool)
        ensures
            yes == (filled(self.orb_token) && filled(self.customer_id) && filled(
                self.pricing_unit_id,
            )),
    {
        is_filled(&self.orb_token) && is_filled(&self.customer_id) && is_filled(
            &self.pricing_unit_id,
        )
    }

    /// A session cookie is set.
    pub fn is_augment_configured(&self) -> (yes: bool)
        ensures
            yes == filled(self.session_cookie),
    {
        is_filled(&self.session_cookie)
    }

    /// One of the two ways to authenticate is set up.
    pub fn is_authenticated(&self) -> (yes: bool)
        ensures
            yes == (filled(self.session_cookie) || (filled(self.orb_token) && filled(
                self.customer_id,
            ) && filled(self.pricing_unit_id))),
    {
        self.is_augment_configured() || self.is_orb_configured()
    }

    /// The way to authenticate that is set up: the session cookie comes
    /// before the portal link.
    pub fn auth_method(&self) -> (method: AuthMethod)
        ensures
            method == if filled(self.session_cookie) {
                AuthMethod::Augment
            } else if filled(self.orb_token) && filled(self.customer_id) && filled(
                self.pricing_unit_id,
            ) {
                AuthMethod::Orb
            } else {
                AuthMethod::Unset
            },
    {
        if self.is_augment_configured() {
            AuthMethod::Augment
        } else if self.is_orb_configured() {
            AuthMethod::Orb
        } else {
            AuthMethod::Unset
        }
    }

    /// The source that a monitoring cycle reads: the session backend where a
    /// cookie is stored, else the portal where a token is, else none.
    pub fn monitoring_source(&self) -> (source: AuthMethod)
        ensures
            source == if self.session_cookie is Some {
                AuthMethod::Augment
            } else if self.orb_token is Some {
                AuthMethod::Orb
            } else {
                AuthMethod::Unset
            },
    {
        if self.session_cookie.is_some() {
            AuthMethod::Augment
        } else if self.orb_token.is_some() {
            AuthMethod::Orb
        } else {
            AuthMethod::Unset
        }
    }

    /// Stores the session cookie and the address that goes with it.
    pub fn set_session_cookie(&mut self, cookie: String, email: Option<String>)
        ensures
            final(self).session_cookie == Some(cookie),
            final(self).user_email == email,
            final(self).orb_token == old(self).orb_token,
            final(self).customer_id == old(self).customer_id,
            final(self).pricing_unit_id == old(self).pricing_unit_id,
            final(self).polling_interval_seconds == old(self).polling_interval_seconds,
            final(self).low_balance_threshold == old(self).low_balance_threshold,
            final(self).critical_balance_threshold == old(self).critical_balance_threshold,
            final(self).enable_notifications == old(self).enable_notifications,
            final(self).enable_sound_alerts == old(self).enable_sound_alerts,
            final(self).auto_start == old(self).auto_start,
            final(self).window_always_on_top == old(self).window_always_on_top,
            final(self).compact_mode == old(self).compact_mode,
            final(self).theme == old(self).theme,
            final(self).data_retention_days == old(self).data_retention_days,
    {
        self.session_cookie = Some(cookie);
        self.user_email = email;
    }

    /// Forgets the session cookie and its address.
    pub fn clear_augment_session(&mut self)
        ensures
            final(self).session_cookie is None,
            final(self).user_email is None,
            final(self).orb_token == old(self).orb_token,
            final(self).customer_id == old(self).customer_id,
            final(self).pricing_unit_id == old(self).pricing_unit_id,
            final(self).polling_interval_seconds == old(self).polling_interval_seconds,
            final(self).low_balance_threshold == old(self).low_balance_threshold,
            final(self).critical_balance_threshold == old(self).critical_balance_threshold,
            final(self).enable_notifications == old(self).enable_notifications,
            final(self).enable_sound_alerts == old(self).enable_sound_alerts,
            final(self).auto_start == old(self).auto_start,
            final(self).window_always_on_top == old(self).window_always_on_top,
            final(self).compact_mode == old(self).compact_mode,
            final(self).theme == old(self).theme,
            final(self).data_retention_days == old(self).data_retention_days,
    {
        self.session_cookie = None;
        self.user_email = None;
    }

    /// The time between two polls, in seconds.
    pub fn get_polling_duration(&self) -> (seconds: u64)
        ensures
            seconds == self.polling_interval_seconds,
    {
        self.polling_interval_seconds
    }
}

/// What is read of an absolute address: its host, the segments of its path,
/// and the pairs of its query, decoded.
#[derive(Debug)]
pub struct UrlParts {
    pub host: Option<String>,
    pub path_segments: Option<Vec<String>>,
    pub query_pairs: Vec<(String, String)>,
}

/// The parts of an address as sequences of characters.
pub struct UrlPartsView {
    pub host: Option<Seq<char>>,
    pub path_segments: Option<Seq<Seq<char>>>,
    pub query_pairs: Seq<(Seq<char>, Seq<char>)>,
}

impl View for UrlParts {
    type V = UrlPartsView;

    open spec fn view(&self) -> UrlPartsView {
        UrlPartsView {
            host: match self.host {
                Some(h) => Some(h@),
                None => None,
            },
            path_segments: match self.path_segments {
                Some(segments) => Some(segments@.map_values(|s: String| s@)),
                None => None,
            },
            query_pairs: self.query_pairs@.map_values(|p: (String, String)| (p.0@, p.1@)),
        }
    }
}

/// The parts of the address `text`, as the `url` crate reads them; none
/// where `text` is no absolute address.
pub uninterp spec fn url_parts(text: Seq<char>) -> Option<UrlPartsView>;

/// The view of parts that may be missing.
pub open spec fn parts_view(parts: Option<UrlParts>) -> Option<UrlPartsView> {
    match parts {
        Some(p) => Some(p@),
        None => None,
    }
}

/// Parses `text` with `url::Url::parse` and reads `Url::host_str`,
/// `Url::path_segments` and `Url::query_pairs`. The result is what
/// `url_parts` names.
#[verifier::external_body]
fn split_url(text: &str) -> (parts: Option<UrlParts>)
    ensures
        parts_view(parts) == url_parts(text@),
{
    let parsed = url::Url::parse(text).ok()?;
    Some(
        UrlParts {
            host: parsed.host_str().map(|h| h.to_string()),
            path_segments: parsed.path_segments().map(|s| s.map(|p| p.to_string()).collect()),
            query_pairs: parsed.query_pairs().map(|(k, v)| (k.into_owned(), v.into_owned()))
                .collect(),
        },
    )
}

/// The value of the last pair of a query that bears the name `name`.
pub open spec fn last_value(pairs: Seq<(Seq<char>, Seq<char>)>, name: Seq<char>) -> Option<
    Seq<char>,
>
    decreases pairs.len(),
{
    if pairs.len() == 0 {
        None
    } else if pairs.last().0 == name {
        Some(pairs.last().1)
    } else {
        last_value(pairs.drop_last(), name)
    }
}

/// The path is that of a ledger summary: `api`, `v1`, `customers`, the
/// customer, `ledger_summary`, and whatever follows.
pub open spec fn ledger_path(segments: Seq<Seq<char>>) -> bool {
    &&& segments.len() >= 5
    &&& segments[0] == "api"@
    &&& segments[1] == "v1"@
    &&& segments[2] == "customers"@
    &&& segments[4] == "ledger_summary"@
}

/// What a link to a ledger summary gives: the customer, the pricing unit
/// and the token; or the reason for which it is refused. The checks are made
/// in this order: the address, its host, its path, the two parameters, and
/// that none of the three values is empty.
pub open spec fn link_settings(parts: Option<UrlPartsView>) -> Result<
    (Seq<char>, Seq<char>, Seq<char>),
    Seq<char>,
> {
    match parts {
        None => Err("Invalid URL format"@),
        Some(p) => if p.host != Some("portal.withorb.com"@) {
            Err("URL must be from portal.withorb.com"@)
        } else if p.path_segments is None {
            Err("Invalid URL path"@)
        } else if !ledger_path(p.path_segments->0) {
            Err("URL must be in format: /api/v1/customers/{customer_id}/ledger_summary"@)
        } else if last_value(p.query_pairs, "pricing_unit_id"@) is None {
            Err("URL must contain pricing_unit_id parameter"@)
        } else if last_value(p.query_pairs, "token"@) is None {
            Err("URL must contain token parameter"@)
        } else if p.path_segments->0[3].len() == 0 || last_value(
            p.query_pairs,
            "pricing_unit_id"@,
        )->0.len() == 0 || last_value(p.query_pairs, "token"@)->0.len() == 0 {
            Err("Extracted values cannot be empty"@)
        } else {
            Ok(
                (
                    p.path_segments->0[3],
                    last_value(p.query_pairs, "pricing_unit_id"@)->0,
                    last_value(p.query_pairs, "token"@)->0,
                ),
            )
        },
    }
}

/// The characters of a setting that may be missing.
pub open spec fn setting_text(setting: Option<String>) -> Option<Seq<char>> {
    match setting {
        Some(s) => Some(s@),
        None => None,
    }
}

/// The address of the ledger that the settings lead to, or the reason for
/// which there is none: the first of customer, pricing unit and token that
/// is missing decides.
pub open spec fn ledger_address(config: AppConfig) -> Result<Seq<char>, Seq<char>> {
    match (config.customer_id, config.pricing_unit_id, config.orb_token) {
        (None, _, _) => Err("Customer ID not configured"@),
        (Some(_), None, _) => Err("Pricing unit ID not configured"@),
        (Some(_), Some(_), None) => Err("Token not configured"@),
        (Some(customer), Some(unit), Some(token)) => Ok(ledger_url(customer@, unit@, token@)),
    }
}

/// Whether a text is the given word.
fn is_word(text: &String, word: &str) -> (same: bool)
    ensures
        same == (text@ == word@),
{
    let wanted = String::from_str(word);
    *text == wanted
}

/// The value of the last pair that bears the name `name`.
fn find_last(pairs: &Vec<(String, String)>, name: &str) -> (found: Option<String>)
    ensures
        setting_text(found) == last_value(
            pairs@.map_values(|p: (String, String)| (p.0@, p.1@)),
            name@,
        ),
{
    let ghost all = pairs@.map_values(|p: (String, String)| (p.0@, p.1@));
    let mut found: Option<String> = None;
    let mut i: usize = 0;
    while i < pairs.len()
        invariant
            i <= pairs.len(),
            all == pairs@.map_values(|p: (String, String)| (p.0@, p.1@)),
            setting_text(found) == last_value(all.subrange(0, i as int), name@),
        decreases pairs.len() - i,
    {
        proof {
            assert(all.subrange(0, i + 1).drop_last() =~= all.subrange(0, i as int));
            assert(all.subrange(0, i + 1).last() == all[i as int]);
        }
        if is_word(&pairs[i].0, name) {
            found = Some(pairs[i].1.clone());
        }
        i = i + 1;
    }
    proof {
        assert(all.subrange(0, i as int) =~= all);
    }
    found
}

impl AppConfig {
    /// Whether the rest of the settings is the same in both.
    pub open spec fn same_but_link(self, other: AppConfig) -> bool {
        &&& self.session_cookie == other.session_cookie
        &&& self.user_email == other.user_email
        &&& self.polling_interval_seconds == other.polling_interval_seconds
        &&& self.low_balance_threshold == other.low_balance_threshold
        &&& self.critical_balance_threshold == other.critical_balance_threshold
        &&& self.enable_notifications == other.enable_notifications
        &&& self.enable_sound_alerts == other.enable_sound_alerts
        &&& self.auto_start == other.auto_start
        &&& self.window_always_on_top == other.window_always_on_top
        &&& self.compact_mode == other.compact_mode
        &&& self.theme == other.theme
        &&& self.data_retention_days == other.data_retention_days
    }

    /// Takes customer, pricing unit and token from the parts of a link to a
    /// ledger summary. A link that is refused changes nothing.
    pub fn apply_link(&mut self, parts: Option<UrlParts>) -> (outcome: AppResult<()>)
        ensures
            final(self).same_but_link(*old(self)),
            match link_settings(parts_view(parts)) {
                Ok((customer, unit, token)) => {
                    &&& outcome is Ok
                    &&& setting_text(final(self).customer_id) == Some(customer)
                    &&& setting_text(final(self).pricing_unit_id) == Some(unit)
                    &&& setting_text(final(self).orb_token) == Some(token)
                },
                Err(reason) => {
                    &&& outcome matches Err(AppError::Config(m)) && m@ == reason
                    &&& *final(self) == *old(self)
                },
            },
    {
        let parts = match parts {
            Some(p) => p,
            None => {
                return Err(AppError::Config(String::from_str("Invalid URL format")));
            },
        };
        let from_portal = match &parts.host {
            Some(host) => is_word(host, "portal.withorb.com"),
            None => false,
        };
        if !from_portal {
            return Err(AppError::Config(String::from_str("URL must be from portal.withorb.com")));
        }
        let segments = match &parts.path_segments {
            Some(s) => s,
            None => {
                return Err(AppError::Config(String::from_str("Invalid URL path")));
            },
        };
        if segments.len() < 5 || !is_word(&segments[0], "api") || !is_word(&segments[1], "v1")
            || !is_word(&segments[2], "customers") || !is_word(&segments[4], "ledger_summary") {
            return Err(
                AppError::Config(
                    String::from_str(
                        "URL must be in format: /api/v1/customers/{customer_id}/ledger_summary",
                    ),
                ),
            );
        }
        let customer = segments[3].clone();
        let unit = match find_last(&parts.query_pairs, "pricing_unit_id") {
            Some(u) => u,
            None => {
                return Err(
                    AppError::Config(
                        String::from_str("URL must contain pricing_unit_id parameter"),
                    ),
                );
            },
        };
        let token = match find_last(&parts.query_pairs, "token") {
            Some(t) => t,
            None => {
                return Err(AppError::Config(String::from_str("URL must contain token parameter")));
            },
        };
        if customer.as_str().is_empty() || unit.as_str().is_empty() || token.as_str().is_empty() {
            return Err(AppError::Config(String::from_str("Extracted values cannot be empty")));
        }
        self.customer_id = Some(customer);
        self.pricing_unit_id = Some(unit);
        self.orb_token = Some(token);
        Ok(())
    }

    /// Takes customer, pricing unit and token from a link to a ledger
    /// summary. A link that is refused changes nothing.
    pub fn parse_orb_url(&mut self, url: &str) -> (outcome: AppResult<()>)
        ensures
            final(self).same_but_link(*old(self)),
            match link_settings(url_parts(url@)) {
                Ok((customer, unit, token)) => {
                    &&& outcome is Ok
                    &&& setting_text(final(self).customer_id) == Some(customer)
                    &&& setting_text(final(self).pricing_unit_id) == Some(unit)
                    &&& setting_text(final(self).orb_token) == Some(token)
                },
                Err(reason) => {
                    &&& outcome matches Err(AppError::Config(m)) && m@ == reason
                    &&& *final(self) == *old(self)
                },
            },
    {
        let parts = split_url(url);
        self.apply_link(parts)
    }

    /// Writes the address of the ledger that the settings lead to.
    pub fn build_ledger_url(&self) -> (outcome: AppResult<String>)
        ensures
            match ledger_address(*self) {
                Ok(address) => outcome matches Ok(url) && url@ == address,
                Err(reason) => outcome matches Err(AppError::Config(m)) && m@ == reason,
            },
    {
        let customer = match &self.customer_id {
            Some(c) => c,
            None => {
                return Err(AppError::Config(String::from_str("Customer ID not configured")));
            },
        };
        let unit = match &self.pricing_unit_id {
            Some(u) => u,
            None => {
                return Err(AppError::Config(String::from_str("Pricing unit ID not configured")));
            },
        };
        let token = match &self.orb_token {
            Some(t) => t,
            None => {
                return Err(AppError::Config(String::from_str("Token not configured")));
            },
        };
        Ok(write_ledger_url(customer.as_str(), unit.as_str(), token.as_str()))
    }
}

} // verus!
