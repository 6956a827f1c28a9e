//! The extraction engine: the cascade of strategies that reads one balance
//! out of whatever the backend hands over.
//!
//! The engine decides; it performs no request itself. `begin` and `advance`
//! say what to do next, and take what came of it.

use vstd::prelude::*;
use vstd::slice::slice_subrange;
use vstd::string::{StringExecFns, StringSliceAdditionalSpecFns};
use vstd::utf8::encode_utf8;
use crate::error::{AppError, AppResult};
use crate::json::{json_balance, parse_json, parsed_json, search_json_for_balance};
use crate::page::{
    extract_balance_from_raw_html, extract_balance_from_scripts, extract_balance_strategy_1,
    extract_balance_strategy_2, labelled_value, lower, lowercase, page_text, script_value,
    selected_markup, selected_texts,
};
use crate::number::two_to;
use crate::patterns::{
    extract_number_from_text, first_pattern_value, markup_pattern_table, number_in_text,
    page_pattern_table, MAX_BALANCE,
};
use crate::portal::{
    balance_expression, balance_selector, candidate_url, content_shows_balance, customer_url,
    fresh_page_url, ledger_balance, ledger_of, ledger_url_from, page_url, read_ledger_balance,
    shows_balance, write_balance_expression, write_balance_selector, write_candidate_url,
    write_customer_url, write_fresh_page_url, write_page_url, CANDIDATES, EXPRESSIONS, SELECTORS,
};
use crate::text::{bytes_contain, contains_bytes, find_bytes, index_of};

verus! {

/// The embedded data of a page: what stands from the first brace behind the
/// marker `__NEXT_DATA__` up to the end of the script.
pub open spec fn embedded_document(html: Seq<u8>) -> Option<Seq<u8>> {
    match index_of(html, "__NEXT_DATA__".spec_bytes(), 0) {
        Some(marker) => match index_of(html, "{".spec_bytes(), marker) {
            Some(start) => match index_of(html, "</script>".spec_bytes(), start) {
                Some(end) => Some(html.subrange(start, end)),
                None => None,
            },
            None => None,
        },
        None => None,
    }
}

/// The balance in the embedded data of a page.
pub open spec fn embedded_value(html: Seq<u8>) -> Option<u32> {
    match embedded_document(html) {
        Some(document) => match parsed_json(document) {
            Some(json) => json_balance(json),
            None => None,
        },
        None => None,
    }
}

/// The first of two findings that is one.
pub open spec fn or_else(first: Option<u32>, second: Option<u32>) -> Option<u32> {
    match first {
        Some(n) => Some(n),
        None => second,
    }
}

/// The balance of a page: what the first strategy to find one finds, in this
/// order: the embedded data; an element that mentions the balance; the
/// patterns for the visible text; a field of inline data in a script; an
/// attribute in the markup.
pub open spec fn page_balance(html: Seq<char>) -> Option<u32> {
    or_else(
        embedded_value(encode_utf8(html)),
        or_else(
            match selected_texts(html, "*"@) {
                Some(texts) => labelled_value(texts),
                None => None,
            },
            or_else(
                first_pattern_value(page_pattern_table(), page_text(html), MAX_BALANCE),
                or_else(
                    match selected_markup(html, "script"@) {
                        Some(scripts) => script_value(scripts),
                        None => None,
                    },
                    first_pattern_value(markup_pattern_table(), html, MAX_BALANCE),
                ),
            ),
        ),
    )
}

/// Reads the balance out of the embedded data of a page.
pub fn extract_balance_from_nextjs_data(html: &str) -> (value: Option<u32>)
    ensures
        value == embedded_value(html.spec_bytes()),
{
    let bytes = html.as_bytes();
    let marker = match find_bytes(bytes, "__NEXT_DATA__".as_bytes(), 0) {
        Some(at) => at,
        None => {
            return None;
        },
    };
    let start = match find_bytes(bytes, "{".as_bytes(), marker) {
        Some(at) => at,
        None => {
            return None;
        },
    };
    let end = match find_bytes(bytes, "</script>".as_bytes(), start) {
        Some(at) => at,
        None => {
            return None;
        },
    };
    match parse_json(slice_subrange(bytes, start, end)) {
        Some(json) => search_json_for_balance(&json),
        None => None,
    }
}

/// Reads the balance out of a page, by the first strategy that finds one.
pub fn parse_balance_from_html(html: &str) -> (outcome: AppResult<u32>)
    ensures
        match page_balance(html@) {
            Some(balance) => outcome matches Ok(b) && b == balance,
            None => outcome matches Err(AppError::Scraping(m)) && m@
                == "Could not find credit balance in page"@,
        },
{
    if let Some(balance) = extract_balance_from_nextjs_data(html) {
        return Ok(balance);
    }
    if let Some(balance) = extract_balance_strategy_1(html) {
        return Ok(balance);
    }
    if let Some(balance) = extract_balance_strategy_2(html) {
        return Ok(balance);
    }
    if let Some(balance) = extract_balance_from_scripts(html) {
        return Ok(balance);
    }
    if let Some(balance) = extract_balance_from_raw_html(html) {
        return Ok(balance);
    }
    Err(AppError::Scraping(String::from_str("Could not find credit balance in page")))
}

/// The status of an HTTP answer says that the request succeeded.
pub open spec fn status_ok(status: u16) -> bool {
    200 <= status < 300
}

/// The status of an HTTP answer says that the credential is rejected.
pub open spec fn rejects_credential(status: u16) -> bool {
    status == 401 || status == 403
}

/// The page, in lower case, holds one of the words that the portal's pages
/// hold: "credit", "balance", "orb" or "portal".
pub open spec fn looks_like_portal(html: Seq<char>) -> bool {
    let page = encode_utf8(lowercase(html));
    contains_bytes(page, "credit".spec_bytes()) || contains_bytes(page, "balance".spec_bytes())
        || contains_bytes(page, "orb".spec_bytes()) || contains_bytes(page, "portal".spec_bytes())
}

/// The settings of the extraction engine.
#[allow(non_camel_case_types)]
#[derive(Clone, Copy, Debug, PartialEq, Eq, Structural)]
pub struct orbScraper {
    /// How often the whole cascade is tried.
    pub retry_attempts: u32,
    /// How long a request may take, in seconds.
    pub timeout_seconds: u64,
    /// Whether the page is rendered in a browser, or fetched as it is.
    pub use_browser: bool,
}

impl orbScraper {
    /// Three attempts, thirty seconds for a request, with a browser.
    pub fn new() -> (scraper: Self)
        ensures
            scraper == (orbScraper { retry_attempts: 3, timeout_seconds: 30, use_browser: true }),
    {
        orbScraper { retry_attempts: 3, timeout_seconds: 30, use_browser: true }
    }

    /// Whether the portal can be reached with the token, by the answer to a
    /// request for its page, if there was one: the request succeeded and the
    /// page looks like one of the portal's. An answer that rejects the
    /// credential is a failure to authenticate; no other answer, and no
    /// missing answer, is an error.
    pub fn validate_token(&self, reply: Option<(u16, String)>) -> (valid: AppResult<bool>)
        ensures
            match reply {
                Some((status, html)) => if rejects_credential(status) {
                    valid matches Err(AppError::AuthenticationFailed)
                } else {
                    valid matches Ok(v) && v == (status_ok(status) && looks_like_portal(html@))
                },
                None => valid matches Ok(v) && !v,
            },
    {
        match reply {
            Some((status, html)) => {
                if status == 401 || status == 403 {
                    return Err(AppError::AuthenticationFailed);
                }
                if status < 200 || status >= 300 {
                    return Ok(false);
                }
                let lowered = lower(html.as_str());
                let page = lowered.as_str().as_bytes();
                Ok(
                    bytes_contain(page, "credit".as_bytes()) || bytes_contain(
                        page,
                        "balance".as_bytes(),
                    ) || bytes_contain(page, "orb".as_bytes()) || bytes_contain(
                        page,
                        "portal".as_bytes(),
                    ),
                )
            },
            None => Ok(false),
        }
    }
}

/// Where an extraction stands: what it is waiting for.
#[derive(Clone, Copy, Debug, PartialEq, Eq, Structural)]
pub enum Phase {
    /// The answer that resolves the token to its customer. `warm` says that
    /// a page has been rendered and searched before.
    Customer { warm: bool },
    /// The ledger summary.
    Ledger { warm: bool },
    /// The page to be rendered.
    Render,
    /// The content of the page, for the poll of the given round.
    Poll { round: u32 },
    /// The end of the pause behind that poll.
    PollPause { round: u32 },
    /// The page to be scrolled to its end.
    Scroll,
    /// The end of the pause behind the scrolling.
    Settle,
    /// The text of the element that the selector of the given index finds.
    Element { index: usize },
    /// The value of the expression of the given index.
    Script { index: usize },
    /// The content of the page as it is at last.
    Content,
    /// The portal's page, fetched as it is, in the given strategy.
    Page { strategy: u32 },
    /// The answer of the candidate of the given index.
    Candidate { index: usize },
    /// The end of the pause behind the given strategy.
    StrategyPause { strategy: u32 },
    /// The end of the pause between two attempts.
    Backoff,
    /// Nothing: the extraction has ended.
    Finished,
}

/// The paths by which a balance is found.
#[derive(Clone, Copy, Debug, PartialEq, Eq, Structural)]
pub enum Source {
    /// The structured interface.
    Api,
    /// The page as a browser renders it.
    Browser,
    /// The page as it is fetched.
    Http,
}

impl Source {
    /// The label under which a snapshot names its path.
    pub open spec fn label(self) -> Seq<char> {
        match self {
            Source::Api => "api"@,
            Source::Browser => "browser"@,
            Source::Http => "http"@,
        }
    }

    /// The label under which a snapshot names its path.
    pub fn name(&self) -> (label: &'static str)
        ensures
            label@ == self.label(),
    {
        match self {
            Source::Api => "api",
            Source::Browser => "browser",
            Source::Http => "http",
        }
    }
}

/// The path that the steps of a phase belong to.
pub open spec fn source_of(phase: Phase) -> Source {
    match phase {
        Phase::Customer { .. } => Source::Api,
        Phase::Ledger { .. } => Source::Api,
        Phase::Page { .. } => Source::Http,
        Phase::Candidate { .. } => Source::Http,
        Phase::StrategyPause { .. } => Source::Http,
        _ => Source::Browser,
    }
}

/// The headers that go with a request.
#[derive(Clone, Copy, Debug, PartialEq, Eq, Structural)]
pub enum HeaderSet {
    /// Those of a page that asks the structured interface.
    Api,
    /// A user agent and nothing else.
    Plain,
    /// Those that a browser sends for a page.
    Browser,
}

/// The name under which a request goes out where it names no browser in
/// full.
pub open spec fn short_agent() -> Seq<char> {
    "Mozilla/5.0 (Macintosh; Intel Mac OS X 10_15_7) AppleWebKit/537.36"@
}

/// The name of the browser under which a request goes out.
pub open spec fn full_agent() -> Seq<char> {
    "Mozilla/5.0 (Macintosh; Intel Mac OS X 10_15_7) AppleWebKit/537.36 (KHTML, like Gecko) Chrome/120.0.0.0 Safari/537.36"@
}

/// The headers of a set, each a name and a value, for the given token.
pub open spec fn header_table(set: HeaderSet, token: Seq<char>) -> Seq<(Seq<char>, Seq<char>)> {
    match set {
        HeaderSet::Api => seq![
            ("Accept"@, "application/json"@),
            ("User-Agent"@, full_agent()),
            ("Referer"@, page_url(token)),
            ("Origin"@, "https://portal.withorb.com"@),
        ],
        HeaderSet::Plain => seq![("User-Agent"@, short_agent())],
        HeaderSet::Browser => seq![
            ("User-Agent"@, full_agent()),
            (
                "Accept"@,
                "text/html,application/xhtml+xml,application/xml;q=0.9,image/webp,*/*;q=0.8"@,
            ),
            ("Accept-Language"@, "en-US,en;q=0.5"@),
            ("Accept-Encoding"@, "gzip, deflate, br"@),
            ("DNT"@, "1"@),
            ("Connection"@, "keep-alive"@),
            ("Upgrade-Insecure-Requests"@, "1"@),
        ],
    }
}

/// A header.
fn pair(name: &str, value: &str) -> (header: (String, String))
    ensures
        header.0@ == name@,
        header.1@ == value@,
{
    (String::from_str(name), String::from_str(value))
}

impl HeaderSet {
    /// The headers of the set, each a name and a value, for the given token.
    pub fn headers(&self, token: &str) -> (table: Vec<(String, String)>)
        ensures
            table@.map_values(|h: (String, String)| (h.0@, h.1@)) == header_table(*self, token@),
    {
        let mut table: Vec<(String, String)> = Vec::new();
        match self {
            HeaderSet::Api => {
                table.push(pair("Accept", "application/json"));
                table.push(
                    pair(
                        "User-Agent",
                        "Mozilla/5.0 (Macintosh; Intel Mac OS X 10_15_7) AppleWebKit/537.36 (KHTML, like Gecko) Chrome/120.0.0.0 Safari/537.36",
                    ),
                );
                table.push(pair("Referer", write_page_url(token).as_str()));
                table.push(pair("Origin", "https://portal.withorb.com"));
            },
            HeaderSet::Plain => {
                table.push(
                    pair(
                        "User-Agent",
                        "Mozilla/5.0 (Macintosh; Intel Mac OS X 10_15_7) AppleWebKit/537.36",
                    ),
                );
            },
            HeaderSet::Browser => {
                table.push(
                    pair(
                        "User-Agent",
                        "Mozilla/5.0 (Macintosh; Intel Mac OS X 10_15_7) AppleWebKit/537.36 (KHTML, like Gecko) Chrome/120.0.0.0 Safari/537.36",
                    ),
                );
                table.push(
                    pair(
                        "Accept",
                        "text/html,application/xhtml+xml,application/xml;q=0.9,image/webp,*/*;q=0.8",
                    ),
                );
                table.push(pair("Accept-Language", "en-US,en;q=0.5"));
                table.push(pair("Accept-Encoding", "gzip, deflate, br"));
                table.push(pair("DNT", "1"));
                table.push(pair("Connection", "keep-alive"));
                table.push(pair("Upgrade-Insecure-Requests", "1"));
            },
        }
        proof {
            assert(table@.map_values(|h: (String, String)| (h.0@, h.1@)) =~= header_table(
                *self,
                token@,
            ));
        }
        table
    }
}

/// An extraction under way.
#[derive(Debug)]
pub struct Extraction {
    /// The attempt at the whole cascade, counted from 1.
    pub attempt: u32,
    pub phase: Phase,
    pub token: String,
}

/// An extraction with its texts as sequences of characters.
pub struct ExtractionView {
    pub attempt: u32,
    pub phase: Phase,
    pub token: Seq<char>,
}

impl View for Extraction {
    type V = ExtractionView;

    open spec fn view(&self) -> ExtractionView {
        ExtractionView {
            attempt: self.attempt,
            phase: self.phase,
            token: self.token@,
        }
    }
}

/// What is to be done next. Each action but the last two is answered with
/// an event.
#[derive(Debug)]
pub enum Action {
    /// Get `url` with the given headers; answer with `Reply`.
    Request { url: String, headers: HeaderSet },
    /// Open `url` in a fresh browser that hides that it is driven, and let
    /// the page load; answer with `Ready`.
    Render { url: String },
    /// Read the content of the rendered page; answer with `Content`.
    ReadContent,
    /// Scroll the rendered page to its end; answer with `Elapsed`.
    ScrollDown,
    /// Wait; answer with `Elapsed`.
    Sleep { seconds: u64 },
    /// Read the text of the first element that `selector` finds in the
    /// rendered page; answer with `Text`.
    ReadElement { selector: String },
    /// Evaluate `expression` in the rendered page; answer with `Text`.
    Evaluate { expression: String },
    /// The extraction has ended with this balance, found by this path.
    Succeed { balance: u32, source: Source },
    /// The extraction has ended without a balance.
    Fail { message: String },
}

/// An action with its texts as sequences of characters.
pub enum ActionView {
    Request { url: Seq<char>, headers: HeaderSet },
    Render { url: Seq<char> },
    ReadContent,
    ScrollDown,
    Sleep { seconds: u64 },
    ReadElement { selector: Seq<char> },
    Evaluate { expression: Seq<char> },
    Succeed { balance: u32, source: Source },
    Fail { message: Seq<char> },
}

impl View for Action {
    type V = ActionView;

    open spec fn view(&self) -> ActionView {
        match self {
            Action::Request { url, headers } => ActionView::Request {
                url: url@,
                headers: *headers,
            },
            Action::Render { url } => ActionView::Render { url: url@ },
            Action::ReadContent => ActionView::ReadContent,
            Action::ScrollDown => ActionView::ScrollDown,
            Action::Sleep { seconds } => ActionView::Sleep { seconds: *seconds },
            Action::ReadElement { selector } => ActionView::ReadElement { selector: selector@ },
            Action::Evaluate { expression } => ActionView::Evaluate { expression: expression@ },
            Action::Succeed { balance, source } => ActionView::Succeed {
                balance: *balance,
                source: *source,
            },
            Action::Fail { message } => ActionView::Fail { message: message@ },
        }
    }
}

/// What came of an action.
#[derive(Debug)]
pub enum Event {
    /// The answer to a request: its status and its body.
    Reply { status: u16, body: String },
    /// The page is rendered.
    Ready,
    /// The content of the rendered page.
    Content(String),
    /// A text that was read, if there was one.
    Text(Option<String>),
    /// The wait is over, or the scrolling is done.
    Elapsed,
    /// The action failed, for the reason given.
    Failed(String),
}

/// An event with its texts as sequences of characters.
pub enum EventView {
    Reply { status: u16, body: Seq<char> },
    Ready,
    Content(Seq<char>),
    Text(Option<Seq<char>>),
    Elapsed,
    Failed(Seq<char>),
}

impl View for Event {
    type V = EventView;

    open spec fn view(&self) -> EventView {
        match self {
            Event::Reply { status, body } => EventView::Reply { status: *status, body: body@ },
            Event::Ready => EventView::Ready,
            Event::Content(content) => EventView::Content(content@),
            Event::Text(text) => EventView::Text(
                match text {
                    Some(t) => Some(t@),
                    None => None,
                },
            ),
            Event::Elapsed => EventView::Elapsed,
            Event::Failed(reason) => EventView::Failed(reason@),
        }
    }
}

/// The pause behind a failed attempt, in seconds: one second behind the
/// first, and twice as long behind each further one, up to `2^63`.
pub open spec fn backoff_seconds(attempt: u32) -> u64 {
    if attempt <= 1 {
        1
    } else if attempt > 64 {
        0x8000_0000_0000_0000
    } else {
        two_to((attempt - 1) as nat) as u64
    }
}

/// The reason for which an action failed.
pub open spec fn failure_text(event: EventView) -> Seq<char> {
    match event {
        EventView::Failed(reason) => reason,
        _ => "The step did not answer as expected"@,
    }
}

/// The balance that an answer that succeeded gives by the strategies for a
/// page.
pub open spec fn reply_balance(event: EventView) -> Option<u32> {
    match event {
        EventView::Reply { status, body } => if status_ok(status) {
            page_balance(body)
        } else {
            None
        },
        _ => None,
    }
}

/// The balance in a text that was read.
pub open spec fn text_balance(event: EventView) -> Option<u32> {
    match event {
        EventView::Text(Some(text)) => number_in_text(text),
        _ => None,
    }
}

/// The extraction ends with a balance, found by the path of its phase.
pub open spec fn succeed(state: ExtractionView, balance: u32) -> (ExtractionView, ActionView) {
    (
        ExtractionView { phase: Phase::Finished, ..state },
        ActionView::Succeed { balance, source: source_of(state.phase) },
    )
}

/// An attempt has failed: the last one ends the extraction with the reason,
/// any other is followed by a pause.
pub open spec fn fail_attempt(scraper: orbScraper, state: ExtractionView, message: Seq<char>) -> (
    ExtractionView,
    ActionView,
) {
    if state.attempt >= scraper.retry_attempts {
        (ExtractionView { phase: Phase::Finished, ..state }, ActionView::Fail { message })
    } else {
        (
            ExtractionView { phase: Phase::Backoff, ..state },
            ActionView::Sleep { seconds: backoff_seconds(state.attempt) },
        )
    }
}

/// An attempt starts by asking the structured interface.
pub open spec fn start_attempt(state: ExtractionView, attempt: u32) -> (
    ExtractionView,
    ActionView,
) {
    (
        ExtractionView { attempt, phase: Phase::Customer { warm: false }, ..state },
        ActionView::Request { url: customer_url(state.token), headers: HeaderSet::Api },
    )
}

/// The structured interface gave no balance. Before any page is rendered,
/// the page is next: rendered, or fetched as it is. Behind a rendered page
/// nothing is left to try, and the attempt fails.
pub open spec fn after_direct(scraper: orbScraper, state: ExtractionView, warm: bool) -> (
    ExtractionView,
    ActionView,
) {
    if warm {
        fail_attempt(scraper, state, "Could not find credit balance in page"@)
    } else if scraper.use_browser {
        (
            ExtractionView { phase: Phase::Render, ..state },
            ActionView::Render { url: page_url(state.token) },
        )
    } else {
        (
            ExtractionView { phase: Phase::Page { strategy: 1 }, ..state },
            ActionView::Request { url: page_url(state.token), headers: HeaderSet::Plain },
        )
    }
}

/// A strategy of fetching the page as it is gave no balance: the first two
/// are followed by a pause, the third fails the attempt.
pub open spec fn after_strategy(scraper: orbScraper, state: ExtractionView, strategy: u32) -> (
    ExtractionView,
    ActionView,
) {
    if strategy < 3 {
        (
            ExtractionView { phase: Phase::StrategyPause { strategy }, ..state },
            ActionView::Sleep { seconds: 1 },
        )
    } else {
        fail_attempt(scraper, state, "Could not find credit balance with any strategy"@)
    }
}

/// The selector behind the one of index `index`, or the first expression
/// behind the last selector.
pub open spec fn after_element(state: ExtractionView, index: usize) -> (
    ExtractionView,
    ActionView,
) {
    if index + 1 < SELECTORS {
        (
            ExtractionView { phase: Phase::Element { index: (index + 1) as usize }, ..state },
            ActionView::ReadElement { selector: balance_selector(index + 1) },
        )
    } else {
        (
            ExtractionView { phase: Phase::Script { index: 0 }, ..state },
            ActionView::Evaluate { expression: balance_expression(0) },
        )
    }
}

/// The expression behind the one of index `index`, or the reading of the
/// page behind the last expression.
pub open spec fn after_script(state: ExtractionView, index: usize) -> (ExtractionView, ActionView) {
    if index + 1 < EXPRESSIONS {
        (
            ExtractionView { phase: Phase::Script { index: (index + 1) as usize }, ..state },
            ActionView::Evaluate { expression: balance_expression(index + 1) },
        )
    } else {
        (ExtractionView { phase: Phase::Content, ..state }, ActionView::ReadContent)
    }
}

/// The candidate behind the one of index `index`, or, behind the last, the
/// portal's page with the time in its address.
pub open spec fn after_candidate(state: ExtractionView, index: usize, now: u64) -> (
    ExtractionView,
    ActionView,
) {
    if index + 1 < CANDIDATES {
        (
            ExtractionView { phase: Phase::Candidate { index: (index + 1) as usize }, ..state },
            ActionView::Request {
                url: candidate_url(index + 1, state.token),
                headers: HeaderSet::Plain,
            },
        )
    } else {
        (
            ExtractionView { phase: Phase::Page { strategy: 3 }, ..state },
            ActionView::Request {
                url: fresh_page_url(state.token, now),
                headers: HeaderSet::Plain,
            },
        )
    }
}

/// The first state and action of an extraction: with no attempt allowed it
/// ends at once.
pub open spec fn first_step(scraper: orbScraper, token: Seq<char>) -> (ExtractionView, ActionView) {
    let fresh = ExtractionView { attempt: 0, phase: Phase::Finished, token };
    if scraper.retry_attempts == 0 {
        (fresh, ActionView::Fail { message: "All retry attempts failed"@ })
    } else {
        start_attempt(fresh, 1)
    }
}

/// The state and the action that follow from a state and the event that
/// answers its action, at the time `now` in seconds.
pub open spec fn next_step(
    scraper: orbScraper,
    state: ExtractionView,
    event: EventView,
    now: u64,
) -> (ExtractionView, ActionView) {
    match state.phase {
        Phase::Customer { warm } => match event {
            EventView::Reply { status, body } => if status_ok(status) && ledger_of(
                body,
                state.token,
            ) is Some {
                (
                    ExtractionView { phase: Phase::Ledger { warm }, ..state },
                    ActionView::Request {
                        url: ledger_of(body, state.token)->0,
                        headers: HeaderSet::Api,
                    },
                )
            } else {
                after_direct(scraper, state, warm)
            },
            _ => after_direct(scraper, state, warm),
        },
        Phase::Ledger { warm } => match event {
            EventView::Reply { status, body } => if status_ok(status) && ledger_balance(body)
                is Some {
                succeed(state, ledger_balance(body)->0)
            } else {
                after_direct(scraper, state, warm)
            },
            _ => after_direct(scraper, state, warm),
        },
        Phase::Render => match event {
            EventView::Ready => (
                ExtractionView { phase: Phase::Poll { round: 1 }, ..state },
                ActionView::ReadContent,
            ),
            _ => fail_attempt(scraper, state, failure_text(event)),
        },
        Phase::Poll { round } => match event {
            EventView::Content(content) => if shows_balance(content) {
                (ExtractionView { phase: Phase::Scroll, ..state }, ActionView::ScrollDown)
            } else {
                (
                    ExtractionView { phase: Phase::PollPause { round }, ..state },
                    ActionView::Sleep { seconds: 3 },
                )
            },
            _ => fail_attempt(scraper, state, failure_text(event)),
        },
        Phase::PollPause { round } => if round < 10 {
            (
                ExtractionView { phase: Phase::Poll { round: (round + 1) as u32 }, ..state },
                ActionView::ReadContent,
            )
        } else {
            (ExtractionView { phase: Phase::Scroll, ..state }, ActionView::ScrollDown)
        },
        Phase::Scroll => (
            ExtractionView { phase: Phase::Settle, ..state },
            ActionView::Sleep { seconds: 2 },
        ),
        Phase::Settle => (
            ExtractionView { phase: Phase::Element { index: 0 }, ..state },
            ActionView::ReadElement { selector: balance_selector(0) },
        ),
        Phase::Element { index } => match text_balance(event) {
            Some(balance) => succeed(state, balance),
            None => after_element(state, index),
        },
        Phase::Script { index } => match text_balance(event) {
            Some(balance) => succeed(state, balance),
            None => after_script(state, index),
        },
        Phase::Content => match event {
            EventView::Content(content) => match page_balance(content) {
                Some(balance) => succeed(state, balance),
                None => (
                    ExtractionView { phase: Phase::Customer { warm: true }, ..state },
                    ActionView::Request { url: customer_url(state.token), headers: HeaderSet::Api },
                ),
            },
            _ => fail_attempt(scraper, state, failure_text(event)),
        },
        Phase::Page { strategy } => match reply_balance(event) {
            Some(balance) => succeed(state, balance),
            None => after_strategy(scraper, state, strategy),
        },
        Phase::Candidate { index } => match reply_balance(event) {
            Some(balance) => succeed(state, balance),
            None => after_candidate(state, index, now),
        },
        Phase::StrategyPause { strategy } => if strategy <= 1 {
            (
                ExtractionView { phase: Phase::Page { strategy: 2 }, ..state },
                ActionView::Request { url: page_url(state.token), headers: HeaderSet::Browser },
            )
        } else {
            (
                ExtractionView { phase: Phase::Candidate { index: 0 }, ..state },
                ActionView::Request {
                    url: candidate_url(0, state.token),
                    headers: HeaderSet::Plain,
                },
            )
        },
        Phase::Backoff => if state.attempt < scraper.retry_attempts {
            start_attempt(state, (state.attempt + 1) as u32)
        } else {
            (
                ExtractionView { phase: Phase::Finished, ..state },
                ActionView::Fail { message: "All retry attempts failed"@ },
            )
        },
        Phase::Finished => (state, ActionView::Fail { message: "The extraction has finished"@ }),
    }
}

/// `2` to a power of at most 63 fits 64 bits.
proof fn lemma_two_to_fits(k: nat)
    requires
        k <= 63,
    ensures
        two_to(k) <= 0x8000_0000_0000_0000,
        k < 63 ==> two_to(k) <= 0x4000_0000_0000_0000,
    decreases 63 - k,
{
    if k < 63 {
        lemma_two_to_fits(k + 1);
    } else {
        assert(two_to(63) == 0x8000_0000_0000_0000) by {
            reveal_with_fuel(two_to, 64);
        }
    }
}

/// The pause behind a failed attempt, in seconds.
pub fn backoff(attempt: u32) -> (seconds: u64)
    ensures
        seconds == backoff_seconds(attempt),
{
    if attempt <= 1 {
        return 1;
    }
    if attempt > 64 {
        return 0x8000_0000_0000_0000;
    }
    let mut seconds: u64 = 1;
    let mut doubled: u32 = 0;
    while doubled < attempt - 1
        invariant
            1 < attempt <= 64,
            doubled <= attempt - 1,
            seconds == two_to(doubled as nat),
        decreases attempt - 1 - doubled,
    {
        proof {
            lemma_two_to_fits(doubled as nat);
        }
        seconds = seconds * 2;
        doubled = doubled + 1;
    }
    seconds
}

impl orbScraper {
    /// An attempt has failed.
    fn attempt_failed(&self, state: Extraction, message: String) -> (step: (Extraction, Action))
        ensures
            (step.0@, step.1@) == fail_attempt(*self, state@, message@),
    {
        if state.attempt >= self.retry_attempts {
            (
                Extraction { attempt: state.attempt, phase: Phase::Finished, token: state.token },
                Action::Fail { message },
            )
        } else {
            let seconds = backoff(state.attempt);
            (
                Extraction { attempt: state.attempt, phase: Phase::Backoff, token: state.token },
                Action::Sleep { seconds },
            )
        }
    }

    /// The structured interface gave no balance.
    fn direct_failed(&self, state: Extraction, warm: bool) -> (step: (Extraction, Action))
        ensures
            (step.0@, step.1@) == after_direct(*self, state@, warm),
    {
        if warm {
            self.attempt_failed(state, String::from_str("Could not find credit balance in page"))
        } else if self.use_browser {
            let url = write_page_url(state.token.as_str());
            (moved(state, Phase::Render), Action::Render { url })
        } else {
            let url = write_page_url(state.token.as_str());
            (
                moved(state, Phase::Page { strategy: 1 }),
                Action::Request { url, headers: HeaderSet::Plain },
            )
        }
    }

    /// The first state and action of an extraction with the given token.
    pub fn begin(&self, token: String) -> (step: (Extraction, Action))
        ensures
            (step.0@, step.1@) == first_step(*self, token@),
    {
        if self.retry_attempts == 0 {
            (
                Extraction { attempt: 0, phase: Phase::Finished, token },
                Action::Fail { message: String::from_str("All retry attempts failed") },
            )
        } else {
            let url = write_customer_url(token.as_str());
            (
                Extraction { attempt: 1, phase: Phase::Customer { warm: false }, token },
                Action::Request { url, headers: HeaderSet::Api },
            )
        }
    }

    /// One step of fetching the balance: takes the event that answers the
    /// last action, at the time `now` in seconds, and says what follows.
    pub fn fetch_balance(&self, state: Extraction, event: Event, now: u64) -> (step: (
        Extraction,
        Action,
    ))
        ensures
            (step.0@, step.1@) == next_step(*self, state@, event@, now),
    {
        match state.phase {
            Phase::Customer { warm } => {
                if let Event::Reply { status, body } = event {
                    if 200 <= status && status < 300 {
                        if let Some(url) = ledger_url_from(body.as_str(), state.token.as_str()) {
                            return (
                                moved(state, Phase::Ledger { warm }),
                                Action::Request { url, headers: HeaderSet::Api },
                            );
                        }
                    }
                }
                self.direct_failed(state, warm)
            },
            Phase::Ledger { warm } => {
                if let Event::Reply { status, body } = event {
                    if 200 <= status && status < 300 {
                        if let Some(balance) = read_ledger_balance(body.as_str()) {
                            return finished(state, balance);
                        }
                    }
                }
                self.direct_failed(state, warm)
            },
            Phase::Render => match event {
                Event::Ready => (moved(state, Phase::Poll { round: 1 }), Action::ReadContent),
                other => {
                    let message = failure_message(other);
                    self.attempt_failed(state, message)
                },
            },
            Phase::Poll { round } => match event {
                Event::Content(content) => {
                    if content_shows_balance(content.as_str()) {
                        (moved(state, Phase::Scroll), Action::ScrollDown)
                    } else {
                        (moved(state, Phase::PollPause { round }), Action::Sleep { seconds: 3 })
                    }
                },
                other => {
                    let message = failure_message(other);
                    self.attempt_failed(state, message)
                },
            },
            Phase::PollPause { round } => {
                if round < 10 {
                    (moved(state, Phase::Poll { round: round + 1 }), Action::ReadContent)
                } else {
                    (moved(state, Phase::Scroll), Action::ScrollDown)
                }
            },
            Phase::Scroll => (moved(state, Phase::Settle), Action::Sleep { seconds: 2 }),
            Phase::Settle => (
                moved(state, Phase::Element { index: 0 }),
                Action::ReadElement { selector: write_balance_selector(0) },
            ),
            Phase::Element { index } => {
                if let Some(balance) = balance_in(&event) {
                    return finished(state, balance);
                }
                if index < SELECTORS - 1 {
                    (
                        moved(state, Phase::Element { index: index + 1 }),
                        Action::ReadElement { selector: write_balance_selector(index + 1) },
                    )
                } else {
                    (
                        moved(state, Phase::Script { index: 0 }),
                        Action::Evaluate { expression: write_balance_expression(0) },
                    )
                }
            },
            Phase::Script { index } => {
                if let Some(balance) = balance_in(&event) {
                    return finished(state, balance);
                }
                if index < EXPRESSIONS - 1 {
                    (
                        moved(state, Phase::Script { index: index + 1 }),
                        Action::Evaluate { expression: write_balance_expression(index + 1) },
                    )
                } else {
                    (moved(state, Phase::Content), Action::ReadContent)
                }
            },
            Phase::Content => match event {
                Event::Content(content) => match parse_balance_from_html(content.as_str()) {
                    Ok(balance) => finished(state, balance),
                    Err(_) => {
                        let url = write_customer_url(state.token.as_str());
                        (
                            moved(state, Phase::Customer { warm: true }),
                            Action::Request { url, headers: HeaderSet::Api },
                        )
                    },
                },
                other => {
                    let message = failure_message(other);
                    self.attempt_failed(state, message)
                },
            },
            Phase::Page { strategy } => {
                if let Some(balance) = balance_of_reply(&event) {
                    return finished(state, balance);
                }
                if strategy < 3 {
                    (moved(state, Phase::StrategyPause { strategy }), Action::Sleep { seconds: 1 })
                } else {
                    self.attempt_failed(
                        state,
                        String::from_str("Could not find credit balance with any strategy"),
                    )
                }
            },
            Phase::Candidate { index } => {
                if let Some(balance) = balance_of_reply(&event) {
                    return finished(state, balance);
                }
                if index < CANDIDATES - 1 {
                    let url = write_candidate_url(index + 1, state.token.as_str());
                    (
                        moved(state, Phase::Candidate { index: index + 1 }),
                        Action::Request { url, headers: HeaderSet::Plain },
                    )
                } else {
                    let url = write_fresh_page_url(state.token.as_str(), now);
                    (
                        moved(state, Phase::Page { strategy: 3 }),
                        Action::Request { url, headers: HeaderSet::Plain },
                    )
                }
            },
            Phase::StrategyPause { strategy } => {
                if strategy <= 1 {
                    let url = write_page_url(state.token.as_str());
                    (
                        moved(state, Phase::Page { strategy: 2 }),
                        Action::Request { url, headers: HeaderSet::Browser },
                    )
                } else {
                    let url = write_candidate_url(0, state.token.as_str());
                    (
                        moved(state, Phase::Candidate { index: 0 }),
                        Action::Request { url, headers: HeaderSet::Plain },
                    )
                }
            },
            Phase::Backoff => {
                if state.attempt < self.retry_attempts {
                    let url = write_customer_url(state.token.as_str());
                    (
                        Extraction {
                            attempt: state.attempt + 1,
                            phase: Phase::Customer { warm: false },
                            token: state.token,
                        },
                        Action::Request { url, headers: HeaderSet::Api },
                    )
                } else {
                    (
                        moved(state, Phase::Finished),
                        Action::Fail { message: String::from_str("All retry attempts failed") },
                    )
                }
            },
            Phase::Finished => (
                state,
                Action::Fail { message: String::from_str("The extraction has finished") },
            ),
        }
    }
}

/// The same extraction in another phase.
fn moved(state: Extraction, phase: Phase) -> (next: Extraction)
    ensures
        next@ == (ExtractionView { phase, ..state@ }),
{
    Extraction { attempt: state.attempt, phase, token: state.token }
}

/// The extraction ends with a balance.
fn finished(state: Extraction, balance: u32) -> (step: (Extraction, Action))
    ensures
        (step.0@, step.1@) == succeed(state@, balance),
{
    let source = match state.phase {
        Phase::Customer { .. } => Source::Api,
        Phase::Ledger { .. } => Source::Api,
        Phase::Page { .. } => Source::Http,
        Phase::Candidate { .. } => Source::Http,
        Phase::StrategyPause { .. } => Source::Http,
        _ => Source::Browser,
    };
    (moved(state, Phase::Finished), Action::Succeed { balance, source })
}

/// The reason for which an action failed.
fn failure_message(event: Event) -> (message: String)
    ensures
        message@ == failure_text(event@),
{
    match event {
        Event::Failed(reason) => reason,
        _ => String::from_str("The step did not answer as expected"),
    }
}

/// The balance in a text that was read.
fn balance_in(event: &Event) -> (balance: Option<u32>)
    ensures
        balance == text_balance(event@),
{
    match event {
        Event::Text(Some(text)) => extract_number_from_text(text.as_str()),
        _ => None,
    }
}

/// The balance that an answer gives by the strategies for a page.
fn balance_of_reply(event: &Event) -> (balance: Option<u32>)
    ensures
        balance == reply_balance(event@),
{
    match event {
        Event::Reply { status, body } => {
            if 200 <= *status && *status < 300 {
                match parse_balance_from_html(body.as_str()) {
                    Ok(balance) => Some(balance),
                    Err(_) => None,
                }
            } else {
                None
            }
        },
        _ => None,
    }
}

/// No step takes an extraction beyond the attempts that are allowed, and
/// none takes it back; and an extraction under way fails only on its last
/// attempt.
pub proof fn lemma_failure_needs_exhaustion(
    scraper: orbScraper,
    state: ExtractionView,
    event: EventView,
    now: u64,
)
    requires
        state.attempt <= scraper.retry_attempts,
    ensures
        next_step(scraper, state, event, now).0.attempt <= scraper.retry_attempts,
        next_step(scraper, state, event, now).0.attempt >= state.attempt,
        next_step(scraper, state, event, now).0.token == state.token,
        state.phase != Phase::Finished && next_step(scraper, state, event, now).1 is Fail
            ==> state.attempt == scraper.retry_attempts,
        next_step(scraper, state, event, now).1 is Fail || next_step(scraper, state, event, now).1
            is Succeed ==> next_step(scraper, state, event, now).0.phase == Phase::Finished,
        next_step(scraper, state, event, now).0.phase == Phase::Backoff ==> state.attempt
            < scraper.retry_attempts && next_step(scraper, state, event, now).1
            == (ActionView::Sleep { seconds: backoff_seconds(state.attempt) }),
{
}

/// A bound on the steps that are left of the attempt in a phase.
pub open spec fn phase_rank(phase: Phase) -> nat {
    match phase {
        Phase::Customer { warm } => if warm {
            2
        } else {
            52
        },
        Phase::Ledger { warm } => if warm {
            1
        } else {
            51
        },
        Phase::Render => 50,
        Phase::Poll { round } => if round < 10 {
            (29 + 2 * (10 - round)) as nat
        } else {
            29
        },
        Phase::PollPause { round } => if round < 10 {
            (28 + 2 * (10 - round)) as nat
        } else {
            28
        },
        Phase::Scroll => 27,
        Phase::Settle => 26,
        Phase::Element { index } => if index < 12 {
            (13 + (12 - index)) as nat
        } else {
            13
        },
        Phase::Script { index } => if index < 8 {
            (4 + (8 - index)) as nat
        } else {
            4
        },
        Phase::Content => 3,
        Phase::Page { strategy } => if strategy <= 1 {
            9
        } else if strategy == 2 {
            7
        } else {
            1
        },
        Phase::StrategyPause { strategy } => if strategy <= 1 {
            8
        } else {
            6
        },
        Phase::Candidate { index } => if index < 3 {
            (2 + (3 - index)) as nat
        } else {
            2
        },
        Phase::Backoff => 0,
        Phase::Finished => 0,
    }
}

/// A bound on the steps that are left of an extraction: none once it has
/// finished, else what is left of the attempt and a hundred for each
/// attempt still to come.
pub open spec fn steps_left(scraper: orbScraper, state: ExtractionView) -> nat {
    if state.phase == Phase::Finished {
        0
    } else {
        ((scraper.retry_attempts - state.attempt) * 100 + phase_rank(state.phase) + 1) as nat
    }
}

/// Every step of an extraction under way brings it nearer to its end: the
/// bound on the steps that are left falls with each step. So an extraction
/// ends, whatever the events, within a hundred steps for each attempt.
pub proof fn lemma_every_step_makes_progress(
    scraper: orbScraper,
    state: ExtractionView,
    event: EventView,
    now: u64,
)
    requires
        state.attempt <= scraper.retry_attempts,
        state.phase != Phase::Finished,
    ensures
        steps_left(scraper, next_step(scraper, state, event, now).0) < steps_left(scraper, state),
        steps_left(scraper, state) <= 100 * scraper.retry_attempts + 53,
        steps_left(scraper, first_step(scraper, state.token).0) <= 100 * scraper.retry_attempts,
{
}

} // verus!
