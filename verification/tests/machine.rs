use credit_monitor::scraper::{
    backoff, orbScraper, Action, Event, Extraction, HeaderSet, Phase, Source,
};

const CUSTOMER: &str = r#"{"customer":{"id":"cus_1","ledger_pricing_units":[{"id":"unit_9"},{"id":"other"}]}}"#;
const LEDGER: &str = r#"{"credits_balance":"2666.75"}"#;

fn reply(status: u16, body: &str) -> Event {
    Event::Reply { status, body: body.to_string() }
}

fn request(action: &Action) -> (&str, HeaderSet) {
    match action {
        Action::Request { url, headers } => (url.as_str(), *headers),
        other => panic!("not a request: {:?}", other),
    }
}

/// Lets the structured interface fail and hands back what follows.
fn after_direct_failure(scraper: &orbScraper, state: Extraction) -> (Extraction, Action) {
    scraper.fetch_balance(state, reply(500, ""), 0)
}

#[test]
fn direct_path_gives_the_balance() {
    let scraper = orbScraper::new();
    let (state, action) = scraper.begin("tok".to_string());
    assert_eq!(state.attempt, 1);
    assert_eq!(state.phase, Phase::Customer { warm: false });
    assert_eq!(
        request(&action),
        ("https://portal.withorb.com/api/v1/customer_from_link?token=tok", HeaderSet::Api)
    );
    let (state, action) = scraper.fetch_balance(state, reply(200, CUSTOMER), 0);
    assert_eq!(state.phase, Phase::Ledger { warm: false });
    assert_eq!(
        request(&action),
        (
            "https://portal.withorb.com/api/v1/customers/cus_1/ledger_summary?pricing_unit_id=unit_9&token=tok",
            HeaderSet::Api
        )
    );
    let (state, action) = scraper.fetch_balance(state, reply(200, LEDGER), 0);
    assert_eq!(state.phase, Phase::Finished);
    assert!(matches!(action, Action::Succeed { balance: 2666, .. }));
}

#[test]
fn direct_path_fails_fast() {
    let scraper = orbScraper::new();
    for event in [
        reply(404, CUSTOMER),
        reply(200, "not json"),
        reply(200, r#"{"customer":{"id":7,"ledger_pricing_units":[{"id":"u"}]}}"#),
        reply(200, r#"{"customer":{"id":"c","ledger_pricing_units":[]}}"#),
        reply(200, r#"{"customer":{"id":"c"}}"#),
        Event::Failed("no route".to_string()),
        Event::Elapsed,
    ] {
        let (state, _) = scraper.begin("tok".to_string());
        let (state, action) = scraper.fetch_balance(state, event, 0);
        assert_eq!(state.phase, Phase::Render);
        assert_eq!(state.attempt, 1);
        assert!(
            matches!(&action, Action::Render { url } if url == "https://portal.withorb.com/view?token=tok")
        );
    }
    for event in [
        reply(500, LEDGER),
        reply(200, r#"{"credits_balance":2666}"#),
        reply(200, r#"{"credits_balance":"lots"}"#),
        reply(200, r#"{"balance":"12"}"#),
    ] {
        let (state, _) = scraper.begin("tok".to_string());
        let (state, _) = scraper.fetch_balance(state, reply(200, CUSTOMER), 0);
        let (state, action) = scraper.fetch_balance(state, event, 0);
        assert_eq!(state.phase, Phase::Render);
        assert!(matches!(action, Action::Render { .. }));
    }
}

#[test]
fn browser_polls_until_the_balance_shows() {
    let scraper = orbScraper::new();
    let (state, _) = scraper.begin("tok".to_string());
    let (state, _) = after_direct_failure(&scraper, state);
    let (mut state, mut action) = scraper.fetch_balance(state, Event::Ready, 0);
    for round in 1..=3u32 {
        assert_eq!(state.phase, Phase::Poll { round });
        assert!(matches!(action, Action::ReadContent));
        let content = if round == 3 { "<p>User Messages</p>" } else { "<p>loading</p>" };
        let step = scraper.fetch_balance(state, Event::Content(content.to_string()), 0);
        state = step.0;
        action = step.1;
        if round < 3 {
            assert_eq!(state.phase, Phase::PollPause { round });
            assert!(matches!(action, Action::Sleep { seconds: 3 }));
            let step = scraper.fetch_balance(state, Event::Elapsed, 0);
            state = step.0;
            action = step.1;
        }
    }
    assert_eq!(state.phase, Phase::Scroll);
    assert!(matches!(action, Action::ScrollDown));
    let (state, action) = scraper.fetch_balance(state, Event::Elapsed, 0);
    assert_eq!(state.phase, Phase::Settle);
    assert!(matches!(action, Action::Sleep { seconds: 2 }));
    let (state, action) = scraper.fetch_balance(state, Event::Elapsed, 0);
    assert_eq!(state.phase, Phase::Element { index: 0 });
    assert!(matches!(&action, Action::ReadElement { selector } if selector == "span[data-testid='balance']"));
}

#[test]
fn browser_gives_up_polling_after_ten_rounds() {
    let scraper = orbScraper::new();
    let (state, _) = scraper.begin("tok".to_string());
    let (state, _) = after_direct_failure(&scraper, state);
    let (mut state, mut action) = scraper.fetch_balance(state, Event::Ready, 0);
    let mut polls = 0;
    while matches!(action, Action::ReadContent) {
        polls += 1;
        let (paused, pause) = scraper.fetch_balance(state, Event::Content("nothing".to_string()), 0);
        assert!(matches!(pause, Action::Sleep { seconds: 3 }));
        let step = scraper.fetch_balance(paused, Event::Elapsed, 0);
        state = step.0;
        action = step.1;
    }
    assert_eq!(polls, 10);
    assert_eq!(state.phase, Phase::Scroll);
    assert!(matches!(action, Action::ScrollDown));
}

/// Brings an extraction to the phase in which elements are read.
fn at_elements(scraper: &orbScraper) -> Extraction {
    let (state, _) = scraper.begin("tok".to_string());
    let (state, _) = after_direct_failure(scraper, state);
    let (state, _) = scraper.fetch_balance(state, Event::Ready, 0);
    let (state, _) = scraper.fetch_balance(state, Event::Content("Credit balance".to_string()), 0);
    let (state, _) = scraper.fetch_balance(state, Event::Elapsed, 0);
    let (state, _) = scraper.fetch_balance(state, Event::Elapsed, 0);
    assert_eq!(state.phase, Phase::Element { index: 0 });
    state
}

#[test]
fn element_text_gives_the_balance() {
    let scraper = orbScraper::new();
    let state = at_elements(&scraper);
    let (state, action) = scraper.fetch_balance(state, Event::Text(None), 0);
    assert_eq!(state.phase, Phase::Element { index: 1 });
    assert!(matches!(&action, Action::ReadElement { selector } if selector == ".balance"));
    let (state, _) = scraper.fetch_balance(state, Event::Text(Some("no number".to_string())), 0);
    assert_eq!(state.phase, Phase::Element { index: 2 });
    let (state, action) =
        scraper.fetch_balance(state, Event::Text(Some("2,683 User Messages".to_string())), 0);
    assert_eq!(state.phase, Phase::Finished);
    assert!(matches!(action, Action::Succeed { balance: 2683, .. }));
}

/// Answers every probe with nothing and hands back the state in which the
/// page is read at last.
fn at_content(scraper: &orbScraper) -> Extraction {
    let mut state = at_elements(scraper);
    let mut elements = 1;
    let mut scripts = 0;
    loop {
        let (next, action) = scraper.fetch_balance(state, Event::Text(None), 0);
        state = next;
        match action {
            Action::ReadElement { .. } => elements += 1,
            Action::Evaluate { expression } => {
                if scripts == 0 {
                    assert_eq!(expression, "window.__NEXT_DATA__?.props?.pageProps?.balance");
                }
                scripts += 1;
            }
            Action::ReadContent => break,
            other => panic!("unexpected action: {:?}", other),
        }
    }
    assert_eq!(elements, 13);
    assert_eq!(scripts, 9);
    assert_eq!(state.phase, Phase::Content);
    state
}

#[test]
fn script_value_gives_the_balance() {
    let scraper = orbScraper::new();
    let mut state = at_elements(&scraper);
    loop {
        let (next, action) = scraper.fetch_balance(state, Event::Text(None), 0);
        state = next;
        if matches!(action, Action::Evaluate { .. }) {
            break;
        }
    }
    assert_eq!(state.phase, Phase::Script { index: 0 });
    let (state, action) =
        scraper.fetch_balance(state, Event::Text(Some("String(\"12,345\")".to_string())), 0);
    assert_eq!(state.phase, Phase::Finished);
    assert!(matches!(action, Action::Succeed { balance: 12_345, .. }));
}

#[test]
fn rendered_page_is_searched_before_the_interface_is_asked_again() {
    let scraper = orbScraper::new();
    let state = at_content(&scraper);
    let page = "<div><h2>Credit balance</h2><span>2,683 User Messages</span></div>";
    let (state, action) = scraper.fetch_balance(state, Event::Content(page.to_string()), 0);
    assert_eq!(state.phase, Phase::Finished);
    assert!(matches!(action, Action::Succeed { balance: 2683, .. }));
}

#[test]
fn warmed_up_interface_is_asked_when_the_page_holds_nothing() {
    let scraper = orbScraper::new();
    let state = at_content(&scraper);
    let (state, action) =
        scraper.fetch_balance(state, Event::Content("<p>empty</p>".to_string()), 0);
    assert_eq!(state.phase, Phase::Customer { warm: true });
    assert_eq!(
        request(&action),
        ("https://portal.withorb.com/api/v1/customer_from_link?token=tok", HeaderSet::Api)
    );
    let (state, _) = scraper.fetch_balance(state, reply(200, CUSTOMER), 0);
    assert_eq!(state.phase, Phase::Ledger { warm: true });
    let (state, action) = scraper.fetch_balance(state, reply(200, LEDGER), 0);
    assert_eq!(state.phase, Phase::Finished);
    assert!(matches!(action, Action::Succeed { balance: 2666, .. }));
}

#[test]
fn attempt_fails_when_the_warmed_up_interface_fails() {
    let scraper = orbScraper { retry_attempts: 1, timeout_seconds: 30, use_browser: true };
    let state = at_content(&scraper);
    let (state, _) = scraper.fetch_balance(state, Event::Content("<p>empty</p>".to_string()), 0);
    let (state, _) = scraper.fetch_balance(state, reply(200, CUSTOMER), 0);
    let (state, action) = scraper.fetch_balance(state, reply(200, "{}"), 0);
    assert_eq!(state.phase, Phase::Finished);
    assert!(matches!(&action, Action::Fail { message } if message == "Could not find credit balance in page"));

    let state = at_content(&scraper);
    let (state, action) = scraper.fetch_balance(state, Event::Failed("gone".to_string()), 0);
    assert_eq!(state.phase, Phase::Finished);
    assert!(matches!(&action, Action::Fail { message } if message == "gone"));
}

/// Runs one attempt of the browser path that finds nothing.
fn failed_attempt(scraper: &orbScraper, state: Extraction) -> (Extraction, Action) {
    let (state, _) = after_direct_failure(scraper, state);
    let (state, _) = scraper.fetch_balance(state, Event::Ready, 0);
    let (state, _) = scraper.fetch_balance(state, Event::Content("Credit balance".to_string()), 0);
    let (state, _) = scraper.fetch_balance(state, Event::Elapsed, 0);
    let (mut state, mut action) = scraper.fetch_balance(state, Event::Elapsed, 0);
    while !matches!(action, Action::ReadContent) {
        let step = scraper.fetch_balance(state, Event::Text(None), 0);
        state = step.0;
        action = step.1;
    }
    let (state, _) = scraper.fetch_balance(state, Event::Content("<p>empty</p>".to_string()), 0);
    scraper.fetch_balance(state, Event::Failed("down".to_string()), 0)
}

#[test]
fn attempts_are_retried_with_growing_pauses() {
    let scraper = orbScraper::new();
    let (state, _) = scraper.begin("tok".to_string());
    let (state, action) = failed_attempt(&scraper, state);
    assert_eq!(state.phase, Phase::Backoff);
    assert!(matches!(action, Action::Sleep { seconds: 1 }));
    let (state, action) = scraper.fetch_balance(state, Event::Elapsed, 0);
    assert_eq!(state.attempt, 2);
    assert_eq!(state.phase, Phase::Customer { warm: false });
    assert!(matches!(action, Action::Request { .. }));
    let (state, action) = failed_attempt(&scraper, state);
    assert!(matches!(action, Action::Sleep { seconds: 2 }));
    let (state, _) = scraper.fetch_balance(state, Event::Elapsed, 0);
    assert_eq!(state.attempt, 3);
    let (state, action) = failed_attempt(&scraper, state);
    assert_eq!(state.phase, Phase::Finished);
    assert_eq!(state.attempt, 3);
    assert!(matches!(&action, Action::Fail { message } if message == "Could not find credit balance in page"));
    let (state, action) = scraper.fetch_balance(state, Event::Elapsed, 0);
    assert_eq!(state.phase, Phase::Finished);
    assert!(matches!(&action, Action::Fail { message } if message == "The extraction has finished"));
}

#[test]
fn backoff_doubles() {
    assert_eq!(backoff(0), 1);
    assert_eq!(backoff(1), 1);
    assert_eq!(backoff(2), 2);
    assert_eq!(backoff(3), 4);
    assert_eq!(backoff(11), 1024);
    assert_eq!(backoff(64), 1 << 63);
    assert_eq!(backoff(65), 1 << 63);
    assert_eq!(backoff(u32::MAX), 1 << 63);
}

#[test]
fn no_attempt_allowed() {
    let scraper = orbScraper { retry_attempts: 0, timeout_seconds: 30, use_browser: true };
    let (state, action) = scraper.begin("tok".to_string());
    assert_eq!(state.phase, Phase::Finished);
    assert!(matches!(&action, Action::Fail { message } if message == "All retry attempts failed"));
}

#[test]
fn browser_failures_fail_the_attempt() {
    let scraper = orbScraper { retry_attempts: 1, timeout_seconds: 30, use_browser: true };
    let (state, _) = scraper.begin("tok".to_string());
    let (state, _) = after_direct_failure(&scraper, state);
    let (state, action) =
        scraper.fetch_balance(state, Event::Failed("Failed to launch browser: none".to_string()), 0);
    assert_eq!(state.phase, Phase::Finished);
    assert!(matches!(&action, Action::Fail { message } if message == "Failed to launch browser: none"));

    let (state, _) = scraper.begin("tok".to_string());
    let (state, _) = after_direct_failure(&scraper, state);
    let (state, _) = scraper.fetch_balance(state, Event::Ready, 0);
    let (_, action) = scraper.fetch_balance(state, Event::Elapsed, 0);
    assert!(matches!(&action, Action::Fail { message } if message == "The step did not answer as expected"));
}

#[test]
fn plain_http_strategies() {
    let scraper = orbScraper { retry_attempts: 1, timeout_seconds: 30, use_browser: false };
    let (state, _) = scraper.begin("tok".to_string());
    let (state, action) = after_direct_failure(&scraper, state);
    assert_eq!(state.phase, Phase::Page { strategy: 1 });
    assert_eq!(request(&action), ("https://portal.withorb.com/view?token=tok", HeaderSet::Plain));
    let (state, action) = scraper.fetch_balance(state, reply(200, "<p>loading</p>"), 0);
    assert_eq!(state.phase, Phase::StrategyPause { strategy: 1 });
    assert!(matches!(action, Action::Sleep { seconds: 1 }));
    let (state, action) = scraper.fetch_balance(state, Event::Elapsed, 0);
    assert_eq!(state.phase, Phase::Page { strategy: 2 });
    assert_eq!(request(&action), ("https://portal.withorb.com/view?token=tok", HeaderSet::Browser));
    let (state, _) = scraper.fetch_balance(state, reply(503, "Credit balance: 5"), 0);
    assert_eq!(state.phase, Phase::StrategyPause { strategy: 2 });
    let (mut state, mut action) = scraper.fetch_balance(state, Event::Elapsed, 0);
    let expected = [
        "https://portal.withorb.com/api/customer/balance?token=tok",
        "https://portal.withorb.com/api/v1/balance?token=tok",
        "https://portal.withorb.com/api/balance?token=tok",
        "https://portal.withorb.com/customer/data?token=tok",
    ];
    for (index, url) in expected.iter().enumerate() {
        assert_eq!(state.phase, Phase::Candidate { index });
        assert_eq!(request(&action), (*url, HeaderSet::Plain));
        let step = scraper.fetch_balance(state, reply(404, ""), 1_700_000_000);
        state = step.0;
        action = step.1;
    }
    assert_eq!(state.phase, Phase::Page { strategy: 3 });
    assert_eq!(
        request(&action),
        ("https://portal.withorb.com/view?token=tok&_cb=1700000000", HeaderSet::Plain)
    );
    let (state, action) = scraper.fetch_balance(state, Event::Failed("timeout".to_string()), 0);
    assert_eq!(state.phase, Phase::Finished);
    assert!(
        matches!(&action, Action::Fail { message } if message == "Could not find credit balance with any strategy")
    );
}

#[test]
fn plain_http_finds_the_balance() {
    let scraper = orbScraper { retry_attempts: 3, timeout_seconds: 30, use_browser: false };
    let (state, _) = scraper.begin("tok".to_string());
    let (state, _) = after_direct_failure(&scraper, state);
    let (state, action) = scraper.fetch_balance(state, reply(200, "<p>Credit balance: 77</p>"), 0);
    assert_eq!(state.phase, Phase::Finished);
    assert!(matches!(action, Action::Succeed { balance: 77, .. }));

    let (state, _) = scraper.begin("tok".to_string());
    let (state, _) = after_direct_failure(&scraper, state);
    let (state, _) = scraper.fetch_balance(state, reply(500, ""), 0);
    let (state, _) = scraper.fetch_balance(state, Event::Elapsed, 0);
    let (state, _) = scraper.fetch_balance(state, reply(500, ""), 0);
    let (state, _) = scraper.fetch_balance(state, Event::Elapsed, 0);
    let (state, _) = scraper.fetch_balance(state, reply(200, "{}"), 0);
    let (state, action) = scraper.fetch_balance(state, reply(200, r#"{"balance": 4321}"#), 0);
    assert_eq!(state.phase, Phase::Finished);
    assert!(matches!(action, Action::Succeed { balance: 4321, .. }));
}

#[test]
fn balance_names_its_path() {
    let scraper = orbScraper { retry_attempts: 1, timeout_seconds: 30, use_browser: false };
    let (state, _) = scraper.begin("tok".to_string());
    let (state, _) = scraper.fetch_balance(state, reply(200, CUSTOMER), 0);
    let (_, action) = scraper.fetch_balance(state, reply(200, LEDGER), 0);
    assert!(matches!(action, Action::Succeed { source: Source::Api, .. }));
    let (state, _) = scraper.begin("tok".to_string());
    let (state, _) = after_direct_failure(&scraper, state);
    let (_, action) = scraper.fetch_balance(state, reply(200, "Credit balance: 3"), 0);
    assert!(matches!(action, Action::Succeed { balance: 3, source: Source::Http }));
    let browser = orbScraper::new();
    let state = at_elements(&browser);
    let (_, action) = browser.fetch_balance(state, Event::Text(Some("1,234".to_string())), 0);
    assert!(matches!(action, Action::Succeed { balance: 1234, source: Source::Browser }));
    assert_eq!(Source::Api.name(), "api");
    assert_eq!(Source::Browser.name(), "browser");
    assert_eq!(Source::Http.name(), "http");
}

#[test]
fn header_sets() {
    let names = |set: HeaderSet| -> Vec<String> {
        set.headers("tok").into_iter().map(|(name, _)| name).collect()
    };
    assert_eq!(names(HeaderSet::Api), vec!["Accept", "User-Agent", "Referer", "Origin"]);
    assert_eq!(names(HeaderSet::Plain), vec!["User-Agent"]);
    assert_eq!(names(HeaderSet::Browser).len(), 7);
    let api = HeaderSet::Api.headers("tok");
    assert_eq!(api[0].1, "application/json");
    assert_eq!(api[2].1, "https://portal.withorb.com/view?token=tok");
    assert_eq!(api[3].1, "https://portal.withorb.com");
    assert!(api[1].1.ends_with("Chrome/120.0.0.0 Safari/537.36"));
    assert_eq!(
        HeaderSet::Plain.headers("")[0].1,
        "Mozilla/5.0 (Macintosh; Intel Mac OS X 10_15_7) AppleWebKit/537.36"
    );
}
