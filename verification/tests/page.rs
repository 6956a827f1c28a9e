use credit_monitor::error::AppError;
use credit_monitor::json::{
    extract_balance_from_json, extract_number_from_json_value, get_json_value_by_path,
    key_names_balance, search_json_for_balance, JsonNumber, JsonValue,
};
use credit_monitor::portal::{
    content_shows_balance, ledger_url_from, read_customers_balance, read_ledger_balance,
};
use credit_monitor::number::{
    parse_decimal_rounded, parse_decimal_truncated, round_float_bits, truncate_float_bits,
};
use credit_monitor::page::{
    extract_balance_from_raw_html, extract_balance_from_scripts, extract_balance_strategy_1,
    extract_balance_strategy_2, extract_balance_strategy_3,
};
use credit_monitor::scraper::{
    extract_balance_from_nextjs_data, orbScraper, parse_balance_from_html,
};

#[test]
fn test_parse_balance_from_html() {
    let test_html = r#"
            <div>
                <h2>Credit balance</h2>
                <span>2,683 User Messages</span>
            </div>
        "#;
    let balance = parse_balance_from_html(test_html).unwrap();
    assert_eq!(balance, 2683);
}

#[test]
fn page_without_balance_is_an_error() {
    match parse_balance_from_html("<html><body><p>Hello</p></body></html>") {
        Err(AppError::Scraping(m)) => assert_eq!(m, "Could not find credit balance in page"),
        other => panic!("unexpected outcome: {:?}", other),
    }
}

#[test]
fn embedded_data_comes_first() {
    let html = r#"<html><body><span>Credit balance: 1,111 User Messages</span>
        <script id="__NEXT_DATA__" type="application/json">{"props":{"pageProps":{"customer":{"name":"x","creditBalance":"2,666"}}}}</script>
        </body></html>"#;
    assert_eq!(extract_balance_from_nextjs_data(html), Some(2666));
    assert_eq!(parse_balance_from_html(html).unwrap(), 2666);
}

#[test]
fn embedded_data_that_is_no_json_is_skipped() {
    let html = r#"<script id="__NEXT_DATA__">{"balance": 12,</script><p>Credit balance: 4,321</p>"#;
    assert_eq!(extract_balance_from_nextjs_data(html), None);
    assert_eq!(parse_balance_from_html(html).unwrap(), 4321);
}

#[test]
fn element_that_mentions_the_balance() {
    let html = "<div><p>CREDIT BALANCE 3,210</p></div>";
    assert_eq!(extract_balance_strategy_1(html), Some(3210));
    assert_eq!(extract_balance_strategy_1("<div><p>other 3,210</p></div>"), None);
}

#[test]
fn visible_text_patterns() {
    assert_eq!(extract_balance_strategy_2("<p>Available: 750</p>"), Some(750));
    assert_eq!(extract_balance_strategy_2("<p>42 remaining</p>"), Some(42));
    assert_eq!(extract_balance_strategy_2("<p>nothing</p>"), None);
}

#[test]
fn marked_elements() {
    let html = r#"<div><span class="x">9999</span><span class="user-balance">1,500</span></div>"#;
    assert_eq!(extract_balance_strategy_3(html), Some(1500));
    let by_id = r#"<div><b id="credit-total">12345</b></div>"#;
    assert_eq!(extract_balance_strategy_3(by_id), Some(12345));
    assert_eq!(extract_balance_strategy_3("<div><b>12345</b></div>"), None);
}

#[test]
fn script_fields() {
    let html = r#"<script>window.x = {"remaining": 640, "other": 1};</script>"#;
    assert_eq!(extract_balance_from_scripts(html), Some(640));
    assert_eq!(extract_balance_from_scripts("<script>var a = 1;</script>"), None);
}

#[test]
fn markup_attributes() {
    assert_eq!(extract_balance_from_raw_html("<i data-balance=2048></i>"), Some(8));
    assert_eq!(extract_balance_from_raw_html(r#"<i data-balance="2,048"></i>"#), None);
    assert_eq!(extract_balance_from_raw_html("<i></i>"), None);
}

fn number(unsigned: Option<u64>, float: f64) -> JsonValue {
    JsonValue::Number(JsonNumber { unsigned, float_bits: Some(float.to_bits()) })
}

#[test]
fn json_search_finds_named_member() {
    let doc = JsonValue::Object(vec![
        ("name".to_string(), JsonValue::Text("x".to_string())),
        (
            "data".to_string(),
            JsonValue::Array(vec![
                JsonValue::Null,
                JsonValue::Object(vec![("Credit_Total".to_string(), number(Some(812), 812.0))]),
            ]),
        ),
        ("balance".to_string(), number(Some(5), 5.0)),
    ]);
    assert_eq!(search_json_for_balance(&doc), Some(812));
}

#[test]
fn json_search_skips_what_is_no_balance() {
    let doc = JsonValue::Object(vec![
        ("balance".to_string(), JsonValue::Bool(true)),
        ("amount".to_string(), number(Some(5_000_000), 5_000_000.0)),
        ("credits".to_string(), JsonValue::Text("1,234".to_string())),
    ]);
    assert_eq!(search_json_for_balance(&doc), Some(1234));
    assert_eq!(search_json_for_balance(&JsonValue::Array(vec![])), None);
    assert_eq!(search_json_for_balance(&JsonValue::Text("12".to_string())), None);
}

#[test]
fn json_numbers_are_rounded() {
    assert_eq!(extract_number_from_json_value(&number(None, 12.5)), Some(13));
    assert_eq!(extract_number_from_json_value(&number(None, 12.49)), Some(12));
    assert_eq!(extract_number_from_json_value(&number(None, -3.0)), Some(0));
    assert_eq!(extract_number_from_json_value(&number(None, 1e9)), None);
    assert_eq!(extract_number_from_json_value(&JsonValue::Text("7.5".to_string())), Some(8));
    assert_eq!(extract_number_from_json_value(&JsonValue::Text("abc".to_string())), None);
    assert_eq!(extract_number_from_json_value(&JsonValue::Null), None);
}

#[test]
fn member_names() {
    assert!(key_names_balance("creditBalance"));
    assert!(key_names_balance("AMOUNT"));
    assert!(key_names_balance("credits"));
    assert!(!key_names_balance("name"));
}

#[test]
fn doubles_by_their_bits() {
    let cases: [f64; 18] = [
        0.0, 0.4, 0.5, 0.49999999999999994, 1.0, 1.5, 2.5, 2666.0, 2666.49, 2666.5, 4294967295.0,
        4294967295.5, 4294967296.0, 1e300, 5e-324, -0.0, -0.5, -2666.7,
    ];
    for f in cases {
        assert_eq!(round_float_bits(f.to_bits()), f.round() as u32, "round {}", f);
        assert_eq!(truncate_float_bits(f.to_bits()), f as u32, "truncate {}", f);
    }
    assert_eq!(round_float_bits(f64::INFINITY.to_bits()), u32::MAX);
    assert_eq!(round_float_bits(f64::NEG_INFINITY.to_bits()), 0);
    assert_eq!(round_float_bits(f64::NAN.to_bits()), 0);
    assert_eq!(truncate_float_bits(f64::NAN.to_bits()), 0);
}

#[test]
fn decimal_texts() {
    assert_eq!(parse_decimal_truncated("2666.99"), Some(2666));
    assert_eq!(parse_decimal_rounded("2666.49"), Some(2666));
    assert_eq!(parse_decimal_rounded("2666.5"), Some(2667));
    assert_eq!(parse_decimal_rounded("+7"), Some(7));
    assert_eq!(parse_decimal_rounded("-7.9"), Some(0));
    assert_eq!(parse_decimal_rounded(".5"), Some(1));
    assert_eq!(parse_decimal_rounded("5."), Some(5));
    assert_eq!(parse_decimal_rounded("."), None);
    assert_eq!(parse_decimal_rounded(""), None);
    assert_eq!(parse_decimal_rounded("-"), None);
    assert_eq!(parse_decimal_rounded("1,234"), None);
    assert_eq!(parse_decimal_rounded("1.2.3"), None);
    assert_eq!(parse_decimal_rounded("12a"), None);
    assert_eq!(parse_decimal_truncated("99999999999999999999"), Some(u32::MAX));
    assert_eq!(parse_decimal_rounded("4294967295.5"), Some(u32::MAX));
}

#[test]
fn token_validation() {
    let scraper = orbScraper::new();
    let valid = |status: u16, html: &str| scraper.validate_token(Some((status, html.to_string())));
    assert_eq!(valid(200, "<html>Your Credit usage</html>").unwrap(), true);
    assert_eq!(valid(204, "the PORTAL").unwrap(), true);
    assert_eq!(valid(200, "<html>hello</html>").unwrap(), false);
    assert_eq!(valid(404, "credit balance").unwrap(), false);
    assert_eq!(valid(199, "credit balance").unwrap(), false);
    assert_eq!(valid(300, "credit balance").unwrap(), false);
    assert_eq!(valid(500, "").unwrap(), false);
    assert!(matches!(valid(401, "credit balance"), Err(AppError::AuthenticationFailed)));
    assert!(matches!(valid(403, ""), Err(AppError::AuthenticationFailed)));
    assert_eq!(scraper.validate_token(None).unwrap(), false);
}

#[test]
fn known_places_of_a_structured_answer() {
    let doc = JsonValue::Object(vec![
        ("credits".to_string(), JsonValue::Bool(true)),
        (
            "customer".to_string(),
            JsonValue::Object(vec![("credits".to_string(), JsonValue::Text("about 1,250".to_string()))]),
        ),
        (
            "data".to_string(),
            JsonValue::Object(vec![("balance".to_string(), number(Some(77), 77.0))]),
        ),
    ]);
    assert_eq!(extract_balance_from_json(&doc), Some(1250));
    assert!(get_json_value_by_path(&doc, &["customer", "credits"]).is_some());
    assert!(get_json_value_by_path(&doc, &["customer", "balance"]).is_none());
    assert!(get_json_value_by_path(&doc, &["credits", "x"]).is_none());
    assert!(matches!(get_json_value_by_path(&doc, &[]), Some(JsonValue::Object(_))));
    let first = JsonValue::Object(vec![
        ("result".to_string(), JsonValue::Object(vec![("balance".to_string(), number(Some(5), 5.0))])),
        ("balance".to_string(), number(Some(2_000_000), 2e6)),
        ("remaining_balance".to_string(), number(None, 12.5)),
    ]);
    assert_eq!(extract_balance_from_json(&first), Some(5));
    assert_eq!(extract_balance_from_json(&JsonValue::Null), None);
}

#[test]
fn balance_of_the_first_customer() {
    assert_eq!(
        read_customers_balance(r#"{"data":[{"balance":"123.45"},{"balance":"7"}]}"#).unwrap(),
        123
    );
    assert_eq!(read_customers_balance(r#"{"data":[{"balance":"123.5"}]}"#).unwrap(), 124);
    let reason = |body: &str| match read_customers_balance(body) {
        Err(AppError::Scraping(m)) => m,
        other => panic!("unexpected outcome: {:?}", other),
    };
    assert_eq!(reason(r#"{"data":[{"balance":"lots"}]}"#), "Invalid balance format: lots");
    assert_eq!(reason(r#"{"data":[]}"#), "Could not find balance in API response");
    assert_eq!(reason(r#"{"data":[{"balance":12}]}"#), "Could not find balance in API response");
    assert_eq!(reason("[]"), "Could not find balance in API response");
    assert_eq!(reason("nothing"), "Could not find balance in API response");
}

#[test]
fn answers_of_the_structured_interface() {
    let answer = r#"{"customer":{"id":"c 1","ledger_pricing_units":[{"id":"u/2"}]}}"#;
    assert_eq!(
        ledger_url_from(answer, "t").unwrap(),
        "https://portal.withorb.com/api/v1/customers/c 1/ledger_summary?pricing_unit_id=u/2&token=t"
    );
    assert!(ledger_url_from(r#"{"customer":null}"#, "t").is_none());
    assert_eq!(read_ledger_balance(r#"{"credits_balance":"2666.99"}"#), Some(2666));
    assert_eq!(read_ledger_balance(r#"{"credits_balance":"-3"}"#), Some(0));
    assert_eq!(read_ledger_balance(r#"{"credits_balance":"99999999999"}"#), Some(u32::MAX));
    assert_eq!(read_ledger_balance(r#"{"credits_balance":"1e3"}"#), None);
    assert_eq!(read_ledger_balance(r#"{"credits_balance":2666}"#), None);
    assert!(content_shows_balance("<b>Credit balance</b>"));
    assert!(content_shows_balance("12 User Messages"));
    assert!(content_shows_balance("2,666"));
    assert!(!content_shows_balance("credit balance"));
}
