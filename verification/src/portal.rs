//! The portal: the addresses that are asked, the answers of its structured
//! interface, and the probes that are run against its rendered page.

use vstd::prelude::*;
use vstd::string::{StringExecFns, StringSliceAdditionalSpecFns};
use vstd::utf8::encode_utf8;
use crate::json::{
    first_item, json_first_item, json_member, json_text, member, parse_json, parsed_json,
    text_value, JsonValue,
};
use crate::error::{AppError, AppResult};
use crate::number::{
    decimal_rounded, decimal_truncated, parse_decimal_rounded, parse_decimal_truncated,
};
use crate::text::{bytes_contain, contains_bytes, decimal_digits, decimal_text};

verus! {

/// The address of the portal's page for a token.
pub open spec fn page_url(token: Seq<char>) -> Seq<char> {
    "https://portal.withorb.com/view?token="@ + token
}

/// The address that resolves a token to its customer.
pub open spec fn customer_url(token: Seq<char>) -> Seq<char> {
    "https://portal.withorb.com/api/v1/customer_from_link?token="@ + token
}

/// The address of the ledger summary of a customer in a pricing unit.
pub open spec fn ledger_url(customer: Seq<char>, unit: Seq<char>, token: Seq<char>) -> Seq<char> {
    "https://portal.withorb.com/api/v1/customers/"@ + customer + "/ledger_summary?pricing_unit_id="@
        + unit + "&token="@ + token
}

/// How many other addresses may answer with a balance.
pub const CANDIDATES: usize = 4;

/// The address of the candidate of the given index.
pub open spec fn candidate_url(index: int, token: Seq<char>) -> Seq<char> {
    if index == 0 {
        "https://portal.withorb.com/api/customer/balance?token="@ + token
    } else if index == 1 {
        "https://portal.withorb.com/api/v1/balance?token="@ + token
    } else if index == 2 {
        "https://portal.withorb.com/api/balance?token="@ + token
    } else {
        "https://portal.withorb.com/customer/data?token="@ + token
    }
}

/// The address of the portal's page with a parameter that no cache has seen:
/// the time in seconds.
pub open spec fn fresh_page_url(token: Seq<char>, now: u64) -> Seq<char> {
    page_url(token) + "&_cb="@ + decimal_digits(now as nat)
}

/// Writes the address of the portal's page.
pub fn write_page_url(token: &str) -> (url: String)
    ensures
        url@ == page_url(token@),
{
    String::from_str("https://portal.withorb.com/view?token=").concat(token)
}

/// Writes the address that resolves a token to its customer.
pub fn write_customer_url(token: &str) -> (url: String)
    ensures
        url@ == customer_url(token@),
{
    String::from_str("https://portal.withorb.com/api/v1/customer_from_link?token=").concat(token)
}

/// Writes the address of a ledger summary.
pub fn write_ledger_url(customer: &str, unit: &str, token: &str) -> (url: String)
    ensures
        url@ == ledger_url(customer@, unit@, token@),
{
    let mut url = String::from_str("https://portal.withorb.com/api/v1/customers/");
    url.append(customer);
    url.append("/ledger_summary?pricing_unit_id=");
    url.append(unit);
    url.append("&token=");
    url.append(token);
    url
}

/// Writes the address of a candidate.
pub fn write_candidate_url(index: usize, token: &str) -> (url: String)
    ensures
        url@ == candidate_url(index as int, token@),
{
    let stem = if index == 0 {
        "https://portal.withorb.com/api/customer/balance?token="
    } else if index == 1 {
        "https://portal.withorb.com/api/v1/balance?token="
    } else if index == 2 {
        "https://portal.withorb.com/api/balance?token="
    } else {
        "https://portal.withorb.com/customer/data?token="
    };
    String::from_str(stem).concat(token)
}

/// Writes the address of the portal's page with the time in it.
pub fn write_fresh_page_url(token: &str, now: u64) -> (url: String)
    ensures
        url@ == fresh_page_url(token@, now),
{
    let mut url = write_page_url(token);
    url.append("&_cb=");
    url.append(decimal_text(now as u128).as_str());
    url
}

/// The text of the member `name` of `json`.
pub open spec fn text_member(json: JsonValue, name: Seq<char>) -> Option<Seq<char>> {
    match member(json, name) {
        Some(value) => text_value(value),
        None => None,
    }
}

/// The identifier of the customer in the answer to a token.
pub open spec fn customer_id(answer: JsonValue) -> Option<Seq<char>> {
    match member(answer, "customer"@) {
        Some(customer) => text_member(customer, "id"@),
        None => None,
    }
}

/// The identifier of the customer's first pricing unit in the answer to a
/// token.
pub open spec fn pricing_unit_id(answer: JsonValue) -> Option<Seq<char>> {
    match member(answer, "customer"@) {
        Some(customer) => match member(customer, "ledger_pricing_units"@) {
            Some(units) => match first_item(units) {
                Some(unit) => text_member(unit, "id"@),
                None => None,
            },
            None => None,
        },
        None => None,
    }
}

/// The address of the ledger that the answer to a token leads to: there is
/// one where the answer is a JSON document with both identifiers.
pub open spec fn ledger_of(body: Seq<char>, token: Seq<char>) -> Option<Seq<char>> {
    match parsed_json(encode_utf8(body)) {
        Some(answer) => match (customer_id(answer), pricing_unit_id(answer)) {
            (Some(customer), Some(unit)) => Some(ledger_url(customer, unit, token)),
            _ => None,
        },
        None => None,
    }
}

/// The balance in a ledger summary: the member `credits_balance`, a text
/// that is a decimal number, with its fraction cut off.
pub open spec fn ledger_balance(body: Seq<char>) -> Option<u32> {
    match parsed_json(encode_utf8(body)) {
        Some(answer) => match text_member(answer, "credits_balance"@) {
            Some(text) => decimal_truncated(encode_utf8(text)),
            None => None,
        },
        None => None,
    }
}

/// The text of a member of an object.
fn member_text<'a>(json: &'a JsonValue, name: &str) -> (text: Option<&'a String>)
    ensures
        match text {
            Some(s) => text_member(*json, name@) == Some(s@),
            None => text_member(*json, name@) is None,
        },
{
    match json_member(json, name) {
        Some(value) => json_text(value),
        None => None,
    }
}

/// Reads the answer to a token and writes the address of the ledger that it
/// leads to.
pub fn ledger_url_from(body: &str, token: &str) -> (url: Option<String>)
    ensures
        match url {
            Some(u) => ledger_of(body@, token@) == Some(u@),
            None => ledger_of(body@, token@) is None,
        },
{
    let answer = match parse_json(body.as_bytes()) {
        Some(json) => json,
        None => {
            return None;
        },
    };
    let customer = match json_member(&answer, "customer") {
        Some(c) => c,
        None => {
            return None;
        },
    };
    let id = match member_text(customer, "id") {
        Some(text) => text,
        None => {
            return None;
        },
    };
    let units = match json_member(customer, "ledger_pricing_units") {
        Some(u) => u,
        None => {
            return None;
        },
    };
    let unit = match json_first_item(units) {
        Some(u) => u,
        None => {
            return None;
        },
    };
    let unit_id = match member_text(unit, "id") {
        Some(text) => text,
        None => {
            return None;
        },
    };
    Some(write_ledger_url(id.as_str(), unit_id.as_str(), token))
}

/// Reads the balance out of a ledger summary.
pub fn read_ledger_balance(body: &str) -> (balance: Option<u32>)
    ensures
        balance == ledger_balance(body@),
{
    let answer = match parse_json(body.as_bytes()) {
        Some(json) => json,
        None => {
            return None;
        },
    };
    match member_text(&answer, "credits_balance") {
        Some(text) => parse_decimal_truncated(text.as_str()),
        None => None,
    }
}

/// The rendered page shows the balance: it holds one of the texts that
/// stand beside it.
pub open spec fn shows_balance(content: Seq<char>) -> bool {
    let page = encode_utf8(content);
    contains_bytes(page, "Credit balance".spec_bytes()) || contains_bytes(
        page,
        "User Messages".spec_bytes(),
    ) || contains_bytes(page, "2,666".spec_bytes())
}

/// Whether the rendered page shows the balance.
pub fn content_shows_balance(content: &str) -> (shown: bool)
    ensures
        shown == shows_balance(content@),
{
    let page = content.as_bytes();
    bytes_contain(page, "Credit balance".as_bytes()) || bytes_contain(
        page,
        "User Messages".as_bytes(),
    ) || bytes_contain(page, "2,666".as_bytes())
}

/// How many selectors are tried on the rendered page.
pub const SELECTORS: usize = 13;

/// The selector of the given index: elements that may show the balance.
pub open spec fn balance_selector(index: int) -> Seq<char> {
    if index == 0 {
        "span[data-testid='balance']"@
    } else if index == 1 {
        ".balance"@
    } else if index == 2 {
        ".credit-balance"@
    } else if index == 3 {
        "[class*='balance']"@
    } else if index == 4 {
        "[class*='credit']"@
    } else if index == 5 {
        "[data-balance]"@
    } else if index == 6 {
        "[data-credits]"@
    } else if index == 7 {
        "span:contains('$')"@
    } else if index == 8 {
        "div:contains('balance')"@
    } else if index == 9 {
        "span:contains('credit')"@
    } else if index == 10 {
        "div:contains('$')"@
    } else if index == 11 {
        "*:contains('remaining')"@
    } else {
        "*:contains('available')"@
    }
}

/// Writes the selector of the given index.
pub fn write_balance_selector(index: usize) -> (selector: String)
    ensures
        selector@ == balance_selector(index as int),
{
    let text = if index == 0 {
        "span[data-testid='balance']"
    } else if index == 1 {
        ".balance"
    } else if index == 2 {
        ".credit-balance"
    } else if index == 3 {
        "[class*='balance']"
    } else if index == 4 {
        "[class*='credit']"
    } else if index == 5 {
        "[data-balance]"
    } else if index == 6 {
        "[data-credits]"
    } else if index == 7 {
        "span:contains('$')"
    } else if index == 8 {
        "div:contains('balance')"
    } else if index == 9 {
        "span:contains('credit')"
    } else if index == 10 {
        "div:contains('$')"
    } else if index == 11 {
        "*:contains('remaining')"
    } else {
        "*:contains('available')"
    };
    String::from_str(text)
}

/// How many expressions are evaluated in the rendered page.
pub const EXPRESSIONS: usize = 9;

/// The expression of the given index: places where the page may keep the
/// balance.
pub open spec fn balance_expression(index: int) -> Seq<char> {
    if index == 0 {
        "window.__NEXT_DATA__?.props?.pageProps?.balance"@
    } else if index == 1 {
        "window.__NEXT_DATA__?.props?.pageProps?.credits"@
    } else if index == 2 {
        "window.__NEXT_DATA__?.props?.pageProps?.customer?.balance"@
    } else if index == 3 {
        "window.balance"@
    } else if index == 4 {
        "window.credits"@
    } else if index == 5 {
        "window.customerBalance"@
    } else if index == 6 {
        "document.querySelector('[data-balance]')?.textContent"@
    } else if index == 7 {
        "document.querySelector('[data-credits]')?.textContent"@
    } else {
        "Array.from(document.querySelectorAll('*')).find(el => el.textContent.includes('$'))?.textContent"@
    }
}

/// Writes the expression of the given index.
pub fn write_balance_expression(index: usize) -> (expression: String)
    ensures
        expression@ == balance_expression(index as int),
{
    let text = if index == 0 {
        "window.__NEXT_DATA__?.props?.pageProps?.balance"
    } else if index == 1 {
        "window.__NEXT_DATA__?.props?.pageProps?.credits"
    } else if index == 2 {
        "window.__NEXT_DATA__?.props?.pageProps?.customer?.balance"
    } else if index == 3 {
        "window.balance"
    } else if index == 4 {
        "window.credits"
    } else if index == 5 {
        "window.customerBalance"
    } else if index == 6 {
        "document.querySelector('[data-balance]')?.textContent"
    } else if index == 7 {
        "document.querySelector('[data-credits]')?.textContent"
    } else {
        "Array.from(document.querySelectorAll('*')).find(el => el.textContent.includes('$'))?.textContent"
    };
    String::from_str(text)
}

/// The balance of the first customer in a list of customers, or the reason
/// for which there is none: the member `data` is a list, its first item has
/// a member `balance` that is a text, and the text is a decimal number,
/// which is rounded.
pub open spec fn customers_balance(body: Seq<char>) -> Result<u32, Seq<char>> {
    let text = match parsed_json(encode_utf8(body)) {
        Some(answer) => match member(answer, "data"@) {
            Some(list) => match first_item(list) {
                Some(customer) => text_member(customer, "balance"@),
                None => None,
            },
            None => None,
        },
        None => None,
    };
    match text {
        Some(t) => match decimal_rounded(encode_utf8(t)) {
            Some(balance) => Ok(balance),
            None => Err("Invalid balance format: "@ + t),
        },
        None => Err("Could not find balance in API response"@),
    }
}

/// Reads the balance of the first customer out of a list of customers.
pub fn read_customers_balance(body: &str) -> (outcome: AppResult<u32>)
    ensures
        match customers_balance(body@) {
            Ok(balance) => outcome matches Ok(b) && b == balance,
            Err(reason) => outcome matches Err(AppError::Scraping(m)) && m@ == reason,
        },
{
    let answer = parse_json(body.as_bytes());
    let text = match &answer {
        Some(json) => match json_member(json, "data") {
            Some(list) => match json_first_item(list) {
                Some(customer) => member_text(customer, "balance"),
                None => None,
            },
            None => None,
        },
        None => None,
    };
    match text {
        Some(t) => match parse_decimal_rounded(t.as_str()) {
            Some(balance) => Ok(balance),
            None => Err(
                AppError::Scraping(String::from_str("Invalid balance format: ").concat(t.as_str())),
            ),
        },
        None => Err(AppError::Scraping(String::from_str("Could not find balance in API response"))),
    }
}

/// The balance that the answer to a request for the ledger gives, or the
/// reason for which it gives none: a status other than success, or an
/// answer that holds no balance.
pub open spec fn fresh_balance_of(status: u16, body: Seq<char>) -> Result<u32, Seq<char>> {
    if !(200 <= status < 300) {
        Err("HTTP error: "@ + decimal_digits(status as nat))
    } else {
        match ledger_balance(body) {
            Some(balance) => Ok(balance),
            None => Err("Failed to extract balance from response"@),
        }
    }
}

/// Reads the balance out of the answer to a request for the ledger.
pub fn fresh_balance(status: u16, body: &str) -> (outcome: AppResult<u32>)
    ensures
        match fresh_balance_of(status, body@) {
            Ok(balance) => outcome matches Ok(b) && b == balance,
            Err(reason) => outcome matches Err(AppError::Io(m)) && m@ == reason,
        },
{
    if status < 200 || status >= 300 {
        let mut message = String::from_str("HTTP error: ");
        message.append(decimal_text(status as u128).as_str());
        return Err(AppError::Io(message));
    }
    match read_ledger_balance(body) {
        Some(balance) => Ok(balance),
        None => Err(AppError::Io(String::from_str("Failed to extract balance from response"))),
    }
}

} // verus!
