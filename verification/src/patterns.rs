//! The pattern library: regular expressions that find a balance in text, in
//! the order in which they are tried.
//!
//! The expressions are matched by the `regex` crate. What it captures is
//! named here, not described; what is done with a capture is verified.

use vstd::prelude::*;
use vstd::string::StringSliceAdditionalSpecFns;
use vstd::utf8::encode_utf8;
use crate::text::{number_string_value, parse_number_string};

verus! {

/// No balance above this is believed: a larger number is a price, an
/// identifier or the like.
pub const MAX_BALANCE: u32 = 1_000_000;

/// The text of the first group of the first match of `pattern` in `text`, as
/// the `regex` crate finds it; none where the pattern is not valid, nothing
/// matches, or the group took no part in the match.
pub uninterp spec fn first_capture(pattern: Seq<char>, text: Seq<char>) -> Option<Seq<char>>;

/// For every match of `pattern` in `text`, in order, the text of its first
/// group, as the `regex` crate finds them; empty where the pattern is not
/// valid.
pub uninterp spec fn all_captures(pattern: Seq<char>, text: Seq<char>) -> Seq<Option<Seq<char>>>;

/// The characters of a text that may be missing.
pub open spec fn text_of(capture: Option<String>) -> Option<Seq<char>> {
    match capture {
        Some(s) => Some(s@),
        None => None,
    }
}

/// Compiles `pattern` with `regex::Regex::new`, searches `text` with
/// `Regex::captures` and takes the first group with `Captures::get`. The
/// result is what `first_capture` names.
#[verifier::external_body]
fn capture_first(pattern: &str, text: &str) -> (capture: Option<String>)
    ensures
        text_of(capture) == first_capture(pattern@, text@),
{
    let compiled = regex::Regex::new(pattern).ok()?;
    compiled.captures(text)?.get(1).map(|m| m.as_str().to_string())
}

/// Compiles `pattern` with `regex::Regex::new`, walks the matches in `text`
/// with `Regex::captures_iter` and takes the first group of each with
/// `Captures::get`. The result is what `all_captures` names.
#[verifier::external_body]
fn capture_all(pattern: &str, text: &str) -> (captures: Vec<Option<String>>)
    ensures
        captures@.map_values(|c: Option<String>| text_of(c)) == all_captures(pattern@, text@),
{
    match regex::Regex::new(pattern) {
        Ok(compiled) => compiled.captures_iter(text).map(
            |c| c.get(1).map(|m| m.as_str().to_string()),
        ).collect(),
        Err(_) => Vec::new(),
    }
}

/// The balance that a capture gives: the number it denotes, where it denotes
/// one that is at most `limit`.
pub open spec fn accepted(capture: Option<Seq<char>>, limit: u32) -> Option<u32> {
    match capture {
        Some(c) => match number_string_value(encode_utf8(c)) {
            Some(n) => if n <= limit {
                Some(n)
            } else {
                None
            },
            None => None,
        },
        None => None,
    }
}

/// The balance that the first of `captures` to give one gives.
pub open spec fn first_accepted(captures: Seq<Option<Seq<char>>>, limit: u32) -> Option<u32>
    decreases captures.len(),
{
    if captures.len() == 0 {
        None
    } else {
        match accepted(captures[0], limit) {
            Some(n) => Some(n),
            None => first_accepted(captures.drop_first(), limit),
        }
    }
}

/// The balance that the first of `patterns` to give one gives, each by the
/// first group of its first match in `text`.
pub open spec fn first_pattern_value(
    patterns: Seq<Seq<char>>,
    text: Seq<char>,
    limit: u32,
) -> Option<u32>
    decreases patterns.len(),
{
    if patterns.len() == 0 {
        None
    } else {
        match accepted(first_capture(patterns[0], text), limit) {
            Some(n) => Some(n),
            None => first_pattern_value(patterns.drop_first(), text, limit),
        }
    }
}

/// The balance that the first of `patterns` to give one gives, each by the
/// first of all its matches in `text` that denotes an acceptable number.
pub open spec fn first_scan_value(patterns: Seq<Seq<char>>, text: Seq<char>, limit: u32) -> Option<
    u32,
>
    decreases patterns.len(),
{
    if patterns.len() == 0 {
        None
    } else {
        match first_accepted(all_captures(patterns[0], text), limit) {
            Some(n) => Some(n),
            None => first_scan_value(patterns.drop_first(), text, limit),
        }
    }
}

/// The characters of each pattern of a table.
pub open spec fn pattern_texts(patterns: Seq<&str>) -> Seq<Seq<char>> {
    patterns.map_values(|p: &str| p@)
}

/// The balance that a capture gives.
pub fn accept_capture(capture: &Option<String>, limit: u32) -> (value: Option<u32>)
    ensures
        value == accepted(text_of(*capture), limit),
{
    match capture {
        Some(c) => match parse_number_string(c.as_str()) {
            Some(n) => if n <= limit {
                Some(n)
            } else {
                None
            },
            None => None,
        },
        None => None,
    }
}

/// The balance that the first of `captures` to give one gives.
pub fn accept_first(captures: &Vec<Option<String>>, limit: u32) -> (value: Option<u32>)
    ensures
        value == first_accepted(captures@.map_values(|c: Option<String>| text_of(c)), limit),
{
    let ghost all = captures@.map_values(|c: Option<String>| text_of(c));
    let mut i: usize = 0;
    assert(all.subrange(0, all.len() as int) =~= all);
    while i < captures.len()
        invariant
            i <= captures.len(),
            all == captures@.map_values(|c: Option<String>| text_of(c)),
            first_accepted(all, limit) == first_accepted(
                all.subrange(i as int, all.len() as int),
                limit,
            ),
        decreases captures.len() - i,
    {
        proof {
            assert(all.subrange(i as int, all.len() as int).drop_first() =~= all.subrange(
                i + 1,
                all.len() as int,
            ));
        }
        if let Some(n) = accept_capture(&captures[i], limit) {
            return Some(n);
        }
        i = i + 1;
    }
    None
}

/// Tries each pattern in turn on `text`, by the first group of its first
/// match, and hands back the first balance found.
pub fn match_patterns(patterns: &[&str], text: &str, limit: u32) -> (value: Option<u32>)
    ensures
        value == first_pattern_value(pattern_texts(patterns@), text@, limit),
{
    let ghost all = pattern_texts(patterns@);
    let mut i: usize = 0;
    assert(all.subrange(0, all.len() as int) =~= all);
    while i < patterns.len()
        invariant
            i <= patterns.len(),
            all == pattern_texts(patterns@),
            first_pattern_value(all, text@, limit) == first_pattern_value(
                all.subrange(i as int, all.len() as int),
                text@,
                limit,
            ),
        decreases patterns.len() - i,
    {
        proof {
            assert(all.subrange(i as int, all.len() as int).drop_first() =~= all.subrange(
                i + 1,
                all.len() as int,
            ));
        }
        let capture = capture_first(patterns[i], text);
        if let Some(n) = accept_capture(&capture, limit) {
            return Some(n);
        }
        i = i + 1;
    }
    None
}

/// Tries each pattern in turn on `text`, by all of its matches in order, and
/// hands back the first balance found.
pub fn scan_patterns(patterns: &[&str], text: &str, limit: u32) -> (value: Option<u32>)
    ensures
        value == first_scan_value(pattern_texts(patterns@), text@, limit),
{
    let ghost all = pattern_texts(patterns@);
    let mut i: usize = 0;
    assert(all.subrange(0, all.len() as int) =~= all);
    while i < patterns.len()
        invariant
            i <= patterns.len(),
            all == pattern_texts(patterns@),
            first_scan_value(all, text@, limit) == first_scan_value(
                all.subrange(i as int, all.len() as int),
                text@,
                limit,
            ),
        decreases patterns.len() - i,
    {
        proof {
            assert(all.subrange(i as int, all.len() as int).drop_first() =~= all.subrange(
                i + 1,
                all.len() as int,
            ));
        }
        let captures = capture_all(patterns[i], text);
        if let Some(n) = accept_first(&captures, limit) {
            return Some(n);
        }
        i = i + 1;
    }
    None
}

/// The patterns that read a balance beside the labels of the portal.
pub open spec fn label_pattern_table() -> Seq<Seq<char>> {
    seq![
        r"Credit balance:\s*(\d{1,3}(?:,\d{3})*)\s*User Messages"@,
        r"Credit balance:\s*(\d{1,3}(?:,\d{3})*)"@,
        r"(\d{1,3}(?:,\d{3})*)\s*User Messages"@,
        r"balance:\s*(\d{1,3}(?:,\d{3})*)"@,
    ]
}

/// The patterns that read a balance beside the labels of the portal.
pub fn label_patterns() -> (table: Vec<&'static str>)
    ensures
        pattern_texts(table@) == label_pattern_table(),
{
    let table: Vec<&'static str> = vec![
        r"Credit balance:\s*(\d{1,3}(?:,\d{3})*)\s*User Messages",
        r"Credit balance:\s*(\d{1,3}(?:,\d{3})*)",
        r"(\d{1,3}(?:,\d{3})*)\s*User Messages",
        r"balance:\s*(\d{1,3}(?:,\d{3})*)",
    ];
    proof {
        assert(pattern_texts(table@) =~= label_pattern_table());
    }
    table
}

/// The patterns that read any number that looks like a balance: one with
/// thousands separators, or one of four or more digits.
pub open spec fn number_pattern_table() -> Seq<Seq<char>> {
    seq![
        r"(\d{1,3}(?:,\d{3})+)"@,
        r"(\d{4,})"@,
    ]
}

/// The patterns that read any number that looks like a balance: one with
/// thousands separators, or one of four or more digits.
pub fn number_patterns() -> (table: Vec<&'static str>)
    ensures
        pattern_texts(table@) == number_pattern_table(),
{
    let table: Vec<&'static str> = vec![
        r"(\d{1,3}(?:,\d{3})+)",
        r"(\d{4,})",
    ];
    proof {
        assert(pattern_texts(table@) =~= number_pattern_table());
    }
    table
}

/// The patterns for the visible text of a page: those of the portal first,
/// then those of embedded data, the most general last.
pub open spec fn page_pattern_table() -> Seq<Seq<char>> {
    seq![
        r"(\d{1,3}(?:,\d{3})*)\s*(?:User\s*Messages?|Credits?|Messages?)"@,
        r"Credit\s*balance[:\s]*(\d{1,3}(?:,\d{3})*)"@,
        r"Balance[:\s]*(\d{1,3}(?:,\d{3})*)"@,
        r"(\d{1,3}(?:,\d{3})*)\s*remaining"@,
        r"Available[:\s]*(\d{1,3}(?:,\d{3})*)"@,
        r"(\d{1,3}(?:,\d{3})*)\s*(?:credits?|units?|tokens?)"@,
        r#""balance"[:\s]*(\d+)"#@,
        r#""credits?"[:\s]*(\d+)"#@,
        r#""remaining"[:\s]*(\d+)"#@,
        r"(\d{1,3}(?:,\d{3})+)"@,
    ]
}

/// The patterns for the visible text of a page: those of the portal first,
/// then those of embedded data, the most general last.
pub fn page_patterns() -> (table: Vec<&'static str>)
    ensures
        pattern_texts(table@) == page_pattern_table(),
{
    let table: Vec<&'static str> = vec![
        r"(\d{1,3}(?:,\d{3})*)\s*(?:User\s*Messages?|Credits?|Messages?)",
        r"Credit\s*balance[:\s]*(\d{1,3}(?:,\d{3})*)",
        r"Balance[:\s]*(\d{1,3}(?:,\d{3})*)",
        r"(\d{1,3}(?:,\d{3})*)\s*remaining",
        r"Available[:\s]*(\d{1,3}(?:,\d{3})*)",
        r"(\d{1,3}(?:,\d{3})*)\s*(?:credits?|units?|tokens?)",
        r#""balance"[:\s]*(\d+)"#,
        r#""credits?"[:\s]*(\d+)"#,
        r#""remaining"[:\s]*(\d+)"#,
        r"(\d{1,3}(?:,\d{3})+)",
    ];
    proof {
        assert(pattern_texts(table@) =~= page_pattern_table());
    }
    table
}

/// The patterns for the text of a script: fields of inline data.
pub open spec fn script_pattern_table() -> Seq<Seq<char>> {
    seq![
        r#""balance"[:\s]*(\d+)"#@,
        r#""credits?"[:\s]*(\d+)"#@,
        r#""remaining"[:\s]*(\d+)"#@,
        r#""amount"[:\s]*(\d+)"#@,
        r#""value"[:\s]*(\d+)"#@,
    ]
}

/// The patterns for the text of a script: fields of inline data.
pub fn script_patterns() -> (table: Vec<&'static str>)
    ensures
        pattern_texts(table@) == script_pattern_table(),
{
    let table: Vec<&'static str> = vec![
        r#""balance"[:\s]*(\d+)"#,
        r#""credits?"[:\s]*(\d+)"#,
        r#""remaining"[:\s]*(\d+)"#,
        r#""amount"[:\s]*(\d+)"#,
        r#""value"[:\s]*(\d+)"#,
    ];
    proof {
        assert(pattern_texts(table@) =~= script_pattern_table());
    }
    table
}

/// The patterns for the markup itself: attributes that carry a number.
pub open spec fn markup_pattern_table() -> Seq<Seq<char>> {
    seq![
        r#"data-balance[="][^"]*(\d{1,3}(?:,\d{3})*)"#@,
        r#"data-credits?[="][^"]*(\d{1,3}(?:,\d{3})*)"#@,
        r#"value[="][^"]*(\d{1,3}(?:,\d{3})*)"#@,
        r#"aria-label[="][^"]*(\d{1,3}(?:,\d{3})*)"#@,
        r#"title[="][^"]*(\d{1,3}(?:,\d{3})*)"#@,
    ]
}

/// The patterns for the markup itself: attributes that carry a number.
pub fn markup_patterns() -> (table: Vec<&'static str>)
    ensures
        pattern_texts(table@) == markup_pattern_table(),
{
    let table: Vec<&'static str> = vec![
        r#"data-balance[="][^"]*(\d{1,3}(?:,\d{3})*)"#,
        r#"data-credits?[="][^"]*(\d{1,3}(?:,\d{3})*)"#,
        r#"value[="][^"]*(\d{1,3}(?:,\d{3})*)"#,
        r#"aria-label[="][^"]*(\d{1,3}(?:,\d{3})*)"#,
        r#"title[="][^"]*(\d{1,3}(?:,\d{3})*)"#,
    ];
    proof {
        assert(pattern_texts(table@) =~= markup_pattern_table());
    }
    table
}

/// The balance beside one of the portal's labels in `text`.
pub open spec fn label_value(text: Seq<char>) -> Option<u32> {
    first_pattern_value(label_pattern_table(), text, MAX_BALANCE)
}

/// The balance in `text`: the one beside a label of the portal, else the
/// first number that looks like a balance.
pub open spec fn number_in_text(text: Seq<char>) -> Option<u32> {
    match label_value(text) {
        Some(n) => Some(n),
        None => first_scan_value(number_pattern_table(), text, MAX_BALANCE),
    }
}

/// Reads the balance that stands beside one of the portal's labels.
pub fn extract_orb_balance_pattern(text: &str) -> (value: Option<u32>)
    ensures
        value == label_value(text@),
{
    let table = label_patterns();
    match_patterns(table.as_slice(), text, MAX_BALANCE)
}

/// Reads a balance out of a piece of text.
pub fn extract_number_from_text(text: &str) -> (value: Option<u32>)
    ensures
        value == number_in_text(text@),
        value matches Some(n) ==> n <= MAX_BALANCE,
{
    if let Some(n) = extract_orb_balance_pattern(text) {
        proof {
            lemma_pattern_value_within(label_pattern_table(), text@, MAX_BALANCE);
        }
        return Some(n);
    }
    let table = number_patterns();
    let found = scan_patterns(table.as_slice(), text, MAX_BALANCE);
    proof {
        lemma_scan_value_within(number_pattern_table(), text@, MAX_BALANCE);
    }
    found
}

/// No balance that a table of patterns gives is above the limit.
pub proof fn lemma_pattern_value_within(patterns: Seq<Seq<char>>, text: Seq<char>, limit: u32)
    ensures
        first_pattern_value(patterns, text, limit) matches Some(n) ==> n <= limit,
    decreases patterns.len(),
{
    if patterns.len() > 0 {
        lemma_pattern_value_within(patterns.drop_first(), text, limit);
    }
}

/// No balance among a series of captures is above the limit.
pub proof fn lemma_accepted_within(captures: Seq<Option<Seq<char>>>, limit: u32)
    ensures
        first_accepted(captures, limit) matches Some(n) ==> n <= limit,
    decreases captures.len(),
{
    if captures.len() > 0 {
        lemma_accepted_within(captures.drop_first(), limit);
    }
}

/// No balance that a table of patterns gives by scanning is above the limit.
pub proof fn lemma_scan_value_within(patterns: Seq<Seq<char>>, text: Seq<char>, limit: u32)
    ensures
        first_scan_value(patterns, text, limit) matches Some(n) ==> n <= limit,
    decreases patterns.len(),
{
    if patterns.len() > 0 {
        lemma_accepted_within(all_captures(patterns[0], text), limit);
        lemma_scan_value_within(patterns.drop_first(), text, limit);
    }
}

} // verus!
