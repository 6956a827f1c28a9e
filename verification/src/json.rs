//! Embedded data: a JSON document as a value of the library, and the search
//! for a balance in it.
//!
//! Documents are parsed by the `serde_json` crate. What it parses is named
//! here, not described; the search is verified.

use vstd::prelude::*;
use vstd::string::{StringExecFns, StringSliceAdditionalSpecFns};
use vstd::utf8::encode_utf8;
use crate::number::{decimal_rounded, float_rounded, parse_decimal_rounded, round_float_bits};
use crate::page::{lower, lowercase};
use crate::patterns::{extract_number_from_text, number_in_text, MAX_BALANCE};
use crate::text::{bytes_contain, contains_bytes, number_string_value, parse_number_string};

verus! {

broadcast use vstd::std_specs::vec::group_vec_axioms;

/// A JSON number, as far as it is read: as an unsigned integer where it is
/// one, and as the bits of the double nearest to it.
#[derive(Clone, Copy, Debug, PartialEq, Eq, Structural)]
pub struct JsonNumber {
    pub unsigned: Option<u64>,
    pub float_bits: Option<u64>,
}

/// A JSON document. The members of an object stand in the order in which
/// the parser hands them out.
#[derive(Debug)]
pub enum JsonValue {
    Null,
    Bool(bool),
    Number(JsonNumber),
    Text(String),
    Array(Vec<JsonValue>),
    Object(Vec<(String, JsonValue)>),
}

/// The document that `bytes` holds, as the `serde_json` crate parses it;
/// none where it holds no JSON document.
pub uninterp spec fn parsed_json(bytes: Seq<u8>) -> Option<JsonValue>;

/// Makes `serde_json::Value` known as a type of which nothing is seen: it
/// is only handed from the parser to the function that takes it apart.
#[verifier::external_type_specification]
#[verifier::external_body]
pub struct ExValue(serde_json::Value);

/// Tells the variants of `serde_json::Value` apart and moves what each holds
/// into the library's own type; a number is read with `Number::as_u64` and
/// `Number::as_f64`. Nothing is claimed of the result here.
#[verifier::external_body]
fn json_from(value: &serde_json::Value) -> (json: JsonValue) {
    match value {
        serde_json::Value::Null => JsonValue::Null,
        serde_json::Value::Bool(b) => JsonValue::Bool(*b),
        serde_json::Value::Number(n) => JsonValue::Number(
            JsonNumber { unsigned: n.as_u64(), float_bits: n.as_f64().map(|f| f.to_bits()) },
        ),
        serde_json::Value::String(s) => JsonValue::Text(s.clone()),
        serde_json::Value::Array(a) => JsonValue::Array(a.iter().map(json_from).collect()),
        serde_json::Value::Object(m) => JsonValue::Object(
            m.iter().map(|(k, v)| (k.clone(), json_from(v))).collect(),
        ),
    }
}

/// Parses `bytes` with `serde_json::from_slice`. The result is what
/// `parsed_json` names.
#[verifier::external_body]
pub(crate) fn parse_json(bytes: &[u8]) -> (json: Option<JsonValue>)
    ensures
        json == parsed_json(bytes@),
{
    serde_json::from_slice::<serde_json::Value>(bytes).ok().map(|v| json_from(&v))
}

/// A balance, where it is one that is believed.
pub open spec fn believed(value: Option<u32>) -> Option<u32> {
    match value {
        Some(n) => if n <= MAX_BALANCE {
            Some(n)
        } else {
            None
        },
        None => None,
    }
}

/// The name of a member says that it holds a balance: in lower case it
/// holds "balance", "credit" or "amount".
pub open spec fn names_balance(key: Seq<char>) -> bool {
    let name = encode_utf8(lowercase(key));
    contains_bytes(name, "balance".spec_bytes()) || contains_bytes(name, "credit".spec_bytes())
        || contains_bytes(name, "amount".spec_bytes())
}

/// The balance that a JSON value is, if it is one: a number, rounded; or a
/// text that is a decimal number, rounded, or a number with thousands
/// separators.
pub open spec fn json_number_value(value: JsonValue) -> Option<u32> {
    match value {
        JsonValue::Number(n) => believed(
            match n.float_bits {
                Some(bits) => Some(float_rounded(bits)),
                None => match n.unsigned {
                    Some(u) => Some((u % 0x1_0000_0000) as u32),
                    None => None,
                },
            },
        ),
        JsonValue::Text(s) => believed(
            match decimal_rounded(encode_utf8(s@)) {
                Some(v) => Some(v),
                None => number_string_value(encode_utf8(s@)),
            },
        ),
        _ => None,
    }
}

/// How many members an object or an array has.
pub open spec fn member_count(json: JsonValue) -> nat {
    match json {
        JsonValue::Array(items) => items@.len(),
        JsonValue::Object(entries) => entries@.len(),
        _ => 0,
    }
}

/// The first balance in `json`, searching its members from index `from` on
/// and each member in depth before the next: a member of an object whose
/// name says so and whose value is a balance gives it; else what is found
/// inside the member does.
pub open spec fn balance_from(json: JsonValue, from: nat) -> Option<u32>
    decreases json, member_count(json) - from,
{
    match json {
        JsonValue::Array(items) => if from >= items@.len() {
            None
        } else {
            match balance_from(items@[from as int], 0) {
                Some(n) => Some(n),
                None => balance_from(json, from + 1),
            }
        },
        JsonValue::Object(entries) => if from >= entries@.len() {
            None
        } else {
            let direct = if names_balance(entries@[from as int].0@) {
                json_number_value(entries@[from as int].1)
            } else {
                None
            };
            match direct {
                Some(n) => Some(n),
                None => match balance_from(entries@[from as int].1, 0) {
                    Some(n) => Some(n),
                    None => balance_from(json, from + 1),
                },
            }
        },
        _ => None,
    }
}

/// The first balance in a JSON document.
pub open spec fn json_balance(json: JsonValue) -> Option<u32> {
    balance_from(json, 0)
}

/// Whether the name of a member says that it holds a balance.
pub fn key_names_balance(key: &str) -> (yes: bool)
    ensures
        yes == names_balance(key@),
{
    let lowered = lower(key);
    let name = lowered.as_str().as_bytes();
    bytes_contain(name, "balance".as_bytes()) || bytes_contain(name, "credit".as_bytes())
        || bytes_contain(name, "amount".as_bytes())
}

/// The balance that a JSON value is, if it is one.
pub fn extract_number_from_json_value(value: &JsonValue) -> (balance: Option<u32>)
    ensures
        balance == json_number_value(*value),
{
    let found = match value {
        JsonValue::Number(n) => match n.float_bits {
            Some(bits) => Some(round_float_bits(bits)),
            None => match n.unsigned {
                Some(u) => Some((u % 0x1_0000_0000) as u32),
                None => None,
            },
        },
        JsonValue::Text(s) => match parse_decimal_rounded(s.as_str()) {
            Some(v) => Some(v),
            None => parse_number_string(s.as_str()),
        },
        _ => None,
    };
    match found {
        Some(n) => if n <= MAX_BALANCE {
            Some(n)
        } else {
            None
        },
        None => None,
    }
}

/// Searches a JSON document for a balance.
pub fn search_json_for_balance(json: &JsonValue) -> (balance: Option<u32>)
    ensures
        balance == json_balance(*json),
    decreases json,
{
    match json {
        JsonValue::Array(items) => {
            let mut i: usize = 0;
            while i < items.len()
                invariant
                    i <= items.len(),
                    *json == JsonValue::Array(*items),
                    balance_from(*json, 0) == balance_from(*json, i as nat),
                decreases items.len() - i,
            {
                if let Some(n) = search_json_for_balance(&items[i]) {
                    return Some(n);
                }
                i = i + 1;
            }
            None
        },
        JsonValue::Object(entries) => {
            let mut i: usize = 0;
            while i < entries.len()
                invariant
                    i <= entries.len(),
                    *json == JsonValue::Object(*entries),
                    balance_from(*json, 0) == balance_from(*json, i as nat),
                decreases entries.len() - i,
            {
                let entry = &entries[i];
                if key_names_balance(entry.0.as_str()) {
                    if let Some(n) = extract_number_from_json_value(&entry.1) {
                        return Some(n);
                    }
                }
                if let Some(n) = search_json_for_balance(&entry.1) {
                    return Some(n);
                }
                i = i + 1;
            }
            None
        },
        _ => None,
    }
}

/// The value of the first member of an object that bears the name `name`.
pub open spec fn member_from(entries: Seq<(String, JsonValue)>, name: Seq<char>) -> Option<
    JsonValue,
>
    decreases entries.len(),
{
    if entries.len() == 0 {
        None
    } else if entries[0].0@ == name {
        Some(entries[0].1)
    } else {
        member_from(entries.drop_first(), name)
    }
}

/// The member of an object that bears the name `name`; none where the value
/// is no object or has no such member.
pub open spec fn member(json: JsonValue, name: Seq<char>) -> Option<JsonValue> {
    match json {
        JsonValue::Object(entries) => member_from(entries@, name),
        _ => None,
    }
}

/// The characters of a value that is a text.
pub open spec fn text_value(json: JsonValue) -> Option<Seq<char>> {
    match json {
        JsonValue::Text(s) => Some(s@),
        _ => None,
    }
}

/// The first item of a value that is an array.
pub open spec fn first_item(json: JsonValue) -> Option<JsonValue> {
    match json {
        JsonValue::Array(items) => if items@.len() > 0 {
            Some(items@[0])
        } else {
            None
        },
        _ => None,
    }
}

/// The member of an object that bears the name `name`.
pub fn json_member<'a>(json: &'a JsonValue, name: &str) -> (found: Option<&'a JsonValue>)
    ensures
        match found {
            Some(value) => member(*json, name@) == Some(*value),
            None => member(*json, name@) is None,
        },
{
    match json {
        JsonValue::Object(entries) => {
            let wanted = String::from_str(name);
            let mut i: usize = 0;
            assert(entries@.subrange(0, entries@.len() as int) =~= entries@);
            while i < entries.len()
                invariant
                    i <= entries.len(),
                    wanted@ == name@,
                    *json == JsonValue::Object(*entries),
                    member_from(entries@, name@) == member_from(
                        entries@.subrange(i as int, entries@.len() as int),
                        name@,
                    ),
                decreases entries.len() - i,
            {
                proof {
                    assert(entries@.subrange(i as int, entries@.len() as int).drop_first()
                        =~= entries@.subrange(i + 1, entries@.len() as int));
                    assert(entries@.subrange(i as int, entries@.len() as int)[0]
                        == entries@[i as int]);
                }
                if entries[i].0 == wanted {
                    return Some(&entries[i].1);
                }
                i = i + 1;
            }
            None
        },
        _ => None,
    }
}

/// The text that a value is.
pub fn json_text<'a>(json: &'a JsonValue) -> (text: Option<&'a String>)
    ensures
        match text {
            Some(s) => text_value(*json) == Some(s@),
            None => text_value(*json) is None,
        },
{
    match json {
        JsonValue::Text(s) => Some(s),
        _ => None,
    }
}

/// The first item of an array.
pub fn json_first_item<'a>(json: &'a JsonValue) -> (item: Option<&'a JsonValue>)
    ensures
        match item {
            Some(value) => first_item(*json) == Some(*value),
            None => first_item(*json) is None,
        },
{
    match json {
        JsonValue::Array(items) => if items.len() > 0 {
            Some(&items[0])
        } else {
            None
        },
        _ => None,
    }
}

/// The value at the end of a path of member names, from `from` on.
pub open spec fn value_at(json: JsonValue, path: Seq<Seq<char>>) -> Option<JsonValue>
    decreases path.len(),
{
    if path.len() == 0 {
        Some(json)
    } else {
        match member(json, path[0]) {
            Some(inner) => value_at(inner, path.drop_first()),
            None => None,
        }
    }
}

/// The balance that a JSON value at a known place is: a number that is an
/// unsigned integer, by its low 32 bits; or a text, by the number in it.
pub open spec fn placed_value(value: JsonValue) -> Option<u32> {
    match value {
        JsonValue::Number(n) => believed(
            match n.unsigned {
                Some(u) => Some((u % 0x1_0000_0000) as u32),
                None => None,
            },
        ),
        JsonValue::Text(s) => number_in_text(s@),
        _ => None,
    }
}

/// The places at which a structured answer may keep the balance, each a
/// path of member names.
pub open spec fn balance_paths() -> Seq<Seq<Seq<char>>> {
    seq![
        seq!["balance"@],
        seq!["credit_balance"@],
        seq!["credits"@],
        seq!["remaining_balance"@],
        seq!["customer"@, "balance"@],
        seq!["customer"@, "credits"@],
        seq!["data"@, "balance"@],
        seq!["data"@, "credits"@],
        seq!["result"@, "balance"@],
    ]
}

/// The balance at the first of `paths` that leads to one.
pub open spec fn first_placed(json: JsonValue, paths: Seq<Seq<Seq<char>>>) -> Option<u32>
    decreases paths.len(),
{
    if paths.len() == 0 {
        None
    } else {
        let here = match value_at(json, paths[0]) {
            Some(value) => placed_value(value),
            None => None,
        };
        match here {
            Some(n) => Some(n),
            None => first_placed(json, paths.drop_first()),
        }
    }
}

/// The value at the end of a path of member names.
pub fn get_json_value_by_path<'a>(json: &'a JsonValue, path: &[&str]) -> (found: Option<
    &'a JsonValue,
>)
    ensures
        match found {
            Some(value) => value_at(*json, path@.map_values(|p: &str| p@)) == Some(*value),
            None => value_at(*json, path@.map_values(|p: &str| p@)) is None,
        },
{
    let ghost names = path@.map_values(|p: &str| p@);
    let mut current: &JsonValue = json;
    let mut i: usize = 0;
    assert(names.subrange(0, names.len() as int) =~= names);
    while i < path.len()
        invariant
            i <= path.len(),
            names == path@.map_values(|p: &str| p@),
            value_at(*json, names) == value_at(
                *current,
                names.subrange(i as int, names.len() as int),
            ),
        decreases path.len() - i,
    {
        proof {
            let rest = names.subrange(i as int, names.len() as int);
            assert(rest[0] == path@[i as int]@);
            assert(rest.drop_first() =~= names.subrange(i + 1, names.len() as int));
        }
        match json_member(current, path[i]) {
            Some(inner) => {
                current = inner;
            },
            None => {
                return None;
            },
        }
        i = i + 1;
    }
    Some(current)
}

/// The balance that a JSON value at a known place is.
pub fn extract_balance_from_json_value(value: &JsonValue) -> (balance: Option<u32>)
    ensures
        balance == placed_value(*value),
{
    match value {
        JsonValue::Number(n) => match n.unsigned {
            Some(u) => {
                let low = (u % 0x1_0000_0000) as u32;
                if low <= MAX_BALANCE {
                    Some(low)
                } else {
                    None
                }
            },
            None => None,
        },
        JsonValue::Text(s) => extract_number_from_text(s.as_str()),
        _ => None,
    }
}

/// The balance at the first of the known places of a structured answer that
/// leads to one.
pub fn extract_balance_from_json(json: &JsonValue) -> (balance: Option<u32>)
    ensures
        balance == first_placed(*json, balance_paths()),
{
    let paths: Vec<Vec<&'static str>> = vec![
        vec!["balance"],
        vec!["credit_balance"],
        vec!["credits"],
        vec!["remaining_balance"],
        vec!["customer", "balance"],
        vec!["customer", "credits"],
        vec!["data", "balance"],
        vec!["data", "credits"],
        vec!["result", "balance"],
    ];
    let ghost all = balance_paths();
    proof {
        assert(paths@.map_values(|p: Vec<&'static str>| p@.map_values(|s: &str| s@)) =~= all) by {
            assert forall|k: int| 0 <= k < 9 implies (#[trigger] paths@[k])@.map_values(
                |s: &str| s@,
            ) =~= all[k] by {}
        }
        assert(all.subrange(0, all.len() as int) =~= all);
    }
    let mut i: usize = 0;
    while i < paths.len()
        invariant
            i <= paths.len(),
            all == balance_paths(),
            paths@.map_values(|p: Vec<&'static str>| p@.map_values(|s: &str| s@)) == all,
            first_placed(*json, all) == first_placed(
                *json,
                all.subrange(i as int, all.len() as int),
            ),
        decreases paths.len() - i,
    {
        proof {
            let rest = all.subrange(i as int, all.len() as int);
            assert(rest[0] == paths@[i as int]@.map_values(|s: &str| s@));
            assert(rest.drop_first() =~= all.subrange(i + 1, all.len() as int));
        }
        if let Some(value) = get_json_value_by_path(json, paths[i].as_slice()) {
            if let Some(balance) = extract_balance_from_json_value(value) {
                return Some(balance);
            }
        }
        i = i + 1;
    }
    None
}

} // verus!
