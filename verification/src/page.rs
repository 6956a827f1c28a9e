//! Reading a balance out of a rendered page: its elements, its visible text,
//! its scripts and its markup.
//!
//! The page is parsed by the `scraper` crate. What it selects is named here,
//! not described; what is done with the texts is verified.

use vstd::prelude::*;
use vstd::string::StringSliceAdditionalSpecFns;
use vstd::utf8::encode_utf8;
use crate::patterns::{
    extract_number_from_text, first_pattern_value, markup_pattern_table, markup_patterns,
    match_patterns, number_in_text, page_pattern_table, page_patterns, pattern_texts,
    script_pattern_table,
    script_patterns, text_of, MAX_BALANCE,
};
use crate::text::{bytes_contain, contains_bytes};

verus! {

/// The text of every element that `selector` selects in the page `html`, in
/// document order, as the `scraper` crate finds them; none where the
/// selector is not valid.
pub uninterp spec fn selected_texts(html: Seq<char>, selector: Seq<char>) -> Option<Seq<Seq<char>>>;

/// The inner markup of every element that `selector` selects in the page
/// `html`, in document order, as the `scraper` crate writes it; none where
/// the selector is not valid.
pub uninterp spec fn selected_markup(html: Seq<char>, selector: Seq<char>) -> Option<
    Seq<Seq<char>>,
>;

/// The text of the whole page `html`, as the `scraper` crate collects it.
pub uninterp spec fn page_text(html: Seq<char>) -> Seq<char>;

/// `text` in lower case, as `str::to_lowercase` gives it.
pub uninterp spec fn lowercase(text: Seq<char>) -> Seq<char>;

/// The characters of each text of a series.
pub open spec fn texts_of(texts: Seq<String>) -> Seq<Seq<char>> {
    texts.map_values(|t: String| t@)
}

/// The characters of each text of a series that may be missing.
pub open spec fn selection_of(texts: Option<Vec<String>>) -> Option<Seq<Seq<char>>> {
    match texts {
        Some(t) => Some(texts_of(t@)),
        None => None,
    }
}

/// Parses the selector with `scraper::Selector::parse` and the page with
/// `scraper::Html::parse_document`, walks `Html::select` and collects
/// `ElementRef::text` of each element. The result is what `selected_texts`
/// names.
#[verifier::external_body]
fn select_texts(html: &str, selector: &str) -> (texts: Option<Vec<String>>)
    ensures
        selection_of(texts) == selected_texts(html@, selector@),
{
    let chosen = ::scraper::Selector::parse(selector).ok()?;
    let document = ::scraper::Html::parse_document(html);
    Some(document.select(&chosen).map(|e| e.text().collect::<String>()).collect())
}

/// Parses the selector with `scraper::Selector::parse` and the page with
/// `scraper::Html::parse_document`, walks `Html::select` and takes
/// `ElementRef::inner_html` of each element. The result is what
/// `selected_markup` names.
#[verifier::external_body]
fn select_markup(html: &str, selector: &str) -> (markup: Option<Vec<String>>)
    ensures
        selection_of(markup) == selected_markup(html@, selector@),
{
    let chosen = ::scraper::Selector::parse(selector).ok()?;
    let document = ::scraper::Html::parse_document(html);
    Some(document.select(&chosen).map(|e| e.inner_html()).collect())
}

/// Parses the page with `scraper::Html::parse_document` and collects
/// `ElementRef::text` of `Html::root_element`. The result is what
/// `page_text` names.
#[verifier::external_body]
fn visible_text(html: &str) -> (text: String)
    ensures
        text@ == page_text(html@),
{
    ::scraper::Html::parse_document(html).root_element().text().collect::<String>()
}

/// Calls `str::to_lowercase`. The result is what `lowercase` names.
#[verifier::external_body]
pub(crate) fn lower(text: &str) -> (lowered: String)
    ensures
        lowered@ == lowercase(text@),
{
    text.to_lowercase()
}

/// The text, in lower case, holds the phrase "credit balance".
pub open spec fn mentions_balance(text: Seq<char>) -> bool {
    contains_bytes(encode_utf8(lowercase(text)), "credit balance".spec_bytes())
}

/// The balance in the first of `texts` that mentions the balance and holds
/// a number.
pub open spec fn labelled_value(texts: Seq<Seq<char>>) -> Option<u32>
    decreases texts.len(),
{
    if texts.len() == 0 {
        None
    } else if mentions_balance(texts[0]) && number_in_text(texts[0]) is Some {
        number_in_text(texts[0])
    } else {
        labelled_value(texts.drop_first())
    }
}

/// The balance in the first of `texts` that holds a number.
pub open spec fn first_number(texts: Seq<Seq<char>>) -> Option<u32>
    decreases texts.len(),
{
    if texts.len() == 0 {
        None
    } else if number_in_text(texts[0]) is Some {
        number_in_text(texts[0])
    } else {
        first_number(texts.drop_first())
    }
}

/// The balance that the first of `scripts` to give one gives, by the
/// patterns for scripts.
pub open spec fn script_value(scripts: Seq<Seq<char>>) -> Option<u32>
    decreases scripts.len(),
{
    if scripts.len() == 0 {
        None
    } else {
        match first_pattern_value(script_pattern_table(), scripts[0], MAX_BALANCE) {
            Some(n) => Some(n),
            None => script_value(scripts.drop_first()),
        }
    }
}

/// The selectors of elements that are marked as holding a balance.
pub open spec fn marked_selector_table() -> Seq<Seq<char>> {
    seq![
        "[class*='balance']"@,
        "[class*='credit']"@,
        "[id*='balance']"@,
        "[id*='credit']"@,
        "[data-testid*='balance']"@,
        "[data-testid*='credit']"@,
    ]
}

/// The selectors of elements that are marked as holding a balance.
pub fn marked_selectors() -> (table: Vec<&'static str>)
    ensures
        table@.map_values(|s: &str| s@) == marked_selector_table(),
{
    let table: Vec<&'static str> = vec![
        "[class*='balance']",
        "[class*='credit']",
        "[id*='balance']",
        "[id*='credit']",
        "[data-testid*='balance']",
        "[data-testid*='credit']",
    ];
    proof {
        assert(table@.map_values(|s: &str| s@) =~= marked_selector_table());
    }
    table
}

/// The balance in the first element to hold a number among those that the
/// first of `selectors` to find one selects in the page `html`.
pub open spec fn marked_value(html: Seq<char>, selectors: Seq<Seq<char>>) -> Option<u32>
    decreases selectors.len(),
{
    if selectors.len() == 0 {
        None
    } else {
        let here = match selected_texts(html, selectors[0]) {
            Some(texts) => first_number(texts),
            None => None,
        };
        match here {
            Some(n) => Some(n),
            None => marked_value(html, selectors.drop_first()),
        }
    }
}

/// Reads the balance out of the first text that mentions the balance and
/// holds a number.
pub fn first_labelled_number(texts: &Vec<String>) -> (value: Option<u32>)
    ensures
        value == labelled_value(texts_of(texts@)),
{
    let ghost all = texts_of(texts@);
    let mut i: usize = 0;
    assert(all.subrange(0, all.len() as int) =~= all);
    while i < texts.len()
        invariant
            i <= texts.len(),
            all == texts_of(texts@),
            labelled_value(all) == labelled_value(all.subrange(i as int, all.len() as int)),
        decreases texts.len() - i,
    {
        proof {
            assert(all.subrange(i as int, all.len() as int).drop_first() =~= all.subrange(
                i + 1,
                all.len() as int,
            ));
        }
        let text = texts[i].as_str();
        let lowered = lower(text);
        if bytes_contain(lowered.as_str().as_bytes(), "credit balance".as_bytes()) {
            if let Some(n) = extract_number_from_text(text) {
                return Some(n);
            }
        }
        i = i + 1;
    }
    None
}

/// Reads the balance out of the first text that holds a number.
pub fn first_number_in(texts: &Vec<String>) -> (value: Option<u32>)
    ensures
        value == first_number(texts_of(texts@)),
{
    let ghost all = texts_of(texts@);
    let mut i: usize = 0;
    assert(all.subrange(0, all.len() as int) =~= all);
    while i < texts.len()
        invariant
            i <= texts.len(),
            all == texts_of(texts@),
            first_number(all) == first_number(all.subrange(i as int, all.len() as int)),
        decreases texts.len() - i,
    {
        proof {
            assert(all.subrange(i as int, all.len() as int).drop_first() =~= all.subrange(
                i + 1,
                all.len() as int,
            ));
        }
        if let Some(n) = extract_number_from_text(texts[i].as_str()) {
            return Some(n);
        }
        i = i + 1;
    }
    None
}

/// Reads the balance out of the first script that holds a field of inline
/// data with a number.
pub fn first_script_value(scripts: &Vec<String>) -> (value: Option<u32>)
    ensures
        value == script_value(texts_of(scripts@)),
{
    let table = script_patterns();
    let ghost all = texts_of(scripts@);
    let mut i: usize = 0;
    assert(all.subrange(0, all.len() as int) =~= all);
    while i < scripts.len()
        invariant
            i <= scripts.len(),
            all == texts_of(scripts@),
            pattern_texts(table@) == script_pattern_table(),
            script_value(all) == script_value(all.subrange(i as int, all.len() as int)),
        decreases scripts.len() - i,
    {
        proof {
            assert(all.subrange(i as int, all.len() as int).drop_first() =~= all.subrange(
                i + 1,
                all.len() as int,
            ));
        }
        if let Some(n) = match_patterns(table.as_slice(), scripts[i].as_str(), MAX_BALANCE) {
            return Some(n);
        }
        i = i + 1;
    }
    None
}

/// The balance beside the label in an element of the page `html`.
pub fn extract_balance_strategy_1(html: &str) -> (value: Option<u32>)
    ensures
        value == match selected_texts(html@, "*"@) {
            Some(texts) => labelled_value(texts),
            None => None,
        },
{
    match select_texts(html, "*") {
        Some(texts) => first_labelled_number(&texts),
        None => None,
    }
}

/// The balance that the patterns for visible text find in the page `html`.
pub fn extract_balance_strategy_2(html: &str) -> (value: Option<u32>)
    ensures
        value == first_pattern_value(page_pattern_table(), page_text(html@), MAX_BALANCE),
{
    let text = visible_text(html);
    let table = page_patterns();
    match_patterns(table.as_slice(), text.as_str(), MAX_BALANCE)
}

/// The balance in an element of the page `html` that is marked as holding
/// one. This strategy has no place of its own in the search of a page: it
/// is for pages whose elements are known to be marked.
pub fn extract_balance_strategy_3(html: &str) -> (value: Option<u32>)
    ensures
        value == marked_value(html@, marked_selector_table()),
{
    let table = marked_selectors();
    let ghost all = marked_selector_table();
    let mut i: usize = 0;
    assert(all.subrange(0, all.len() as int) =~= all);
    while i < table.len()
        invariant
            i <= table.len(),
            all == table@.map_values(|s: &str| s@),
            all == marked_selector_table(),
            marked_value(html@, all) == marked_value(
                html@,
                all.subrange(i as int, all.len() as int),
            ),
        decreases table.len() - i,
    {
        proof {
            assert(all.subrange(i as int, all.len() as int).drop_first() =~= all.subrange(
                i + 1,
                all.len() as int,
            ));
        }
        proof {
            assert(all.subrange(i as int, all.len() as int)[0] == table@[i as int]@);
        }
        proof {
            assert(all.subrange(i as int, all.len() as int)[0] == table@[i as int]@);
        }
        if let Some(texts) = select_texts(html, table[i]) {
            if let Some(n) = first_number_in(&texts) {
                return Some(n);
            }
        }
        i = i + 1;
    }
    None
}

/// The balance in a field of inline data in a script of the page `html`.
pub fn extract_balance_from_scripts(html: &str) -> (value: Option<u32>)
    ensures
        value == match selected_markup(html@, "script"@) {
            Some(scripts) => script_value(scripts),
            None => None,
        },
{
    match select_markup(html, "script") {
        Some(scripts) => first_script_value(&scripts),
        None => None,
    }
}

/// The balance in an attribute of the markup `html`.
pub fn extract_balance_from_raw_html(html: &str) -> (value: Option<u32>)
    ensures
        value == first_pattern_value(markup_pattern_table(), html@, MAX_BALANCE),
{
    let table = markup_patterns();
    match_patterns(table.as_slice(), html, MAX_BALANCE)
}

} // verus!
