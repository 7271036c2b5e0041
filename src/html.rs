//! What the library takes from the HTML parser and CSS selector engine.
//!
//! Parsing and matching are the parser's own business; each result is a
//! function of the text and the selector alone, and is named here. The
//! parser is built with its `deterministic` feature, which keeps each
//! element's attributes in source order, so serialized markup does not
//! depend on hashing.
use vstd::prelude::*;

verus! {

/// Whether a selector string parses as CSS.
pub uninterp spec fn selector_parses(selector: Seq<char>) -> bool;

/// The serialized markup (outer HTML) of each element of a fragment that a
/// selector matches, in document order.
pub uninterp spec fn outer_html_matches(fragment: Seq<char>, selector: Seq<char>) -> Seq<Seq<char>>;

/// The inner markup of each element of a fragment that a selector matches,
/// in document order.
pub uninterp spec fn inner_html_matches(fragment: Seq<char>, selector: Seq<char>) -> Seq<Seq<char>>;

/// The value of attribute `attr` on each element of a fragment that a
/// selector matches, in document order (`None` where it is absent).
pub uninterp spec fn attr_matches(fragment: Seq<char>, selector: Seq<char>, attr: Seq<char>) -> Seq<Option<Seq<char>>>;

/// The text nodes of a fragment, concatenated in document order.
pub uninterp spec fn fragment_text(fragment: Seq<char>) -> Seq<char>;

/// For the first element of a whole document that a selector matches: the
/// value of attribute `attr` on it, if any. `None` when nothing matches.
pub uninterp spec fn document_first_attr(document: Seq<char>, selector: Seq<char>, attr: Seq<char>) -> Option<Option<Seq<char>>>;

pub open spec fn strs_view(v: Seq<String>) -> Seq<Seq<char>> {
    v.map_values(|s: String| s@)
}

pub open spec fn opt_str_view(o: Option<String>) -> Option<Seq<char>> {
    match o {
        Some(s) => Some(s@),
        None => None,
    }
}

/// A compiled CSS selector.
#[verifier::external_type_specification]
#[verifier::external_body]
pub struct ExSelector(scraper::Selector);

/// Relies on scraper::Selector::parse: a compiled selector exactly when the
/// text is valid CSS.
#[verifier::external_body]
pub(crate) fn parse_selector(selector: &str) -> (r: Option<scraper::Selector>)
    ensures
        r is Some <==> selector_parses(selector@),
{
    scraper::Selector::parse(selector).ok()
}

/// Whether the selector is valid CSS.
pub fn selector_is_valid(selector: &str) -> (r: bool)
    ensures
        r == selector_parses(selector@),
{
    parse_selector(selector).is_some()
}

/// Relies on scraper: Html::parse_fragment, ElementRef::select and
/// ElementRef::html give the outer markup of each match, in document order
/// (attributes in source order, by the `deterministic` feature).
#[verifier::external_body]
pub(crate) fn select_outer_html(fragment: &str, selector: &str) -> (r: Vec<String>)
    requires
        selector_parses(selector@),
    ensures
        strs_view(r@) == outer_html_matches(fragment@, selector@),
{
    match scraper::Selector::parse(selector) {
        Ok(sel) => scraper::Html::parse_fragment(fragment).root_element().select(&sel).map(
            |e| e.html(),
        ).collect(),
        Err(_) => Vec::new(),
    }
}

/// Relies on scraper: Html::parse_fragment, ElementRef::select and
/// ElementRef::inner_html give the inner markup of each match, in document
/// order (attributes in source order, by the `deterministic` feature).
#[verifier::external_body]
pub(crate) fn select_inner_html(fragment: &str, selector: &str) -> (r: Vec<String>)
    requires
        selector_parses(selector@),
    ensures
        strs_view(r@) == inner_html_matches(fragment@, selector@),
{
    match scraper::Selector::parse(selector) {
        Ok(sel) => scraper::Html::parse_fragment(fragment).root_element().select(&sel).map(
            |e| e.inner_html(),
        ).collect(),
        Err(_) => Vec::new(),
    }
}

/// Relies on scraper: Html::parse_fragment, ElementRef::select and
/// ElementRef::attr give the attribute of each match, in document order.
#[verifier::external_body]
pub(crate) fn select_attr(fragment: &str, selector: &str, attr: &str) -> (r: Vec<Option<String>>)
    requires
        selector_parses(selector@),
    ensures
        r@.map_values(|o: Option<String>| opt_str_view(o)) == attr_matches(fragment@, selector@, attr@),
{
    match scraper::Selector::parse(selector) {
        Ok(sel) => scraper::Html::parse_fragment(fragment).root_element().select(&sel).map(
            |e| e.attr(attr).map(|a| a.to_string()),
        ).collect(),
        Err(_) => Vec::new(),
    }
}

/// Relies on scraper: Html::parse_fragment and ElementRef::text give the
/// fragment's text without its tags.
#[verifier::external_body]
pub(crate) fn text_of_fragment(fragment: &str) -> (r: String)
    ensures
        r@ == fragment_text(fragment@),
{
    scraper::Html::parse_fragment(fragment).root_element().text().collect::<String>()
}

/// Relies on scraper: Html::parse_document, Html::select and ElementRef::attr
/// give the attribute of the first match in a whole document.
#[verifier::external_body]
pub(crate) fn first_attr_in_document(document: &str, selector: &str, attr: &str) -> (r: Option<Option<String>>)
    requires
        selector_parses(selector@),
    ensures
        match r {
            Some(o) => document_first_attr(document@, selector@, attr@) == Some(opt_str_view(o)),
            None => document_first_attr(document@, selector@, attr@) is None,
        },
{
    match scraper::Selector::parse(selector) {
        Ok(sel) => scraper::Html::parse_document(document).select(&sel).next().map(
            |e| e.value().attr(attr).map(|a| a.to_string()),
        ),
        Err(_) => None,
    }
}

} // verus!
