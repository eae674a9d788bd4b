//! Pages as content trees: parsing, and the selections that the extraction
//! rules make in a tree. All of it is the work of the `scraper` crate.

use scraper::{Html, Selector};
use vstd::prelude::*;

verus! {

/// A parsed page, which the library only hands to the selections below.
#[verifier::external_type_specification]
#[verifier::external_body]
pub struct ExHtml(Html);

/// A parsed CSS selector, which the library only hands to the selections
/// below.
#[verifier::external_type_specification]
#[verifier::external_body]
pub struct ExSelector(Selector);

/// The text that a content tree was parsed from.
pub uninterp spec fn html_source(doc: Html) -> Seq<char>;

/// The text that a selector was parsed from.
pub uninterp spec fn selector_text(selector: Selector) -> Seq<char>;

/// Whether a text is a CSS selector group that the parser accepts.
pub uninterp spec fn is_selector(text: Seq<char>) -> bool;

/// For each element of the page `source` that `selector` selects, in the
/// order in which the selection yields them, the value of its attribute
/// `attr` if it has one.
pub uninterp spec fn selected_attrs(source: Seq<char>, selector: Seq<char>, attr: Seq<char>) -> Seq<
    Option<Seq<char>>,
>;

/// For each element of the page `source` that `selector` selects, in the
/// order in which the selection yields them, the text nodes below it.
pub uninterp spec fn selected_texts(source: Seq<char>, selector: Seq<char>) -> Seq<Seq<Seq<char>>>;

/// For each element of the page `source` that `outer` selects, in the order
/// in which the selection yields them: for each element below it that
/// `inner` selects, the text nodes below that one.
pub uninterp spec fn selected_nested_texts(source: Seq<char>, outer: Seq<char>, inner: Seq<char>) -> Seq<
    Seq<Seq<Seq<char>>>,
>;

/// Parses a page into its content tree.
///
/// Trusted: this is `scraper::Html::parse_document`, which never fails. The
/// contract only records which text the tree came from.
#[verifier::external_body]
pub(crate) fn parse(page: &str) -> (doc: Html)
    ensures
        html_source(doc) == page@,
{
    Html::parse_document(page)
}

/// Parses a CSS selector group.
///
/// Trusted: this is `scraper::Selector::parse`. Whether it accepts a text
/// depends on the text alone; the contract records which text the selector
/// came from.
#[verifier::external_body]
pub(crate) fn parse_selector(text: &str) -> (selector: Option<Selector>)
    ensures
        match selector {
            Some(s) => is_selector(text@) && selector_text(s) == text@,
            None => !is_selector(text@),
        },
{
    Selector::parse(text).ok()
}

/// The values of the attribute `attr` of the elements that `selector`
/// selects.
///
/// Trusted: this is `scraper::Html::select`, and `attr` on each element
/// found. The result depends on the page's text, the selector's text and
/// the attribute's name alone.
#[verifier::external_body]
pub(crate) fn select_attrs(doc: &Html, selector: &Selector, attr: &str) -> (found: Vec<Option<String>>)
    ensures
        found.deep_view() == selected_attrs(html_source(*doc), selector_text(*selector), attr@),
{
    doc.select(selector).map(|e| e.value().attr(attr).map(String::from)).collect()
}

/// The text nodes of the elements that `selector` selects.
///
/// Trusted: this is `scraper::Html::select`, and `text` on each element
/// found. The result depends on the page's text and the selector's text
/// alone.
#[verifier::external_body]
pub(crate) fn select_texts(doc: &Html, selector: &Selector) -> (found: Vec<Vec<String>>)
    ensures
        found.deep_view() == selected_texts(html_source(*doc), selector_text(*selector)),
{
    doc.select(selector).map(|e| e.text().map(String::from).collect()).collect()
}

/// The text nodes of the elements that `inner` selects below each element
/// that `outer` selects.
///
/// Trusted: this is `scraper::Html::select`, `scraper::ElementRef::select`
/// on each element found and `text` on each element below it. The result
/// depends on the page's text and the texts of the two selectors alone.
#[verifier::external_body]
pub(crate) fn select_nested_texts(doc: &Html, outer: &Selector, inner: &Selector) -> (found: Vec<
    Vec<Vec<String>>,
>)
    ensures
        found.deep_view() == selected_nested_texts(
            html_source(*doc),
            selector_text(*outer),
            selector_text(*inner),
        ),
{
    doc.select(outer).map(
        |e| e.select(inner).map(|n| n.text().map(String::from).collect()).collect(),
    ).collect()
}

} // verus!
