//! The document queries that the extractor needs, answered by the `scraper`
//! crate.
//!
//! Nothing here is proved. Each function hands one query to the crate and
//! the answer back, and each answer has a name in contracts: what the crate
//! makes of the same arguments, which is the same every time. What the
//! answers are is the crate's to say.

use scraper::{ElementRef, Html, Selector};
use vstd::prelude::*;
use crate::extract::is_site_selector;
use crate::listing::text_view;

verus! {

/// A parsed HTML document, as `scraper` holds it.
#[verifier::external_type_specification]
#[verifier::external_body]
pub struct ExHtml(scraper::Html);

/// A parsed CSS selector, as `scraper` holds it.
#[verifier::external_type_specification]
#[verifier::external_body]
pub struct ExSelector(scraper::Selector);

/// A reference to one element of a parsed document.
#[verifier::external_type_specification]
#[verifier::external_body]
pub struct ExElementRef<'a>(scraper::ElementRef<'a>);

/// The longest page body, in characters, that is handed to the parser.
///
/// The parser keeps its text in buffers with 32-bit lengths, rounds their
/// capacity up to a power of two, and stops the program when that
/// arithmetic overflows. No buffer holds more than the text of the body,
/// at four bytes a character at most, so a body within this bound keeps
/// every buffer within 2^30 bytes.
pub const MAX_BODY_CHARS: usize = 0x1000_0000;

/// The document that `Html::parse_document` makes of a page body.
pub uninterp spec fn parsed_document(body: Seq<char>) -> Html;

/// What `Selector::parse` makes of a pattern: `None` where it rejects it.
pub uninterp spec fn parsed_selector(pattern: Seq<char>) -> Option<Selector>;

/// The elements of a document that `Html::select` yields for a selector, in
/// the order it yields them.
pub uninterp spec fn document_matches(document: Html, selector: Selector) -> Seq<
    ElementRef<'static>,
>;

/// The descendants of an element that `ElementRef::select` yields for a
/// selector, in the order it yields them.
pub uninterp spec fn element_matches(element: ElementRef<'static>, selector: Selector) -> Seq<
    ElementRef<'static>,
>;

/// The markup inside an element, as `ElementRef::inner_html` writes it.
pub uninterp spec fn inner_markup(element: ElementRef<'static>) -> Seq<char>;

/// The value that `ElementRef::attr` finds for an attribute name: `None`
/// where the element has no such attribute.
pub uninterp spec fn attribute_value(element: ElementRef<'static>, name: Seq<char>) -> Option<
    Seq<char>,
>;

/// `Html::parse_document`: parses `body` as an HTML document. The parser
/// recovers from malformed input, so for a body within the bound a
/// document always comes back; a longer body can overflow the parser's
/// 32-bit buffer lengths and is left out. The contract only names the
/// document.
#[verifier::external_body]
pub(crate) fn parse_document(body: &str) -> (document: Html)
    requires
        body@.len() <= MAX_BODY_CHARS,
    ensures
        document == parsed_document(body@),
{
    Html::parse_document(body)
}

/// `Selector::parse`: parses a CSS selector group, `None` where the crate
/// rejects it. The crate's parser calls itself for every nested selector
/// list without a limit, so only the selectors of the site, which nest
/// nothing, are admitted. The contract only names the outcome; it does not
/// say which patterns are accepted.
#[verifier::external_body]
pub(crate) fn parse_selector(pattern: &str) -> (selector: Option<Selector>)
    requires
        is_site_selector(pattern@),
    ensures
        selector == parsed_selector(pattern@),
{
    Selector::parse(pattern).ok()
}

/// `Html::select`: the elements of `document` that `selector` matches, in
/// the order the crate yields them. The contract only names them.
#[verifier::external_body]
pub(crate) fn select_in_document<'a>(document: &'a Html, selector: &Selector) -> (found: Vec<
    ElementRef<'a>,
>)
    ensures
        found@ == document_matches(*document, *selector),
{
    document.select(selector).collect()
}

/// `ElementRef::select`: the descendants of `element` that `selector`
/// matches, in the order the crate yields them. The contract only names
/// them.
#[verifier::external_body]
pub(crate) fn select_in_element<'a>(element: &ElementRef<'a>, selector: &Selector) -> (found: Vec<
    ElementRef<'a>,
>)
    ensures
        found@ == element_matches(*element, *selector),
{
    element.select(selector).collect()
}

/// `ElementRef::inner_html`: the markup inside `element`, serialised by the
/// crate. The contract only names the text.
#[verifier::external_body]
pub(crate) fn inner_html(element: &ElementRef) -> (markup: String)
    ensures
        markup@ == inner_markup(*element),
{
    element.inner_html()
}

/// `ElementRef::attr`: the value of the attribute `name` of `element`, `None`
/// where the element has no such attribute. The contract only names the
/// outcome.
#[verifier::external_body]
pub(crate) fn attribute(element: &ElementRef, name: &str) -> (value: Option<String>)
    ensures
        text_view(value) == attribute_value(*element, name@),
{
    element.attr(name).map(str::to_owned)
}

} // verus!
