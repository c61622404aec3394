//! What the feed builders read of an HTML page: the elements that CSS
//! selectors pick, as plain values, and the links they hold resolved as URLs.

use scraper::Element as _;
use scraper::{ElementRef, Html, Selector};
use vstd::prelude::*;

use crate::feed::opt_text;

verus! {

/// What the library reads of one element of a page.
pub struct ElementModel {
    /// The element's own HTML, its tags included.
    pub html: Seq<char>,
    /// The HTML of the element's content.
    pub inner_html: Seq<char>,
    /// The text of all text nodes below the element, in document order.
    pub text: Seq<char>,
    /// The value of its `href` attribute, if it has one.
    pub href: Option<Seq<char>>,
    /// For each child node, in order: its text if it is a text node.
    pub child_texts: Seq<Option<Seq<char>>>,
}

/// One element of a page, read into plain values.
pub struct Element {
    pub html: String,
    pub inner_html: String,
    pub text: String,
    pub href: Option<String>,
    pub child_texts: Vec<Option<String>>,
}

/// The texts of a sequence of optional strings.
pub open spec fn opt_texts(v: Seq<Option<String>>) -> Seq<Option<Seq<char>>> {
    v.map_values(|o: Option<String>| opt_text(o))
}

impl View for Element {
    type V = ElementModel;

    open spec fn view(&self) -> ElementModel {
        ElementModel {
            html: self.html@,
            inner_html: self.inner_html@,
            text: self.text@,
            href: opt_text(self.href),
            child_texts: opt_texts(self.child_texts@),
        }
    }
}

/// The models of a sequence of elements.
pub open spec fn element_models(v: Seq<Element>) -> Seq<ElementModel> {
    v.map_values(|e: Element| e@)
}

/// An element picked by an outer selector: its `href` attribute and the
/// elements below it that an inner selector picks.
pub struct NestedModel {
    pub href: Option<Seq<char>>,
    pub inner: Seq<ElementModel>,
}

/// An element picked by an outer selector, with what an inner selector picks
/// below it.
pub struct Nested {
    pub href: Option<String>,
    pub inner: Vec<Element>,
}

impl View for Nested {
    type V = NestedModel;

    open spec fn view(&self) -> NestedModel {
        NestedModel { href: opt_text(self.href), inner: element_models(self.inner@) }
    }
}

/// The models of a sequence of nested selections.
pub open spec fn nested_models(v: Seq<Nested>) -> Seq<NestedModel> {
    v.map_values(|n: Nested| n@)
}

/// A link and the heading that goes with it: the text of the element just
/// before the link's parent element, when the link has a parent element and
/// that parent has an element before it.
pub struct HeadedLinkModel {
    pub heading: Option<Seq<char>>,
    pub href: Option<Seq<char>>,
}

/// A link read with its heading.
pub struct HeadedLink {
    pub heading: Option<String>,
    pub href: Option<String>,
}

impl View for HeadedLink {
    type V = HeadedLinkModel;

    open spec fn view(&self) -> HeadedLinkModel {
        HeadedLinkModel { heading: opt_text(self.heading), href: opt_text(self.href) }
    }
}

/// The models of a sequence of headed links.
pub open spec fn headed_models(v: Seq<HeadedLink>) -> Seq<HeadedLinkModel> {
    v.map_values(|h: HeadedLink| h@)
}

/// The models of an optional sequence of elements.
pub open spec fn opt_element_models(r: Option<Vec<Element>>) -> Option<Seq<ElementModel>> {
    match r {
        Some(v) => Some(element_models(v@)),
        None => None,
    }
}

/// The models of an optional sequence of nested selections.
pub open spec fn opt_nested_models(r: Option<Vec<Nested>>) -> Option<Seq<NestedModel>> {
    match r {
        Some(v) => Some(nested_models(v@)),
        None => None,
    }
}

/// The models of an optional sequence of headed links.
pub open spec fn opt_headed_models(r: Option<Vec<HeadedLink>>) -> Option<Seq<HeadedLinkModel>> {
    match r {
        Some(v) => Some(headed_models(v@)),
        None => None,
    }
}

/// The elements of the HTML document `html` that the CSS selector list
/// `selector` matches, in document order; `None` when the selector does not
/// parse.
pub uninterp spec fn css_select(html: Seq<char>, selector: Seq<char>) -> Option<Seq<ElementModel>>;

/// For each element of `html` that `outer` matches, in document order, its
/// `href` and the elements below it that `inner` matches (matched in the
/// context of the whole document); `None` when either selector does not parse.
pub uninterp spec fn css_select_nested(
    html: Seq<char>,
    outer: Seq<char>,
    inner: Seq<char>,
) -> Option<Seq<NestedModel>>;

/// The links of `html` that `selector` matches, each with its heading;
/// `None` when the selector does not parse.
pub uninterp spec fn css_select_headed(html: Seq<char>, selector: Seq<char>) -> Option<
    Seq<HeadedLinkModel>,
>;

/// The error message of `url::Url::parse` on a text, `None` where it parses.
pub uninterp spec fn url_parse_error(text: Seq<char>) -> Option<Seq<char>>;

/// `url::Url::parse(base)` then `join(link)`: the joined URL as text, or the
/// message of the first error.
pub uninterp spec fn url_join(base: Seq<char>, link: Seq<char>) -> Result<Seq<char>, Seq<char>>;

/// A plain-value view of a text result.
pub open spec fn text_result(r: Result<String, String>) -> Result<Seq<char>, Seq<char>> {
    match r {
        Ok(s) => Ok(s@),
        Err(e) => Err(e@),
    }
}

/// `Selector::parse`, `Html::parse_document` and
/// `Html::select`: each matched element read into plain values (`html`,
/// `inner_html`, `text`, the `href` attribute, and the text of each text
/// child). The contract names the result; `None` where the selector does not
/// parse.
#[verifier::external_body]
pub(crate) fn select(html: &str, selector: &str) -> (r: Option<Vec<Element>>)
    ensures
        opt_element_models(r) == css_select(html@, selector@),
{
    let selector = Selector::parse(selector).ok()?;
    let doc = Html::parse_document(html);
    Some(doc.select(&selector).map(|e| Element {
        html: e.html(),
        inner_html: e.inner_html(),
        text: e.text().collect(),
        href: e.attr("href").map(String::from),
        child_texts: e.children().map(|c| c.value().as_text().map(|t| t.to_string())).collect(),
    }).collect())
}

/// As `select` with the outer selector, then `ElementRef::select` with the
/// inner selector below each outer match: the outer element's `href` and
/// the inner matches read into plain values. The contract names the result;
/// `None` where either selector does not parse.
#[verifier::external_body]
pub(crate) fn select_nested(html: &str, outer: &str, inner: &str) -> (r: Option<Vec<Nested>>)
    ensures
        opt_nested_models(r) == css_select_nested(html@, outer@, inner@),
{
    let outer = Selector::parse(outer).ok()?;
    let inner = Selector::parse(inner).ok()?;
    let doc = Html::parse_document(html);
    let snap = |e: ElementRef| Element {
        html: e.html(),
        inner_html: e.inner_html(),
        text: e.text().collect(),
        href: e.attr("href").map(String::from),
        child_texts: e.children().map(|c| c.value().as_text().map(|t| t.to_string())).collect(),
    };
    Some(doc.select(&outer).map(|o| Nested {
        href: o.attr("href").map(String::from),
        inner: o.select(&inner).map(snap).collect(),
    }).collect())
}

/// As `select`, reading of each match its `href` and the text of the element
/// before its parent (`parent_element`, `prev_sibling_element`, `text`).
/// The contract names the result; `None` where the selector does not parse.
#[verifier::external_body]
pub(crate) fn select_headed(html: &str, selector: &str) -> (r: Option<Vec<HeadedLink>>)
    ensures
        opt_headed_models(r) == css_select_headed(html@, selector@),
{
    let selector = Selector::parse(selector).ok()?;
    let doc = Html::parse_document(html);
    Some(doc.select(&selector).map(|e| HeadedLink {
        heading: e.parent_element().and_then(|p| p.prev_sibling_element()).map(|t| t.text().collect()),
        href: e.attr("href").map(String::from),
    }).collect())
}

/// `url::Url::parse`: the contract names its error message (its `Display`),
/// `None` where the text parses.
#[verifier::external_body]
pub(crate) fn check_url(text: &str) -> (r: Option<String>)
    ensures
        opt_text(r) == url_parse_error(text@),
{
    url::Url::parse(text).err().map(|e| e.to_string())
}

/// `url::Url::parse(base)` followed by `Url::join(link)`: the contract names
/// the joined URL's text (its `Display`) or the first error's message.
#[verifier::external_body]
pub(crate) fn join_url(base: &str, link: &str) -> (r: Result<String, String>)
    ensures
        text_result(r) == url_join(base@, link@),
{
    match url::Url::parse(base).and_then(|b| b.join(link)) {
        Ok(u) => Ok(u.to_string()),
        Err(e) => Err(e.to_string()),
    }
}

} // verus!
