//! Element selection in HTML text, delegated to the `scraper` crate.
//!
//! Parsing HTML and matching CSS selectors is left to `scraper`; what its
//! selections hold is named here and carried to the rest of the library as
//! plain strings.
use vstd::prelude::*;

verus! {

/// One selected element, reduced to what the pipeline reads of it.
pub struct Element {
    /// The element's inner HTML.
    pub inner_html: String,
    /// The element's text content, all text nodes concatenated.
    pub text: String,
    /// The value of the attribute asked for, if the element carries it.
    pub attr: Option<String>,
}

/// An element as plain values: inner HTML, text, attribute value.
pub type ElementModel = (Seq<char>, Seq<char>, Option<Seq<char>>);

pub open spec fn opt_str_model(o: Option<String>) -> Option<Seq<char>> {
    match o {
        Some(s) => Some(s@),
        None => None,
    }
}

impl View for Element {
    type V = ElementModel;

    open spec fn view(&self) -> ElementModel {
        (self.inner_html@, self.text@, opt_str_model(self.attr))
    }
}

/// The elements of a selection, in document order; `None` where the selector
/// does not parse.
pub open spec fn selection_model(r: Option<Vec<Element>>) -> Option<Seq<ElementModel>> {
    match r {
        Some(v) => Some(v@.map_values(|e: Element| e@)),
        None => None,
    }
}

/// What `scraper` selects with `selector` in the document `html`, asking each
/// element for the attribute `attr`: `None` where the selector does not parse.
pub uninterp spec fn document_selection(
    html: Seq<char>,
    selector: Seq<char>,
    attr: Seq<char>,
) -> Option<Seq<ElementModel>>;

/// As `document_selection`, with `html` parsed as a fragment.
pub uninterp spec fn fragment_selection(
    html: Seq<char>,
    selector: Seq<char>,
    attr: Seq<char>,
) -> Option<Seq<ElementModel>>;

/// Relies on `scraper::Selector::parse`, `scraper::Html::parse_document` and
/// `scraper::Html::select`: the elements matching `selector`, in document
/// order, each with its inner HTML, its text and its attribute `attr`
/// (`ElementRef::inner_html`, `ElementRef::text`, `ElementRef::attr`).
#[verifier::external_body]
pub(crate) fn select_in_document(html: &str, selector: &str, attr: &str) -> (r: Option<Vec<Element>>)
    ensures
        selection_model(r) == document_selection(html@, selector@, attr@),
{
    let sel = scraper::Selector::parse(selector).ok()?;
    let doc = scraper::Html::parse_document(html);
    Some(doc.select(&sel).map(|e| Element {
        inner_html: e.inner_html(),
        text: e.text().collect(),
        attr: e.attr(attr).map(String::from),
    }).collect())
}

/// Relies on `scraper::Selector::parse`, `scraper::Html::parse_fragment` and
/// `scraper::Html::select`: the elements matching `selector` in the fragment,
/// in document order, each with its inner HTML, its text and its attribute
/// `attr` (`ElementRef::inner_html`, `ElementRef::text`, `ElementRef::attr`).
#[verifier::external_body]
pub(crate) fn select_in_fragment(html: &str, selector: &str, attr: &str) -> (r: Option<Vec<Element>>)
    ensures
        selection_model(r) == fragment_selection(html@, selector@, attr@),
{
    let sel = scraper::Selector::parse(selector).ok()?;
    let doc = scraper::Html::parse_fragment(html);
    Some(doc.select(&sel).map(|e| Element {
        inner_html: e.inner_html(),
        text: e.text().collect(),
        attr: e.attr(attr).map(String::from),
    }).collect())
}

} // verus!
