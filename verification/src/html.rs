//! What the library reads out of an HTML page.

use vstd::prelude::*;

verus! {

/// The value that an attribute has on the first element of a document that
/// a selector matches. `None` where the selector cannot be read, matches no
/// element, or the element has no such attribute.
pub uninterp spec fn html_attribute(
    document: Seq<char>,
    selector: Seq<char>,
    attribute: Seq<char>,
) -> Option<Seq<char>>;

/// `scraper::Html::parse_document`, `scraper::Selector::parse`,
/// `scraper::Html::select` and `scraper::node::Element::attr`: the document
/// is parsed, the first element that the selector matches is taken, and the
/// attribute read from it.
#[verifier::external_body]
pub(crate) fn first_attribute(document: &str, selector: &str, attribute: &str) -> (value: Option<
    String,
>)
    ensures
        match value {
            Some(text) => html_attribute(document@, selector@, attribute@) == Some(text@),
            None => html_attribute(document@, selector@, attribute@) is None,
        },
{
    let parsed = scraper::Html::parse_document(document);
    let selector = scraper::Selector::parse(selector).ok()?;
    let element = parsed.select(&selector).next()?;
    element.value().attr(attribute).map(|text| text.to_string())
}

} // verus!
