//! HTML pages: the text of an embedded script, found by the `scraper` crate.

use vstd::prelude::*;

verus! {

/// The text inside the first element of the HTML document `html` that the
/// CSS selector `selector` matches, as the `scraper` crate parses and
/// matches; nothing where `selector` is no selector or matches no element.
pub uninterp spec fn element_text(html: Seq<char>, selector: Seq<char>) -> Option<Seq<char>>;

/// Parses `html` with `scraper::Html::parse_document` and `selector` with
/// `scraper::Selector::parse`, takes the first element that
/// `scraper::Html::select` yields and joins the text nodes that
/// `scraper::ElementRef::text` walks. The contract only gives that outcome
/// its name.
#[verifier::external_body]
pub(crate) fn first_element_text(html: &str, selector: &str) -> (r: Option<String>)
    ensures
        match r {
            Some(text) => element_text(html@, selector@) == Some(text@),
            None => element_text(html@, selector@) is None,
        },
{
    let document = ::scraper::Html::parse_document(html);
    let selector = ::scraper::Selector::parse(selector).ok()?;
    let element = document.select(&selector).next()?;
    Some(element.text().collect::<String>())
}

} // verus!
