//! Reading the anchors of an HTML document. The parsing itself is the
//! `scraper` crate's; the library speaks of its outcome by name.

use vstd::prelude::*;

verus! {

/// The `href` attribute values of the anchor elements of the document
/// written `page`, in document order, as `scraper`'s HTML parsing and its
/// `a[href]` selection find them.
pub uninterp spec fn anchor_hrefs_of(page: Seq<char>) -> Seq<Seq<char>>;

/// Relies on `scraper::Html::parse_document`, `Html::select` and
/// `ElementRef::attr`: parsing and selection are deterministic in the
/// document text, selection walks the parsed tree in document order, and
/// each selected anchor element carries the `href` attribute the selector
/// asked for. `Selector::parse` is applied to a fixed, valid selector, so
/// it cannot fail.
#[verifier::external_body]
pub(crate) fn anchor_hrefs(page: &str) -> (r: Vec<String>)
    ensures
        r@.len() == anchor_hrefs_of(page@).len(),
        forall|i: int| 0 <= i < r@.len() ==> (#[trigger] r@[i])@ == anchor_hrefs_of(page@)[i],
{
    let document = scraper::Html::parse_document(page);
    let selector = scraper::Selector::parse("a[href]").unwrap();
    let mut out: Vec<String> = Vec::new();
    for element in document.select(&selector) {
        if let Some(href) = element.attr("href") {
            out.push(href.to_owned());
        }
    }
    out
}

} // verus!
