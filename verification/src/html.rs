//! The one view of an HTML document this crate needs: for the elements of a
//! given tag, in document order, the values of their `rel` and `href`
//! attributes. The `scraper` crate does the parsing behind a trusted wrapper;
//! everything downstream of these pairs is verified.

use vstd::prelude::*;

verus! {

/// The `(rel, href)` attribute pairs of the elements with the given tag name
/// in a document, in document order. Parsing is a function of the document
/// text alone.
pub uninterp spec fn rel_href_pairs_of(html: Seq<char>, tag: Seq<char>) -> Seq<
    (Option<Seq<char>>, Option<Seq<char>>),
>;

/// Relies on `scraper::Html::parse_fragment` and `Html::select`: parsing is
/// deterministic in the document text, `select` walks matching elements in
/// document (tree) order, and `attr` returns an element's attribute value.
/// `Selector::parse` panics only on an invalid selector, which the `requires`
/// rules out.
#[verifier::external_body]
pub(crate) fn rel_href_pairs(html: &str, tag: &str) -> (r: Vec<(Option<String>, Option<String>)>)
    requires
        tag@ == "a"@ || tag@ == "link"@,
    ensures
        r.deep_view() == rel_href_pairs_of(html@, tag@),
{
    let document = scraper::Html::parse_fragment(html);
    let selector = scraper::Selector::parse(tag).unwrap();
    let mut out: Vec<(Option<String>, Option<String>)> = Vec::new();
    for element in document.select(&selector) {
        let value = element.value();
        out.push((
            value.attr("rel").map(|a| a.to_string()),
            value.attr("href").map(|a| a.to_string()),
        ));
    }
    out
}

} // verus!
