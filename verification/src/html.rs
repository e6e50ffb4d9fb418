//! The two HTML collaborators: stripping a fetched document to its
//! visible text, and listing the hyperlink references it contains. Both
//! are computed by outside crates behind trusted wrappers; their results
//! are named, and everything done with them is verified.

use vstd::prelude::*;

verus! {

/// What stripping an HTML document to its visible text returns: the
/// concatenated text of the document's nodes. The result depends on the
/// document alone.
pub uninterp spec fn visible_text_of(html: Seq<char>) -> Seq<char>;

/// The `href` attributes of an HTML document's anchor (`<a>`) elements,
/// in document order. The result depends on the document alone.
pub uninterp spec fn hrefs_of(html: Seq<char>) -> Seq<Seq<char>>;

/// Relies on `scraper::Html::parse_fragment`, `scraper::Selector::parse`
/// and `scraper::ElementRef::text`: parses the document and concatenates
/// the text of the nodes under its root element.
#[verifier::external_body]
pub(crate) fn visible_text(html: &str) -> (r: String)
    ensures
        r@ == visible_text_of(html@),
{
    let fragment = scraper::Html::parse_fragment(html);
    match scraper::Selector::parse("html") {
        Ok(selector) => match fragment.select(&selector).next() {
            Some(root) => root.text().collect::<Vec<&str>>().join(""),
            None => String::new(),
        },
        Err(_) => String::new(),
    }
}

/// Relies on `select::document::Document::from`, `Document::find` with
/// the `select::predicate::Name("a")` predicate, and `Node::attr`: the
/// `href` attributes of the document's anchor elements, in document
/// order, skipping anchors without one.
#[verifier::external_body]
pub(crate) fn extract_hrefs(html: &str) -> (r: Vec<String>)
    ensures
        r@.map_values(|s: String| s@) == hrefs_of(html@),
{
    select::document::Document::from(html)
        .find(select::predicate::Name("a"))
        .filter_map(|anchor| anchor.attr("href"))
        .map(|href| href.to_string())
        .collect()
}

} // verus!
