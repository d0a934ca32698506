//! Selection in HTML markup, done by the `scraper` crate.
use vstd::prelude::*;
use crate::text::{views, opt_views};

verus! {

/// The inner markup of each element that the CSS selector `css` picks in the
/// document parsed from `markup`, in the order `Html::select` walks the tree (none where the selector
/// does not parse).
pub uninterp spec fn css_inner(markup: Seq<char>, css: Seq<char>) -> Seq<Seq<char>>;

/// The markup of each element, itself included, that `css` picks in the
/// document parsed from `markup`, in the order `Html::select` walks the tree.
pub uninterp spec fn css_outer(markup: Seq<char>, css: Seq<char>) -> Seq<Seq<char>>;

/// The value of attribute `name` of each element that `css` picks in the
/// document parsed from `markup`, in the order `Html::select` walks the tree.
pub uninterp spec fn css_attr(markup: Seq<char>, css: Seq<char>, name: Seq<char>) -> Seq<
    Option<Seq<char>>,
>;

/// Relies on `scraper::Html::parse_document`, `Selector::parse`, `Html::select`
/// and `ElementRef::inner_html`.
#[verifier::external_body]
pub(crate) fn select_inner(markup: &str, css: &str) -> (r: Vec<String>)
    ensures
        views(r@) == css_inner(markup@, css@),
{
    let doc = scraper::Html::parse_document(markup);
    match scraper::Selector::parse(css) {
        Ok(sel) => doc.select(&sel).map(|e| e.inner_html()).collect(),
        Err(_) => Vec::new(),
    }
}

/// Relies on `scraper::Html::parse_document`, `Selector::parse`, `Html::select`
/// and `ElementRef::html`.
#[verifier::external_body]
pub(crate) fn select_outer(markup: &str, css: &str) -> (r: Vec<String>)
    ensures
        views(r@) == css_outer(markup@, css@),
{
    let doc = scraper::Html::parse_document(markup);
    match scraper::Selector::parse(css) {
        Ok(sel) => doc.select(&sel).map(|e| e.html()).collect(),
        Err(_) => Vec::new(),
    }
}

/// Relies on `scraper::Html::parse_document`, `Selector::parse`, `Html::select`
/// and `ElementRef::attr`.
#[verifier::external_body]
pub(crate) fn select_attr(markup: &str, css: &str, name: &str) -> (r: Vec<Option<String>>)
    ensures
        opt_views(r@) == css_attr(markup@, css@, name@),
{
    let doc = scraper::Html::parse_document(markup);
    match scraper::Selector::parse(css) {
        Ok(sel) => doc.select(&sel).map(|e| e.attr(name).map(|v| v.to_string())).collect(),
        Err(_) => Vec::new(),
    }
}

} // verus!
