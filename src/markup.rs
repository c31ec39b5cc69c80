//! HTML fragments and CSS selectors, handled by the `scraper` crate.
use vstd::prelude::*;

verus! {

#[verifier::external_type_specification]
#[verifier::external_body]
pub struct ExSelector(scraper::Selector);

/// Whether `scraper::Selector::parse` accepts the selector text.
pub uninterp spec fn selector_valid(selector: Seq<char>) -> bool;

/// The outer HTML of each element that `scraper::Html::select` yields for the
/// selector on the parsed fragment, in document order.
pub uninterp spec fn css_select(selector: Seq<char>, html: Seq<char>) -> Seq<Seq<char>>;

/// The text nodes under the fragment root of the parsed fragment (the first
/// element that is not `html`, `head` or `body`), or `None` without such an element.
pub uninterp spec fn root_text_nodes(html: Seq<char>) -> Option<Seq<Seq<char>>>;

/// The inner HTML of the fragment root, or `None` without one.
pub uninterp spec fn root_inner_html(html: Seq<char>) -> Option<Seq<char>>;

/// The value of the named attribute on the fragment root, if both exist.
pub uninterp spec fn root_attr(html: Seq<char>, name: Seq<char>) -> Option<Seq<char>>;

/// A parsed CSS selector together with its text.
pub struct Css {
    source: String,
    compiled: scraper::Selector,
}

impl Css {
    pub closed spec fn source(&self) -> Seq<char> {
        self.source@
    }

    /// Relies on `scraper::Selector::parse`: it fails exactly on the texts it rejects.
    #[verifier::external_body]
    pub(crate) fn parse(selector: &String) -> (r: Option<Css>)
        ensures
            r.is_some() == selector_valid(selector@),
            r matches Some(c) ==> c.source() == selector@,
    {
        match scraper::Selector::parse(selector) {
            Ok(compiled) => Some(Css { source: selector.clone(), compiled }),
            Err(_) => None,
        }
    }

    /// Relies on `scraper::Html::parse_fragment`, `scraper::Html::select` and
    /// `scraper::ElementRef::html`: the outer HTML of each match, in document order.
    #[verifier::external_body]
    pub(crate) fn select_outer(&self, html: &str) -> (r: Vec<String>)
        ensures
            r@.map_values(|s: String| s@) == css_select(self.source(), html@),
    {
        let doc = scraper::Html::parse_fragment(html);
        doc.select(&self.compiled).map(|el| el.html()).collect()
    }
}

/// Relies on `scraper::Html::parse_fragment`, a selection of the fragment root
/// and `scraper::ElementRef::text`: the root's descendant text nodes.
#[verifier::external_body]
pub(crate) fn text_nodes(html: &str) -> (r: Option<Vec<String>>)
    ensures
        match r {
            Some(v) => root_text_nodes(html@) == Some(v@.map_values(|s: String| s@)),
            None => root_text_nodes(html@) is None,
        },
{
    let doc = scraper::Html::parse_fragment(html);
    let root_sel = scraper::Selector::parse(":not(head, body, html)").expect("constant selector");
    let root = doc.select(&root_sel).next();
    root.map(|el| el.text().map(|t| t.to_string()).collect())
}

/// Relies on `scraper::ElementRef::inner_html` of the fragment root.
#[verifier::external_body]
pub(crate) fn inner_html(html: &str) -> (r: Option<String>)
    ensures
        match r {
            Some(s) => root_inner_html(html@) == Some(s@),
            None => root_inner_html(html@) is None,
        },
{
    let doc = scraper::Html::parse_fragment(html);
    let root_sel = scraper::Selector::parse(":not(head, body, html)").expect("constant selector");
    let root = doc.select(&root_sel).next();
    root.map(|el| el.inner_html())
}

/// Relies on `scraper::ElementRef::attr` of the fragment root.
#[verifier::external_body]
pub(crate) fn root_attribute(html: &str, name: &str) -> (r: Option<String>)
    ensures
        match r {
            Some(s) => root_attr(html@, name@) == Some(s@),
            None => root_attr(html@, name@) is None,
        },
{
    let doc = scraper::Html::parse_fragment(html);
    let root_sel = scraper::Selector::parse(":not(head, body, html)").expect("constant selector");
    let root = doc.select(&root_sel).next();
    root.and_then(|el| el.attr(name)).map(|v| v.to_string())
}

} // verus!
