//! From the markup of a page to its record: the title, the description and
//! the links. The markup is parsed by `scraper`; what is made of the
//! elements it finds is decided here.

use crate::model::{Link, LinkView, Page, PageView};
use crate::text::{collapse_whitespace, collapsed, join_pieces};
use vstd::prelude::*;

verus! {

/// What the crawl reads of one element of a parsed document.
#[derive(Debug)]
pub struct Element {
    /// The element's content, written out as markup again.
    pub markup: String,
    /// The pieces of text inside the element, in document order.
    pub text: Vec<String>,
    /// The value of the one attribute that was asked for, if the element
    /// carries it.
    pub attr: Option<String>,
}

/// An element as contracts see it.
pub struct ElementView {
    pub markup: Seq<char>,
    pub text: Seq<Seq<char>>,
    pub attr: Option<Seq<char>>,
}

impl View for Element {
    type V = ElementView;

    open spec fn view(&self) -> ElementView {
        ElementView {
            markup: self.markup@,
            text: self.text.deep_view(),
            attr: match self.attr {
                Some(value) => Some(value@),
                None => None,
            },
        }
    }
}

impl DeepView for Element {
    type V = ElementView;

    open spec fn deep_view(&self) -> ElementView {
        self@
    }
}

/// The elements of a document that a selector picks, in the order in which
/// the parsed document hands them out, each with the attribute `attr` read
/// off it; nothing where the selector is not one. This is what `scraper`
/// makes of the three texts.
pub uninterp spec fn selection(html: Seq<char>, selector: Seq<char>, attr: Seq<char>) -> Option<
    Seq<ElementView>,
>;

/// Parses `selector` with `scraper::Selector::parse` and `html` with
/// `scraper::Html::parse_document`, walks `Html::select`, and reads each
/// element with `ElementRef::inner_html`, `ElementRef::text` and
/// `ElementRef::attr`. All of this depends on the three texts alone. The
/// contract only gives the outcome its name; the name is `None` exactly
/// where the selector does not parse.
#[verifier::external_body]
pub(crate) fn select(html: &str, selector: &str, attr: &str) -> (found: Option<Vec<Element>>)
    ensures
        match found {
            Some(elements) => selection(html@, selector@, attr@) == Some(elements.deep_view()),
            None => selection(html@, selector@, attr@) is None,
        },
{
    let parsed = match scraper::Selector::parse(selector) {
        Ok(parsed) => parsed,
        Err(_) => return None,
    };
    let document = scraper::Html::parse_document(html);
    let mut found = Vec::new();
    for element in document.select(&parsed) {
        found.push(Element {
            markup: element.inner_html(),
            text: element.text().map(String::from).collect(),
            attr: element.attr(attr).map(String::from),
        });
    }
    Some(found)
}

/// The elements that a selector picks; none where it is no selector.
pub open spec fn selected(html: Seq<char>, selector: Seq<char>, attr: Seq<char>) -> Seq<
    ElementView,
> {
    match selection(html, selector, attr) {
        Some(elements) => elements,
        None => Seq::empty(),
    }
}

/// The attribute read off an element, empty where it has none.
pub open spec fn attr_or_empty(element: ElementView) -> Seq<char> {
    match element.attr {
        Some(value) => value,
        None => Seq::empty(),
    }
}

/// A page's title: the markup of the last title element, empty without one.
pub open spec fn title_of(titles: Seq<ElementView>) -> Seq<char> {
    if titles.len() == 0 {
        Seq::empty()
    } else {
        titles.last().markup
    }
}

/// A page's description: the attribute of the last description element,
/// empty without one.
pub open spec fn description_of(metas: Seq<ElementView>) -> Seq<char> {
    if metas.len() == 0 {
        Seq::empty()
    } else {
        attr_or_empty(metas.last())
    }
}

/// The text an anchor shows: its pieces joined, then brought to single
/// spaces.
pub open spec fn anchor_text(anchor: ElementView) -> Seq<char> {
    collapsed(anchor.text.flatten())
}

/// The link an anchor stands for. An anchor that shows no text stands for
/// none: most such anchors wrap an icon or an image, and they are left out
/// by choice. An anchor without the attribute has an empty href.
pub open spec fn link_of(anchor: ElementView) -> Option<LinkView> {
    if anchor_text(anchor).len() == 0 {
        None
    } else {
        Some(LinkView { href: attr_or_empty(anchor), text: anchor_text(anchor) })
    }
}

/// The links of a page, one for each anchor that stands for one, in the
/// order of the anchors.
pub open spec fn links_of(anchors: Seq<ElementView>) -> Seq<LinkView> {
    anchors.filter_map(|anchor: ElementView| link_of(anchor))
}

/// Every link of a page shows text, and there are no more links than
/// anchors.
pub proof fn lemma_links_show_text(anchors: Seq<ElementView>)
    ensures
        links_of(anchors).len() <= anchors.len(),
        forall|i: int|
            0 <= i < links_of(anchors).len() ==> (#[trigger] links_of(anchors)[i]).text.len() > 0,
    decreases anchors.len(),
{
    if anchors.len() > 0 {
        lemma_links_show_text(anchors.drop_last());
    }
}

/// The record of a page with these title elements, description elements and
/// anchors. Its path is left empty.
pub open spec fn page_of(
    titles: Seq<ElementView>,
    metas: Seq<ElementView>,
    anchors: Seq<ElementView>,
) -> PageView {
    PageView {
        path: Seq::empty(),
        title: title_of(titles),
        description: description_of(metas),
        links: links_of(anchors),
    }
}

/// The record of the page that a text of markup describes.
pub open spec fn extracted(html: Seq<char>) -> PageView {
    page_of(
        selected(html, "title"@, ""@),
        selected(html, "meta[name='description']"@, "content"@),
        selected(html, "a"@, "href"@),
    )
}

fn attr_text(element: &Element) -> (value: String)
    ensures
        value@ == attr_or_empty(element@),
{
    match &element.attr {
        Some(value) => value.clone(),
        None => String::new(),
    }
}

/// Makes the record of a page from the elements found on it.
pub fn build_page(titles: &Vec<Element>, metas: &Vec<Element>, anchors: &Vec<Element>) -> (page:
    Page)
    ensures
        page@ == page_of(titles.deep_view(), metas.deep_view(), anchors.deep_view()),
{
    let title = if titles.len() == 0 {
        String::new()
    } else {
        titles[titles.len() - 1].markup.clone()
    };
    let description = if metas.len() == 0 {
        String::new()
    } else {
        attr_text(&metas[metas.len() - 1])
    };
    let mut links: Vec<Link> = Vec::new();
    let mut i: usize = 0;
    while i < anchors.len()
        invariant
            0 <= i <= anchors.len(),
            links.deep_view() == links_of(anchors.deep_view().take(i as int)),
        decreases anchors.len() - i,
    {
        let anchor = &anchors[i];
        proof {
            anchors.deep_view().lemma_filter_map_take_succ(
                |anchor: ElementView| link_of(anchor),
                i as int,
            );
        }
        let text = collapse_whitespace(join_pieces(&anchor.text).as_str());
        if !text.as_str().is_empty() {
            links.push(Link { href: attr_text(anchor), text });
        }
        i += 1;
    }
    assert(anchors.deep_view().take(i as int) == anchors.deep_view());
    Page { path: String::new(), title, description, links }
}

fn select_all(html: &str, selector: &str, attr: &str) -> (found: Vec<Element>)
    ensures
        found.deep_view() == selected(html@, selector@, attr@),
{
    match select(html, selector, attr) {
        Some(found) => found,
        None => Vec::new(),
    }
}

/// Reads the record of a page off its markup: the last title, the content of
/// the last description, and a link for every anchor that shows text.
pub fn extract_page(html: &str) -> (page: Page)
    ensures
        page@ == extracted(html@),
{
    // Of a title only the markup is read, so no attribute is asked for.
    let titles = select_all(html, "title", "");
    let metas = select_all(html, "meta[name='description']", "content");
    let anchors = select_all(html, "a", "href");
    build_page(&titles, &metas, &anchors)
}

} // verus!
