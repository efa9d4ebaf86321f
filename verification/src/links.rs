//! Which of a page's links the crawl may follow.

use crate::model::{LinkView, Page, PageView};
use crate::text::starts_with;
use std::collections::VecDeque;
use vstd::prelude::*;

verus! {

/// An href that leaves the site by its spelling alone: an absolute web
/// address or a mail address. Where it would lead is not looked at.
pub open spec fn is_external(href: Seq<char>) -> bool {
    ||| "https://"@.is_prefix_of(href)
    ||| "http://"@.is_prefix_of(href)
    ||| "mailto:"@.is_prefix_of(href)
}

/// The path a link offers to the crawl, if it offers one.
pub open spec fn candidate(link: LinkView) -> Option<Seq<char>> {
    if is_external(link.href) {
        None
    } else {
        Some(link.href)
    }
}

/// The hrefs of the links that stay on the site, in the order of the links.
pub open spec fn internal_paths(links: Seq<LinkView>) -> Seq<Seq<char>> {
    links.filter_map(|link: LinkView| candidate(link))
}

/// Tells whether an href leaves the site.
pub fn leaves_site(href: &str) -> (yes: bool)
    ensures
        yes == is_external(href@),
{
    starts_with(href, "https://") || starts_with(href, "http://") || starts_with(href, "mailto:")
}

/// The candidate internal paths of a page: the href of every link that does
/// not leave the site, in link order.
pub fn get_internal_links(page: &Page) -> (paths: VecDeque<String>)
    ensures
        paths.deep_view() == internal_paths(page@.links),
{
    let mut paths: VecDeque<String> = VecDeque::new();
    let mut i: usize = 0;
    while i < page.links.len()
        invariant
            0 <= i <= page.links.len(),
            paths.deep_view() == internal_paths(page@.links.take(i as int)),
        decreases page.links.len() - i,
    {
        let link = &page.links[i];
        proof {
            page@.links.lemma_filter_map_take_succ(|link: LinkView| candidate(link), i as int);
        }
        if !leaves_site(link.href.as_str()) {
            paths.push_back(link.href.clone());
        }
        i += 1;
    }
    assert(page@.links.take(i as int) == page@.links);
    paths
}

/// `at` tells where in `links` each of `paths` comes from: the places are
/// in rising order, each path is the href at its place, and every link that
/// stays on the site has a place.
pub open spec fn picks_in_order(paths: Seq<Seq<char>>, links: Seq<LinkView>, at: Seq<int>) -> bool {
    &&& at.len() == paths.len()
    &&& forall|i: int|
        0 <= i < at.len() ==> 0 <= #[trigger] at[i] < links.len() && paths[i] == links[at[i]].href
    &&& forall|i: int, j: int| 0 <= i < j < at.len() ==> at[i] < at[j]
    &&& forall|k: int|
        0 <= k < links.len() && !is_external(#[trigger] links[k].href) ==> at.contains(k)
}

/// The internal paths of a page hold no href that leaves the site, and they
/// are the hrefs of all the other links, each once for its link, in the
/// order of the links. The places they come from are handed back.
pub proof fn lemma_internal_paths_keep_order(links: Seq<LinkView>) -> (at: Seq<int>)
    ensures
        forall|i: int|
            0 <= i < internal_paths(links).len() ==> !is_external(#[trigger] internal_paths(links)[i]),
        picks_in_order(internal_paths(links), links, at),
    decreases links.len(),
{
    if links.len() == 0 {
        Seq::empty()
    } else {
        let before = lemma_internal_paths_keep_order(links.drop_last());
        let last = links.len() - 1;
        let at = if is_external(links.last().href) {
            before
        } else {
            before.push(last)
        };
        assert forall|k: int|
            0 <= k < links.len() && !is_external(#[trigger] links[k].href) implies at.contains(
            k,
        ) by {
            if k < last {
                assert(links.drop_last()[k] == links[k]);
                let i = choose|i: int| 0 <= i < before.len() && before[i] == k;
                assert(at[i] == k);
            } else {
                assert(at[at.len() - 1] == k);
            }
        }
        at
    }
}

/// The paths of a page depend on its links alone: two pages that show the
/// same links give the same paths, so classifying a page again gives what
/// it gave before.
pub proof fn lemma_same_links_same_paths(first: PageView, second: PageView)
    requires
        first.links == second.links,
    ensures
        internal_paths(first.links) == internal_paths(second.links),
{
}

} // verus!
