//! The crawl as it runs: it keeps the frontier and the report, says which
//! address to fetch, and takes what each fetch came to.

use crate::clock::whole_seconds;
use crate::crawl::{
    lemma_after_robots_keeps_order, lemma_dispatch_keeps_order, lemma_with_page_is_sound, view_of,
    CrawlView, Fetched, Phase,
};
use crate::extract::extract_page;
use crate::frontier::Frontier;
use crate::links::get_internal_links;
use crate::model::{Page, PageView, Report};
use crate::scope::{is_host, is_root_url, resolve, validate_host, without_closing_slash};
use std::time::Instant;
use vstd::prelude::*;

verus! {

impl Fetched {
    /// Tells whether what was asked for exists: an answer was had, and its
    /// status is 200.
    pub fn is_there(&self) -> (there: bool)
        ensures
            there == self@.is_there(),
    {
        match self {
            Fetched::Response { status, .. } => *status == 200,
            Fetched::Failed => false,
        }
    }
}

/// Makes of a fetched page what the crawl keeps: whether the page exists,
/// and its record as read off the body. A page that does not exist has a
/// blank record, and its body is not looked at.
pub fn get_page(outcome: Fetched) -> (found: (bool, Page))
    ensures
        found.0 == outcome@.is_there(),
        found.1@ == match outcome@.page() {
            Some(page) => page,
            None => PageView::blank(),
        },
{
    match outcome {
        Fetched::Response { status, body } => {
            if status == 200 {
                (true, extract_page(body.as_str()))
            } else {
                (false, Page::default())
            }
        },
        Fetched::Failed => (false, Page::default()),
    }
}

/// One crawl of one site.
pub struct Crawl {
    phase: Phase,
    frontier: Frontier,
    current: String,
    report: Report,
    began: Instant,
}

impl View for Crawl {
    type V = CrawlView;

    closed spec fn view(&self) -> CrawlView {
        CrawlView {
            phase: self.phase,
            frontier: self.frontier@,
            current: self.current@,
            report: self.report@,
        }
    }
}

impl Crawl {
    /// The crawl is in good order.
    pub open spec fn wf(&self) -> bool {
        self@.wf()
    }

    /// The report as it stands, the readings of the clock with it.
    pub closed spec fn record(&self) -> Report {
        self.report
    }

    /// A step from `self` to `next` has left the report's date alone, and
    /// its elapsed time too, unless the step ended the crawl.
    pub open spec fn keeps_time(&self, next: &Crawl) -> bool {
        &&& next.record().date == self.record().date
        &&& (self@.phase is Done || !(next@.phase is Done)) ==> next.record().elapsed_time
            == self.record().elapsed_time
    }

    /// Begins a crawl of the site at `url` that sends out `limit` paths at
    /// most, the root among them; 0 sets no limit. An address that is no
    /// root address begins nothing.
    pub fn start(url: &str, limit: u32) -> (crawl: Option<Crawl>)
        ensures
            match crawl {
                Some(crawl) => {
                    &&& is_root_url(url@)
                    &&& crawl.wf()
                    &&& crawl@ == CrawlView::start(without_closing_slash(url@), limit as nat)
                    &&& crawl.record().elapsed_time == whole_seconds(0)
                },
                None => !is_root_url(url@),
            },
    {
        match validate_host(url) {
            None => None,
            Some(host) => {
                let began = Instant::now();
                let crawl = Crawl {
                    phase: Phase::Robots,
                    frontier: Frontier::new(limit),
                    current: String::new(),
                    report: Report::new(host),
                    began,
                };
                Some(crawl)
            },
        }
    }

    /// What the crawl waits for.
    pub fn phase(&self) -> (phase: Phase)
        ensures
            phase == self@.phase,
    {
        self.phase
    }

    /// Tells whether the crawl is over.
    pub fn is_done(&self) -> (done: bool)
        ensures
            done == (self@.phase is Done),
    {
        match self.phase {
            Phase::Done => true,
            _ => false,
        }
    }

    /// The address to fetch now: the robots file first, then the root, then
    /// the page at the current path. None once the crawl is over.
    pub fn request(&self) -> (url: Option<String>)
        ensures
            match url {
                Some(url) => self@.request() == Some(url@),
                None => self@.request() is None,
            },
    {
        match self.phase {
            Phase::Robots => Some(resolve(self.report.host.as_str(), "/robots.txt")),
            Phase::Root => Some(self.report.host.clone()),
            Phase::Pages => Some(resolve(self.report.host.as_str(), self.current.as_str())),
            Phase::Done => None,
        }
    }

    /// The path of the page that was asked for.
    pub fn current_path(&self) -> (path: &String)
        ensures
            path@ == self@.current,
    {
        &self.current
    }

    /// How many paths were sent out so far, the root among them.
    pub fn seen_count(&self) -> (count: usize)
        ensures
            count == self@.frontier.seen.len(),
    {
        self.frontier.seen_count()
    }

    /// The report as it stands.
    pub fn report(&self) -> (report: &Report)
        ensures
            *report == self.record(),
            report@ == self@.report,
    {
        &self.report
    }

    /// Hands the report over. The report of a crawl in good order names the
    /// site in its normal form and has no path twice among its pages.
    pub fn into_report(self) -> (report: Report)
        ensures
            report == self.record(),
            report@ == self@.report,
            self.wf() ==> is_host(report@.host) && report@.paths_unique(),
    {
        self.report
    }

    fn dispatch(&mut self)
        requires
            old(self)@.sound(),
        ensures
            final(self)@ == old(self)@.dispatch(),
            final(self).wf(),
            final(self).record().date == old(self).record().date,
            !(final(self)@.phase is Done) ==> final(self).record().elapsed_time == old(
                self,
            ).record().elapsed_time,
    {
        proof {
            lemma_dispatch_keeps_order(self@);
        }
        match self.frontier.next() {
            Some(path) => {
                self.current = path;
                self.phase = Phase::Pages;
            },
            None => {
                self.current = String::new();
                self.phase = Phase::Done;
                self.report.elapsed_time = self.began.elapsed();
            },
        }
    }

    /// Takes note of whether the robots file exists, and goes on to the
    /// root page. A crawl that does not wait for this stays as it is.
    pub fn record_robots(&mut self, there: bool)
        requires
            old(self).wf(),
        ensures
            final(self).wf(),
            final(self)@ == old(self)@.after_robots(there),
            old(self).keeps_time(final(self)),
    {
        proof {
            lemma_after_robots_keeps_order(self@, there);
        }
        match self.phase {
            Phase::Robots => {
                self.report.robots_txt_exists = there;
                self.phase = Phase::Root;
            },
            _ => {},
        }
    }

    /// Puts the page that was asked for on record, or takes note that there
    /// is none, and goes on to the next page. A crawl that waits for no page
    /// stays as it is.
    pub fn record_page(&mut self, found: Option<Page>)
        requires
            old(self).wf(),
        ensures
            final(self).wf(),
            final(self)@ == old(self)@.after_page(view_of(found)),
            old(self).keeps_time(final(self)),
    {
        proof {
            if self@.phase is Root || self@.phase is Pages {
                lemma_with_page_is_sound(self@, view_of(found));
            }
        }
        match self.phase {
            Phase::Root => {
                match found {
                    Some(page) => {
                        self.frontier.enqueue(get_internal_links(&page));
                        self.report.main_page_exists = true;
                        self.report.main = Page {
                            path: String::new(),
                            title: page.title,
                            description: page.description,
                            links: page.links,
                        };
                    },
                    None => {
                        self.report.main_page_exists = false;
                        self.report.main = Page::default();
                    },
                }
                self.dispatch();
            },
            Phase::Pages => {
                match found {
                    Some(page) => {
                        self.frontier.enqueue(get_internal_links(&page));
                        let ghost before = self.report.pages.deep_view();
                        let named = Page {
                            path: self.current.clone(),
                            title: page.title,
                            description: page.description,
                            links: page.links,
                        };
                        self.report.pages.push(named);
                        assert(self.report.pages.deep_view() =~= before.push(named@));
                    },
                    None => {},
                }
                self.dispatch();
            },
            _ => {},
        }
    }

    /// Takes what the fetch that was asked for came to. Something exists
    /// where an answer was had and its status is 200; a page's record is
    /// then read off the body. A failed fetch and any other status mean
    /// that there is no such thing, and the crawl goes on.
    pub fn deliver(&mut self, outcome: Fetched)
        requires
            old(self).wf(),
        ensures
            final(self).wf(),
            final(self)@ == old(self)@.delivered(outcome@),
            old(self).keeps_time(final(self)),
    {
        match self.phase {
            Phase::Robots => {
                self.record_robots(outcome.is_there());
            },
            Phase::Root | Phase::Pages => {
                let (there, page) = get_page(outcome);
                self.record_page(if there { Some(page) } else { None });
            },
            Phase::Done => {},
        }
    }
}

} // verus!
