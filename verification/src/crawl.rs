//! The crawl itself, as a machine that is told what each fetch came to and
//! says what to fetch next. It asks for the robots file, then for the root
//! page, then for one page after another, breadth first, until nothing is
//! left to visit or the limit is reached. Fetching is the caller's part.

use crate::extract::extracted;
use crate::frontier::{lemma_next_keeps_order, root_path, FrontierView};
use crate::links::{internal_paths, is_external, lemma_internal_paths_keep_order};
use crate::model::{Page, PageView, ReportView};
use crate::scope::is_host;
use vstd::prelude::*;

verus! {

/// What a crawl waits for.
#[derive(Clone, Copy, Debug, PartialEq, Eq, Structural)]
pub enum Phase {
    /// The answer to the request for the robots file.
    Robots,
    /// The answer to the request for the root page.
    Root,
    /// The answer to the request for the page at the current path.
    Pages,
    /// Nothing: the crawl is over.
    Done,
}

/// What a fetch came to.
#[derive(Debug)]
pub enum Fetched {
    /// No answer was had: the transport failed.
    Failed,
    /// An answer was had.
    Response { status: u16, body: String },
}

/// The outcome of a fetch as contracts see it.
pub enum FetchedView {
    Failed,
    Response { status: u16, body: Seq<char> },
}

impl View for Fetched {
    type V = FetchedView;

    open spec fn view(&self) -> FetchedView {
        match self {
            Fetched::Failed => FetchedView::Failed,
            Fetched::Response { status, body } => FetchedView::Response {
                status: *status,
                body: body@,
            },
        }
    }
}

impl FetchedView {
    /// What was asked for exists: an answer was had, and its status is 200.
    pub open spec fn is_there(self) -> bool {
        self matches FetchedView::Response { status, .. } && status == 200
    }

    /// The record of the page that was fetched, if it exists.
    pub open spec fn page(self) -> Option<PageView> {
        match self {
            FetchedView::Response { status, body } if status == 200 => Some(extracted(body)),
            _ => None,
        }
    }
}

/// A page that may be there, as contracts see it.
pub open spec fn view_of(found: Option<Page>) -> Option<PageView> {
    match found {
        Some(page) => Some(page@),
        None => None,
    }
}

/// The state of a crawl as contracts see it.
pub struct CrawlView {
    pub phase: Phase,
    pub frontier: FrontierView,
    /// The path of the page that was asked for; empty while none is.
    pub current: Seq<char>,
    pub report: ReportView,
}

impl CrawlView {
    /// A crawl of `host` that has not asked for anything yet.
    pub open spec fn start(host: Seq<char>, limit: nat) -> CrawlView {
        CrawlView {
            phase: Phase::Robots,
            frontier: FrontierView::start(limit),
            current: Seq::empty(),
            report: ReportView::blank(host),
        }
    }

    /// What holds whenever a crawl is looked at, also in the middle of a
    /// step: the frontier is in order and queues no path that leaves the
    /// site, the site's address is in its normal form, the root page has no
    /// path, and every page on record has a path of its own, which is not
    /// empty, is not the root's, does not leave the site, and was sent out.
    pub open spec fn sound(self) -> bool {
        &&& self.frontier.wf()
        &&& forall|j: int|
            0 <= j < self.frontier.queue.len() ==> !is_external(#[trigger] self.frontier.queue[j])
        &&& is_host(self.report.host)
        &&& self.report.main.path.len() == 0
        &&& self.report.paths_unique()
        &&& forall|i: int|
            0 <= i < self.report.pages.len() ==> {
                &&& (#[trigger] self.report.pages[i]).path.len() > 0
                &&& self.report.pages[i].path != root_path()
                &&& !is_external(self.report.pages[i].path)
                &&& self.frontier.seen.contains(self.report.pages[i].path)
            }
    }

    /// What holds of a crawl between two steps.
    pub open spec fn wf(self) -> bool {
        &&& self.sound()
        &&& (self.phase is Robots || self.phase is Root) ==> {
            &&& self.frontier.queue.len() == 0
            &&& self.frontier.seen == set![root_path()]
            &&& self.report.pages.len() == 0
        }
        &&& self.phase is Pages ==> {
            &&& self.current.len() > 0
            &&& self.current != root_path()
            &&& !is_external(self.current)
            &&& self.frontier.seen.contains(self.current)
            &&& !self.report.paths().contains(self.current)
        }
        &&& self.phase is Done ==> self.frontier.queue.len() == 0
    }

    /// The address to fetch now; none once the crawl is over.
    pub open spec fn request(self) -> Option<Seq<char>> {
        match self.phase {
            Phase::Robots => Some(self.report.host + "/robots.txt"@),
            Phase::Root => Some(self.report.host),
            Phase::Pages => Some(self.report.host + self.current),
            Phase::Done => None,
        }
    }

    /// Goes on to the next page: the frontier's next path becomes the
    /// current one. Without a next path the crawl is over.
    pub open spec fn dispatch(self) -> CrawlView {
        match self.frontier.next_path() {
            Some(path) => CrawlView {
                phase: Phase::Pages,
                frontier: self.frontier.after_next(),
                current: path,
                report: self.report,
            },
            None => CrawlView {
                phase: Phase::Done,
                frontier: self.frontier.after_next(),
                current: Seq::empty(),
                report: self.report,
            },
        }
    }

    /// The crawl once it is known whether the robots file exists. Only a
    /// crawl that waits for this takes note of it.
    pub open spec fn after_robots(self, there: bool) -> CrawlView {
        if self.phase is Robots {
            CrawlView {
                phase: Phase::Root,
                report: ReportView { robots_txt_exists: there, ..self.report },
                ..self
            }
        } else {
            self
        }
    }

    /// The crawl with a fetched page on record, before it goes on.
    ///
    /// The root page goes on record as the main page, without a path, and
    /// its internal links seed the queue. Any other page goes on record
    /// under the current path, behind the pages before it, and its internal
    /// links go to the back of the queue. A page that does not exist leaves
    /// no trace; of a root page that does not exist the report says so.
    pub open spec fn with_page(self, found: Option<PageView>) -> CrawlView {
        match (self.phase, found) {
            (Phase::Root, Some(page)) => CrawlView {
                frontier: self.frontier.with(internal_paths(page.links)),
                report: ReportView {
                    main_page_exists: true,
                    main: PageView { path: Seq::empty(), ..page },
                    ..self.report
                },
                ..self
            },
            (Phase::Root, None) => CrawlView {
                report: ReportView {
                    main_page_exists: false,
                    main: PageView::blank(),
                    ..self.report
                },
                ..self
            },
            (Phase::Pages, Some(page)) => CrawlView {
                frontier: self.frontier.with(internal_paths(page.links)),
                report: ReportView {
                    pages: self.report.pages.push(PageView { path: self.current, ..page }),
                    ..self.report
                },
                ..self
            },
            _ => self,
        }
    }

    /// The crawl once a page was fetched, or was found not to exist: the
    /// page goes on record, and the crawl goes on to the next page. A crawl
    /// that waits for no page stays as it is.
    pub open spec fn after_page(self, found: Option<PageView>) -> CrawlView {
        match self.phase {
            Phase::Root | Phase::Pages => self.with_page(found).dispatch(),
            _ => self,
        }
    }

    /// The crawl once the fetch it asked for has come to `outcome`. The
    /// robots file exists where the status is 200; so does a page, and then
    /// its record is read off the body.
    pub open spec fn delivered(self, outcome: FetchedView) -> CrawlView {
        match self.phase {
            Phase::Robots => self.after_robots(outcome.is_there()),
            Phase::Root | Phase::Pages => self.after_page(outcome.page()),
            Phase::Done => self,
        }
    }

    /// The crawl after a run of fetches, each answering the request before
    /// it.
    pub open spec fn after(self, outcomes: Seq<FetchedView>) -> CrawlView
        decreases outcomes.len(),
    {
        if outcomes.len() == 0 {
            self
        } else {
            self.after(outcomes.drop_last()).delivered(outcomes.last())
        }
    }
}

/// Going on to the next page brings a sound crawl to rest in good order.
pub proof fn lemma_dispatch_keeps_order(crawl: CrawlView)
    requires
        crawl.sound(),
    ensures
        crawl.dispatch().wf(),
        crawl.dispatch().phase is Pages || crawl.dispatch().phase is Done,
{
    lemma_next_keeps_order(crawl.frontier);
    if let Some(path) = crawl.frontier.next_path() {
        let paths = crawl.report.paths();
        assert(!paths.contains(path)) by {
            if paths.contains(path) {
                let i = choose|i: int| 0 <= i < paths.len() && paths[i] == path;
                assert(crawl.frontier.seen.contains(crawl.report.pages[i].path));
            }
        }
    }
}

/// Taking note of the robots file keeps a crawl in good order.
pub proof fn lemma_after_robots_keeps_order(crawl: CrawlView, there: bool)
    requires
        crawl.wf(),
    ensures
        crawl.after_robots(there).wf(),
{
}

/// A crawl that waits for a page is sound with the page on record.
pub proof fn lemma_with_page_is_sound(crawl: CrawlView, found: Option<PageView>)
    requires
        crawl.wf(),
        crawl.phase is Root || crawl.phase is Pages,
    ensures
        crawl.with_page(found).sound(),
{
    let recorded = crawl.with_page(found);
    if let Some(page) = found {
        let at = lemma_internal_paths_keep_order(page.links);
        assert forall|j: int| 0 <= j < recorded.frontier.queue.len() implies !is_external(
            #[trigger] recorded.frontier.queue[j],
        ) by {
            if j >= crawl.frontier.queue.len() {
                assert(recorded.frontier.queue[j] == internal_paths(page.links)[j
                    - crawl.frontier.queue.len()]);
            }
        }
        if crawl.phase is Pages {
            assert(recorded.report.paths() =~= crawl.report.paths().push(crawl.current));
        }
    }
}

/// Putting a page on record, or finding that there is none, keeps a crawl
/// in good order.
pub proof fn lemma_after_page_keeps_order(crawl: CrawlView, found: Option<PageView>)
    requires
        crawl.wf(),
    ensures
        crawl.after_page(found).wf(),
{
    if crawl.phase is Root || crawl.phase is Pages {
        lemma_with_page_is_sound(crawl, found);
        lemma_dispatch_keeps_order(crawl.with_page(found));
    }
}

/// Whatever a fetch comes to, a crawl that was in good order stays so.
pub proof fn lemma_delivered_keeps_order(crawl: CrawlView, outcome: FetchedView)
    requires
        crawl.wf(),
    ensures
        crawl.delivered(outcome).wf(),
{
    match crawl.phase {
        Phase::Robots => lemma_after_robots_keeps_order(crawl, outcome.is_there()),
        Phase::Root | Phase::Pages => lemma_after_page_keeps_order(crawl, outcome.page()),
        Phase::Done => {},
    }
}

/// A crawl of a site is in good order at every moment, whatever its fetches
/// have come to.
pub proof fn lemma_crawl_stays_in_order(host: Seq<char>, limit: nat, outcomes: Seq<FetchedView>)
    requires
        is_host(host),
    ensures
        CrawlView::start(host, limit).after(outcomes).wf(),
    decreases outcomes.len(),
{
    if outcomes.len() > 0 {
        let start = CrawlView::start(host, limit);
        lemma_crawl_stays_in_order(host, limit, outcomes.drop_last());
        lemma_delivered_keeps_order(start.after(outcomes.drop_last()), outcomes.last());
    }
}

/// With a limit, no more paths are ever sent out than the limit allows, the
/// root among them.
pub proof fn lemma_limit_is_kept(host: Seq<char>, limit: nat, outcomes: Seq<FetchedView>)
    requires
        is_host(host),
        limit > 0,
    ensures
        CrawlView::start(host, limit).after(outcomes).frontier.seen.len() <= limit,
{
    lemma_crawl_stays_in_order(host, limit, outcomes);
    lemma_limit_unchanged(CrawlView::start(host, limit), outcomes);
}

/// The limit of a crawl never changes.
pub proof fn lemma_limit_unchanged(crawl: CrawlView, outcomes: Seq<FetchedView>)
    ensures
        crawl.after(outcomes).frontier.limit == crawl.frontier.limit,
        crawl.after(outcomes).report.host == crawl.report.host,
    decreases outcomes.len(),
{
    if outcomes.len() > 0 {
        lemma_limit_unchanged(crawl, outcomes.drop_last());
    }
}

/// No path stands for two pages of a report, at any moment of a crawl.
pub proof fn lemma_pages_are_unique(host: Seq<char>, limit: nat, outcomes: Seq<FetchedView>)
    requires
        is_host(host),
    ensures
        CrawlView::start(host, limit).after(outcomes).report.paths_unique(),
{
    lemma_crawl_stays_in_order(host, limit, outcomes);
}

/// No page of a report was had by leaving the site: at any moment of a
/// crawl, the path of every page on record is one that stays on the site,
/// and it is neither empty nor the root's.
pub proof fn lemma_pages_stay_on_site(host: Seq<char>, limit: nat, outcomes: Seq<FetchedView>)
    requires
        is_host(host),
    ensures
        forall|i: int|
            0 <= i < CrawlView::start(host, limit).after(outcomes).report.pages.len() ==> {
                let path = (#[trigger] CrawlView::start(host, limit).after(
                    outcomes,
                ).report.pages[i]).path;
                !is_external(path) && path.len() > 0 && path != root_path()
            },
{
    lemma_crawl_stays_in_order(host, limit, outcomes);
}

/// A root page that cannot be had ends the crawl at once: the report says
/// that there is no main page and shows a blank one, no page is on record,
/// nothing is queued, and nothing more is asked for.
pub proof fn lemma_missing_root_ends_crawl(crawl: CrawlView)
    requires
        crawl.wf(),
        crawl.phase is Root,
    ensures
        crawl.after_page(None).wf(),
        crawl.after_page(None).phase is Done,
        crawl.after_page(None).request() is None,
        crawl.after_page(None).frontier.queue.len() == 0,
        crawl.after_page(None).report == (ReportView {
            main_page_exists: false,
            main: PageView::blank(),
            ..crawl.report
        }),
        crawl.after_page(None).report.pages.len() == 0,
{
    lemma_after_page_keeps_order(crawl, None);
}

/// Whether the robots file exists or not, and also where asking for it
/// failed, the crawl goes on to ask for the root page.
pub proof fn lemma_robots_never_block(crawl: CrawlView, outcome: FetchedView)
    requires
        crawl.wf(),
        crawl.phase is Robots,
    ensures
        crawl.delivered(outcome).phase is Root,
        crawl.delivered(outcome).request() == Some(crawl.report.host),
        crawl.delivered(outcome).report.robots_txt_exists == outcome.is_there(),
        outcome is Failed ==> !crawl.delivered(outcome).report.robots_txt_exists,
{
}

} // verus!
