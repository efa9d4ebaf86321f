//! The records a crawl fills in: links, pages and the report.

use crate::clock::{wall_clock, whole_seconds, Timestamp};
use std::time::Duration;
use vstd::prelude::*;

verus! {

/// One anchor of a page: where it points and what it shows.
#[derive(Debug)]
pub struct Link {
    pub href: String,
    pub text: String,
}

/// A link as contracts see it.
pub struct LinkView {
    pub href: Seq<char>,
    pub text: Seq<char>,
}

impl View for Link {
    type V = LinkView;

    open spec fn view(&self) -> LinkView {
        LinkView { href: self.href@, text: self.text@ }
    }
}

impl DeepView for Link {
    type V = LinkView;

    open spec fn deep_view(&self) -> LinkView {
        self@
    }
}

/// What was read from one fetched page. An empty `path` stands for the root.
#[derive(Debug)]
pub struct Page {
    pub path: String,
    pub title: String,
    pub description: String,
    pub links: Vec<Link>,
}

/// A page as contracts see it.
pub struct PageView {
    pub path: Seq<char>,
    pub title: Seq<char>,
    pub description: Seq<char>,
    pub links: Seq<LinkView>,
}

impl PageView {
    /// The page with nothing on it.
    pub open spec fn blank() -> PageView {
        PageView { path: Seq::empty(), title: Seq::empty(), description: Seq::empty(), links: Seq::empty() }
    }
}

impl View for Page {
    type V = PageView;

    open spec fn view(&self) -> PageView {
        PageView {
            path: self.path@,
            title: self.title@,
            description: self.description@,
            links: self.links.deep_view(),
        }
    }
}

impl DeepView for Page {
    type V = PageView;

    open spec fn deep_view(&self) -> PageView {
        self@
    }
}

impl Default for Page {
    fn default() -> (page: Page)
        ensures
            page@ == PageView::blank(),
    {
        let page = Page {
            path: String::new(),
            title: String::new(),
            description: String::new(),
            links: Vec::new(),
        };
        assert(page.links.deep_view() =~= Seq::empty());
        page
    }
}

/// What one crawl found out about a site.
#[derive(Debug)]
pub struct Report {
    /// When the report was begun.
    pub date: Timestamp,
    /// The site's address in its normal form.
    pub host: String,
    pub robots_txt_exists: bool,
    /// How long the crawl took.
    pub elapsed_time: Duration,
    pub main_page_exists: bool,
    /// The root page; blank where it could not be had.
    pub main: Page,
    /// Every other page that was had, in the order of the visits.
    pub pages: Vec<Page>,
}

/// A report as contracts see it. The two readings of the clock are left out.
pub struct ReportView {
    pub host: Seq<char>,
    pub robots_txt_exists: bool,
    pub main_page_exists: bool,
    pub main: PageView,
    pub pages: Seq<PageView>,
}

impl ReportView {
    /// The report of a crawl of `host` that has found out nothing yet.
    pub open spec fn blank(host: Seq<char>) -> ReportView {
        ReportView {
            host,
            robots_txt_exists: false,
            main_page_exists: false,
            main: PageView::blank(),
            pages: Seq::empty(),
        }
    }

    /// The paths of the pages, in the order of the pages.
    pub open spec fn paths(self) -> Seq<Seq<char>> {
        self.pages.map_values(|page: PageView| page.path)
    }

    /// No path stands for two pages.
    pub open spec fn paths_unique(self) -> bool {
        self.paths().no_duplicates()
    }
}

impl View for Report {
    type V = ReportView;

    open spec fn view(&self) -> ReportView {
        ReportView {
            host: self.host@,
            robots_txt_exists: self.robots_txt_exists,
            main_page_exists: self.main_page_exists,
            main: self.main@,
            pages: self.pages.deep_view(),
        }
    }
}

impl Report {
    /// The report of a crawl of `host` that has found out nothing yet,
    /// dated now.
    pub fn new(host: String) -> (report: Report)
        ensures
            report@ == ReportView::blank(host@),
            report.elapsed_time == whole_seconds(0),
    {
        let report = Report {
            date: wall_clock(),
            host,
            robots_txt_exists: false,
            elapsed_time: Duration::from_secs(0),
            main_page_exists: false,
            main: Page::default(),
            pages: Vec::new(),
        };
        assert(report.pages.deep_view() =~= Seq::empty());
        report
    }
}

impl Default for Report {
    fn default() -> (report: Report)
        ensures
            report@ == ReportView::blank(Seq::empty()),
            report.elapsed_time == whole_seconds(0),
    {
        Report::new(String::new())
    }
}

/// What a report is held against when it is shown: the least length of a
/// good title and of a good description of the root page.
#[derive(Debug)]
pub struct Required {
    pub main_title_length: i32,
    pub main_description_length: i32,
}

impl Required {
    /// The thresholds every report is shown with.
    pub fn standard() -> (required: Required)
        ensures
            required.main_title_length == 10,
            required.main_description_length == 30,
    {
        Required { main_title_length: 10, main_description_length: 30 }
    }
}

} // verus!
