use seo_site_checker::crawl::{Fetched, Phase};
use seo_site_checker::engine::{get_page, Crawl};
use seo_site_checker::model::{Link, Page, Report};
use std::collections::HashMap;

fn ok(body: &str) -> Fetched {
    Fetched::Response { status: 200, body: body.to_string() }
}

fn status(status: u16) -> Fetched {
    Fetched::Response { status, body: "<a href=\"/trap\">trap</a>".to_string() }
}

fn page_with_links(hrefs: &[&str]) -> String {
    let mut body = String::from("<html><head><title>t</title></head><body>");
    for href in hrefs {
        body.push_str(&format!("<a href=\"{}\">go</a>", href));
    }
    body.push_str("</body></html>");
    body
}

/// Runs a crawl against a site given as a map from address to body. An
/// address the map does not hold answers 404. Gives the report and the
/// addresses that were asked for, in order.
fn run(host: &str, limit: u32, site: &HashMap<String, String>) -> (Report, Vec<String>) {
    let mut crawl = Crawl::start(host, limit).unwrap();
    let mut asked = Vec::new();
    while let Some(url) = crawl.request() {
        let outcome = match site.get(&url) {
            Some(body) => ok(body),
            None => status(404),
        };
        asked.push(url);
        crawl.deliver(outcome);
        assert!(asked.len() < 1000);
    }
    assert!(crawl.is_done());
    (crawl.into_report(), asked)
}

fn site(pages: &[(&str, &[&str])]) -> HashMap<String, String> {
    let mut site = HashMap::new();
    for (url, hrefs) in pages {
        site.insert(url.to_string(), page_with_links(hrefs));
    }
    site
}

fn paths(report: &Report) -> Vec<String> {
    report.pages.iter().map(|page| page.path.clone()).collect()
}

#[test]
fn back_and_self_references_are_visited_once() {
    let site = site(&[
        ("https://example.com", &["/a", "/b"]),
        ("https://example.com/a", &["/b", "/a"]),
        ("https://example.com/b", &[]),
    ]);
    let (report, asked) = run("https://example.com", 0, &site);
    assert_eq!(paths(&report), vec!["/a", "/b"]);
    assert_eq!(
        asked,
        vec![
            "https://example.com/robots.txt",
            "https://example.com",
            "https://example.com/a",
            "https://example.com/b",
        ]
    );
    assert_eq!(report.host, "https://example.com");
    assert!(report.main_page_exists);
    assert_eq!(report.main.path, "");
    assert_eq!(report.main.title, "t");
    assert!(!report.robots_txt_exists);
}

#[test]
fn a_closing_slash_is_dropped_from_the_host() {
    let site = site(&[("https://example.com", &["/a"]), ("https://example.com/a", &[])]);
    let (report, asked) = run("https://example.com/", 0, &site);
    assert_eq!(report.host, "https://example.com");
    assert_eq!(asked[0], "https://example.com/robots.txt");
    assert_eq!(asked[1], "https://example.com");
    assert_eq!(asked[2], "https://example.com/a");
}

#[test]
fn pages_are_visited_breadth_first() {
    let site = site(&[
        ("https://example.com", &["/a", "/b"]),
        ("https://example.com/a", &["/c", "/d"]),
        ("https://example.com/b", &["/e", "/c"]),
        ("https://example.com/c", &["/f"]),
        ("https://example.com/d", &[]),
        ("https://example.com/e", &[]),
        ("https://example.com/f", &[]),
    ]);
    let (report, _) = run("https://example.com", 0, &site);
    assert_eq!(paths(&report), vec!["/a", "/b", "/c", "/d", "/e", "/f"]);
}

#[test]
fn no_path_is_recorded_twice() {
    let site = site(&[
        ("https://example.com", &["/a", "/a", "/b", "/a"]),
        ("https://example.com/a", &["/b", "/b", "/a", "/"]),
        ("https://example.com/b", &["/a", "/b", "/"]),
    ]);
    let (report, asked) = run("https://example.com", 0, &site);
    assert_eq!(paths(&report), vec!["/a", "/b"]);
    assert_eq!(asked.len(), 4);
}

#[test]
fn the_root_path_is_never_fetched_again() {
    let site = site(&[
        ("https://example.com", &["/", "/a"]),
        ("https://example.com/", &["/never"]),
        ("https://example.com/a", &["/"]),
    ]);
    let (report, asked) = run("https://example.com", 0, &site);
    assert_eq!(paths(&report), vec!["/a"]);
    assert!(!asked.contains(&"https://example.com/".to_string()));
}

#[test]
fn external_links_and_empty_hrefs_are_not_followed() {
    let mut site = HashMap::new();
    site.insert(
        "https://example.com".to_string(),
        "<a href=\"https://other.site/\">o</a><a href=\"http://insecure.site/\">i</a>\
         <a href=\"mailto:foo@bar.com\">m</a><a href=\"\">e</a><a>n</a><a href=\"/in\">in</a>"
            .to_string(),
    );
    site.insert("https://example.com/in".to_string(), String::new());
    let (report, asked) = run("https://example.com", 0, &site);
    assert_eq!(report.main.links.len(), 6);
    assert_eq!(paths(&report), vec!["/in"]);
    assert_eq!(asked.len(), 3);
}

#[test]
fn hrefs_that_differ_in_spelling_are_different_paths() {
    let site = site(&[
        ("https://example.com", &["/a", "/a/", "/a?x=1", "/A"]),
        ("https://example.com/a", &[]),
        ("https://example.com/a/", &[]),
        ("https://example.com/a?x=1", &[]),
        ("https://example.com/A", &[]),
    ]);
    let (report, _) = run("https://example.com", 0, &site);
    assert_eq!(paths(&report), vec!["/a", "/a/", "/a?x=1", "/A"]);
}

#[test]
fn a_path_is_joined_to_the_host_as_it_is() {
    let site = site(&[("https://example.com", &["about", "/x"]), ("https://example.comabout", &[])]);
    let (report, asked) = run("https://example.com", 0, &site);
    assert_eq!(asked[2], "https://example.comabout");
    assert_eq!(paths(&report), vec!["about"]);
}

#[test]
fn a_missing_page_is_a_dead_end() {
    let site = site(&[
        ("https://example.com", &["/gone", "/b"]),
        ("https://example.com/b", &["/gone", "/c"]),
        ("https://example.com/c", &[]),
    ]);
    let (report, asked) = run("https://example.com", 0, &site);
    assert_eq!(paths(&report), vec!["/b", "/c"]);
    assert_eq!(
        asked,
        vec![
            "https://example.com/robots.txt",
            "https://example.com",
            "https://example.com/gone",
            "https://example.com/b",
            "https://example.com/c",
        ]
    );
}

#[test]
fn a_failed_fetch_of_a_page_does_not_stop_the_crawl() {
    let mut crawl = Crawl::start("https://example.com", 0).unwrap();
    crawl.deliver(ok(""));
    crawl.deliver(ok(&page_with_links(&["/a", "/b"])));
    assert_eq!(crawl.request(), Some("https://example.com/a".to_string()));
    crawl.deliver(Fetched::Failed);
    assert_eq!(crawl.request(), Some("https://example.com/b".to_string()));
    crawl.deliver(ok(&page_with_links(&["/a"])));
    assert_eq!(crawl.request(), None);
    let report = crawl.into_report();
    assert!(report.robots_txt_exists);
    assert_eq!(paths(&report), vec!["/b"]);
}

#[test]
fn a_limit_bounds_the_paths_sent_out() {
    let site = site(&[
        ("https://example.com", &["/1", "/2", "/3", "/4"]),
        ("https://example.com/1", &["/5"]),
        ("https://example.com/2", &[]),
        ("https://example.com/3", &[]),
        ("https://example.com/4", &[]),
        ("https://example.com/5", &[]),
    ]);
    let (report, asked) = run("https://example.com", 3, &site);
    assert_eq!(paths(&report), vec!["/1", "/2"]);
    assert_eq!(asked.len(), 4);

    let (report, asked) = run("https://example.com", 1, &site);
    assert!(report.pages.is_empty());
    assert!(report.main_page_exists);
    assert_eq!(asked.len(), 2);

    let (report, _) = run("https://example.com", 6, &site);
    assert_eq!(paths(&report), vec!["/1", "/2", "/3", "/4", "/5"]);

    let (report, _) = run("https://example.com", 0, &site);
    assert_eq!(paths(&report), vec!["/1", "/2", "/3", "/4", "/5"]);
}

#[test]
fn the_seen_count_never_passes_the_limit() {
    let site = site(&[
        ("https://example.com", &["/1", "/2", "/3"]),
        ("https://example.com/1", &["/4", "/5"]),
        ("https://example.com/2", &["/6"]),
    ]);
    for limit in 1..8u32 {
        let mut crawl = Crawl::start("https://example.com", limit).unwrap();
        assert!(crawl.seen_count() <= limit as usize);
        while let Some(url) = crawl.request() {
            let outcome = match site.get(&url) {
                Some(body) => ok(body),
                None => status(404),
            };
            crawl.deliver(outcome);
            assert!(crawl.seen_count() <= limit as usize);
        }
    }
    let mut crawl = Crawl::start("https://example.com", 0).unwrap();
    while let Some(url) = crawl.request() {
        let outcome = match site.get(&url) {
            Some(body) => ok(body),
            None => status(404),
        };
        crawl.deliver(outcome);
    }
    assert_eq!(crawl.seen_count(), 7);
}

#[test]
fn a_dead_end_counts_towards_the_limit() {
    let site = site(&[("https://example.com", &["/gone", "/b", "/c"]), ("https://example.com/b", &[])]);
    let (report, asked) = run("https://example.com", 2, &site);
    assert!(report.pages.is_empty());
    assert_eq!(asked.len(), 3);
    assert_eq!(asked[2], "https://example.com/gone");
}

#[test]
fn a_host_out_of_scope_starts_no_crawl() {
    for host in ["ftp://x.com", "https://x.com/a", "not a url", "", "https://", "http://x.com", "https://X.com"] {
        assert!(Crawl::start(host, 0).is_none(), "{:?}", host);
    }
}

#[test]
fn a_missing_root_ends_the_crawl() {
    let mut crawl = Crawl::start("https://example.com", 0).unwrap();
    crawl.deliver(ok("User-agent: *"));
    assert_eq!(crawl.phase(), Phase::Root);
    crawl.deliver(status(404));
    assert_eq!(crawl.phase(), Phase::Done);
    assert_eq!(crawl.request(), None);
    let report = crawl.into_report();
    assert_eq!(report.host, "https://example.com");
    assert!(report.robots_txt_exists);
    assert!(!report.main_page_exists);
    assert_eq!(report.main.path, "");
    assert_eq!(report.main.title, "");
    assert_eq!(report.main.description, "");
    assert!(report.main.links.is_empty());
    assert!(report.pages.is_empty());
}

#[test]
fn a_root_that_cannot_be_reached_ends_the_crawl() {
    let mut crawl = Crawl::start("https://example.com", 0).unwrap();
    crawl.deliver(Fetched::Failed);
    crawl.deliver(Fetched::Failed);
    assert!(crawl.is_done());
    let report = crawl.into_report();
    assert!(!report.robots_txt_exists);
    assert!(!report.main_page_exists);
    assert!(report.pages.is_empty());
}

#[test]
fn a_failed_robots_probe_does_not_block_the_crawl() {
    let mut crawl = Crawl::start("https://example.com", 0).unwrap();
    assert_eq!(crawl.phase(), Phase::Robots);
    assert_eq!(crawl.request(), Some("https://example.com/robots.txt".to_string()));
    crawl.deliver(Fetched::Failed);
    assert!(!crawl.report().robots_txt_exists);
    assert_eq!(crawl.phase(), Phase::Root);
    assert_eq!(crawl.request(), Some("https://example.com".to_string()));
    crawl.deliver(ok(&page_with_links(&["/a"])));
    assert_eq!(crawl.request(), Some("https://example.com/a".to_string()));
    assert_eq!(crawl.current_path(), "/a");
}

#[test]
fn robots_exist_only_with_status_200() {
    for (outcome, expected) in [
        (ok(""), true),
        (status(404), false),
        (status(500), false),
        (status(301), false),
        (status(204), false),
        (Fetched::Failed, false),
    ] {
        let mut crawl = Crawl::start("https://example.com", 0).unwrap();
        crawl.deliver(outcome);
        assert_eq!(crawl.report().robots_txt_exists, expected);
        assert_eq!(crawl.phase(), Phase::Root);
    }
}

#[test]
fn the_body_of_the_robots_file_is_not_read_as_a_page() {
    let mut crawl = Crawl::start("https://example.com", 0).unwrap();
    crawl.deliver(ok(&page_with_links(&["/from-robots"])));
    crawl.deliver(ok(""));
    assert!(crawl.is_done());
    assert!(crawl.report().main.links.is_empty());
}

#[test]
fn a_page_exists_only_with_status_200() {
    let (there, page) = get_page(ok("<title>T</title><a href=\"/x\">x</a>"));
    assert!(there);
    assert_eq!(page.title, "T");
    assert_eq!(page.links.len(), 1);

    for outcome in [status(404), status(201), status(302), status(500), Fetched::Failed] {
        let (there, page) = get_page(outcome);
        assert!(!there);
        assert_eq!(page.path, "");
        assert_eq!(page.title, "");
        assert_eq!(page.description, "");
        assert!(page.links.is_empty());
    }
    assert!(ok("").is_there());
    assert!(!status(404).is_there());
    assert!(!Fetched::Failed.is_there());
}

#[test]
fn pages_are_recorded_under_the_path_they_were_asked_for() {
    let mut crawl = Crawl::start("https://example.com", 0).unwrap();
    crawl.record_robots(true);
    let root = Page {
        path: "ignored".to_string(),
        title: "Home".to_string(),
        description: "The home page".to_string(),
        links: vec![
            Link { href: "/about".to_string(), text: "About".to_string() },
            Link { href: "https://other.site/".to_string(), text: "Other".to_string() },
        ],
    };
    crawl.record_page(Some(root));
    assert_eq!(crawl.report().main.path, "");
    assert_eq!(crawl.report().main.title, "Home");
    assert_eq!(crawl.report().main.links.len(), 2);
    assert_eq!(crawl.current_path(), "/about");
    assert_eq!(crawl.seen_count(), 2);
    let about = Page {
        path: "/elsewhere".to_string(),
        title: "About".to_string(),
        description: String::new(),
        links: vec![],
    };
    crawl.record_page(Some(about));
    assert!(crawl.is_done());
    let report = crawl.into_report();
    assert_eq!(report.pages.len(), 1);
    assert_eq!(report.pages[0].path, "/about");
    assert_eq!(report.pages[0].title, "About");
}

#[test]
fn events_that_are_not_awaited_change_nothing() {
    let mut crawl = Crawl::start("https://example.com", 0).unwrap();
    crawl.record_page(Some(Page::default()));
    assert_eq!(crawl.phase(), Phase::Robots);
    crawl.record_robots(true);
    assert_eq!(crawl.phase(), Phase::Root);
    crawl.record_robots(false);
    assert_eq!(crawl.phase(), Phase::Root);
    assert!(crawl.report().robots_txt_exists);
    crawl.record_page(None);
    assert!(crawl.is_done());
    crawl.deliver(ok(&page_with_links(&["/late"])));
    crawl.record_robots(false);
    crawl.record_page(Some(Page::default()));
    assert!(crawl.is_done());
    assert_eq!(crawl.request(), None);
    assert!(crawl.report().robots_txt_exists);
    assert!(crawl.report().pages.is_empty());
}

#[test]
fn a_new_report_is_blank() {
    let report = Report::default();
    assert_eq!(report.host, "");
    assert!(!report.robots_txt_exists);
    assert!(!report.main_page_exists);
    assert_eq!(report.elapsed_time, std::time::Duration::from_secs(0));
    assert_eq!(report.main.path, "");
    assert_eq!(report.main.title, "");
    assert_eq!(report.main.description, "");
    assert!(report.main.links.is_empty());
    assert!(report.pages.is_empty());
    assert!(report.date.seconds > 1_600_000_000);

    let report = Report::new("https://example.com".to_string());
    assert_eq!(report.host, "https://example.com");
    assert!(report.pages.is_empty());

    let page = Page::default();
    assert_eq!(page.path, "");
    assert!(page.links.is_empty());
}
