use std::collections::HashMap;
use website_crawler::crawl::{CrawlKind, InnerCrawl, LinkStep, Phase};
use website_crawler::link_set::LinkSet;
use website_crawler::monitor::{rpc_callback, still_active};
use website_crawler::page::build;
use website_crawler::website::Website;

/// The links that each page of a site shows.
struct Site {
    pages: HashMap<&'static str, Vec<&'static str>>,
}

impl Site {
    fn new() -> Site {
        let mut pages = HashMap::new();
        pages.insert("http://a.b", vec!["http://a.b/1", "http://a.b/2", "http://A.B"]);
        pages.insert("http://a.b/1", vec!["http://a.b/2", "http://a.b/3", "http://a.b/no"]);
        pages.insert("http://a.b/2", vec!["http://a.b/1", "http://a.b/3"]);
        pages.insert("http://a.b/3", vec!["http://a.b/1", "http://a.b"]);
        Site { pages }
    }

    fn links(&self, link: &str) -> LinkSet {
        let mut set = LinkSet::new();
        for shown in self.pages.get(link.to_lowercase().as_str()).into_iter().flatten() {
            set.insert(shown);
        }
        set
    }
}

fn can_fetch(_: &(), agent: &str, link: &str) -> bool {
    assert_eq!(agent, "*");
    link != "http://a.b/no"
}

fn website() -> Website<()> {
    let mut website = Website::new("http://a.b");
    website.configuration.respect_robots_txt = true;
    website.robot_file_parser = Some(());
    website
}

fn sorted(mut links: Vec<String>) -> Vec<String> {
    links.sort();
    links
}

/// Crawls round by round; the links that were fetched, in their order.
fn crawl(website: &mut Website<()>, site: &Site) -> Vec<String> {
    let mut fetched = Vec::new();
    while let Some(mut round) = website.begin_round() {
        let mut messages = Vec::new();
        loop {
            match round.next_link(website, can_fetch) {
                LinkStep::Fetch(link) => {
                    messages.push(site.links(&link));
                    fetched.push(link);
                }
                LinkStep::Skip(_) => {}
                LinkStep::Join => break,
                LinkStep::Shutdown => unreachable!(),
            }
        }
        for message in messages {
            round.received(message);
        }
        website.end_round(round);
    }
    fetched
}

/// Crawls pass by pass under a client that wants `wanted` pages; the links that were fetched.
fn crawl_for(website: &mut Website<()>, site: &Site, wanted: usize) -> (Vec<String>, bool) {
    let mut fetched = Vec::new();
    let mut shut_down = false;
    let mut active = true;
    let mut messages = Vec::new();
    let mut crawl = website.inner_crawl();
    assert!(website.links.is_empty());
    while crawl.phase != Phase::Finished {
        while crawl.phase == Phase::Streaming {
            match crawl.next_link(website, active, can_fetch) {
                LinkStep::Fetch(link) => {
                    messages.push(site.links(&link));
                    fetched.push(link);
                    active = still_active(active, fetched.len() < wanted);
                }
                LinkStep::Shutdown => {
                    shut_down = true;
                    messages.clear();
                }
                LinkStep::Skip(_) | LinkStep::Join => {}
            }
        }
        while crawl.phase == Phase::Joining {
            match messages.pop() {
                Some(message) => crawl.joined(website, active, Some(message)),
                None => crawl.end_pass(active),
            }
        }
    }
    (fetched, shut_down)
}

fn whole_site() -> Vec<String> {
    ["http://a.b", "http://a.b/1", "http://a.b/2", "http://a.b/3"]
        .iter()
        .map(|link| link.to_string())
        .collect()
}

#[test]
fn a_crawl_by_rounds_fetches_each_allowed_link_once() {
    let mut website = website();
    let fetched = crawl(&mut website, &Site::new());
    assert_eq!(sorted(fetched), whole_site());
    assert_eq!(sorted(website.get_links().to_vec()), whole_site());
    assert!(website.links.is_empty());
    assert!(website.begin_round().is_none());
}

#[test]
fn a_crawl_by_passes_fetches_each_allowed_link_once() {
    let mut website = website();
    let (fetched, shut_down) = crawl_for(&mut website, &Site::new(), usize::MAX);
    assert_eq!(sorted(fetched), whole_site());
    assert!(!shut_down);
    assert_eq!(sorted(website.get_links().to_vec()), whole_site());
}

#[test]
fn a_second_crawl_fetches_nothing() {
    let mut website = website();
    crawl(&mut website, &Site::new());
    website.links.insert("HTTP://a.b/1");
    assert!(crawl(&mut website, &Site::new()).is_empty());
    assert!(website.links.is_empty());
}

#[test]
fn both_ways_end_with_the_same_links() {
    let mut by_rounds = website();
    let mut by_passes = website();
    crawl(&mut by_rounds, &Site::new());
    crawl_for(&mut by_passes, &Site::new(), usize::MAX);
    assert_eq!(
        sorted(by_rounds.get_links().to_vec()),
        sorted(by_passes.get_links().to_vec())
    );
}

#[test]
fn a_crawl_keeps_visited_links_apart_from_the_others() {
    let mut website = website();
    website.links_visited.insert("http://a.b/2");
    let mut crawl = website.inner_crawl();
    assert!(matches!(crawl.next_link(&mut website, true, can_fetch), LinkStep::Fetch(_)));
    assert!(matches!(crawl.next_link(&mut website, true, can_fetch), LinkStep::Join));
    crawl.joined(&website, true, Some(Site::new().links("http://a.b")));
    assert_eq!(crawl.links.to_vec(), vec!["http://a.b/1".to_string()]);
    assert!(website.get_links().contains("http://a.b/2"));
}

#[test]
fn visited_links_are_not_allowed_after_a_crawl() {
    let mut website = website();
    crawl(&mut website, &Site::new());
    let visited = website.get_links().to_vec();
    assert!(crawl(&mut website, &Site::new()).is_empty());
    assert_eq!(sorted(website.get_links().to_vec()), sorted(visited.clone()));
    for link in visited {
        assert!(!website.is_allowed(&link, can_fetch));
    }
}

#[test]
fn blacklisted_links_are_not_fetched() {
    let mut website = website();
    website.configuration.blacklist_url = Some(vec!["http://a.b/1".to_string()]);
    let fetched = crawl(&mut website, &Site::new());
    assert_eq!(
        sorted(fetched),
        vec!["http://a.b".to_string(), "http://a.b/2".to_string(), "http://a.b/3".to_string()]
    );
}

#[test]
fn a_crawl_that_is_called_off_while_joining_is_over() {
    let mut website = website();
    let (fetched, shut_down) = crawl_for(&mut website, &Site::new(), 1);
    assert_eq!(fetched, vec!["http://a.b".to_string()]);
    assert!(!shut_down);
}

#[test]
fn a_crawl_that_is_called_off_while_streaming_is_shut_down() {
    let mut website = website();
    let (fetched, shut_down) = crawl_for(&mut website, &Site::new(), 2);
    assert_eq!(fetched.len(), 2);
    assert!(shut_down);
    assert_eq!(website.get_links().to_vec().len(), 2);
}

#[test]
fn the_links_of_a_round_are_those_found_and_unvisited() {
    let mut website = website();
    let mut round = website.begin_round().unwrap();
    assert_eq!(round.queue, vec!["http://a.b".to_string()]);
    assert!(matches!(round.next_link(&mut website, can_fetch), LinkStep::Fetch(_)));
    assert!(matches!(round.next_link(&mut website, can_fetch), LinkStep::Join));
    round.received(Site::new().links("http://a.b"));
    website.end_round(round);
    assert_eq!(
        sorted(website.links.to_vec()),
        vec!["http://a.b/1".to_string(), "http://a.b/2".to_string()]
    );
}

#[test]
fn a_link_that_robots_forbid_is_skipped() {
    let mut website = website();
    website.links = Site::new().links("http://a.b/1");
    let mut round = website.begin_round().unwrap();
    let mut skipped = Vec::new();
    loop {
        match round.next_link(&mut website, can_fetch) {
            LinkStep::Skip(link) => skipped.push(link),
            LinkStep::Fetch(_) => {}
            _ => break,
        }
    }
    assert_eq!(skipped, vec!["http://a.b/no".to_string()]);
    assert!(!website.get_links().contains("http://a.b/no"));
}

#[test]
fn a_failed_fetch_adds_no_link() {
    let mut website = website();
    let mut crawl = InnerCrawl {
        phase: Phase::Joining,
        queue: Vec::new(),
        links: LinkSet::new(),
    };
    crawl.joined(&website, true, None);
    assert_eq!(crawl.phase, Phase::Joining);
    assert!(crawl.links.is_empty());
    website.links_visited.insert("http://a.b/2");
    crawl.joined(&website, true, Some(Site::new().links("http://a.b/2")));
    assert_eq!(
        sorted(crawl.links.to_vec()),
        vec!["http://a.b/1".to_string(), "http://a.b/3".to_string()]
    );
    crawl.end_pass(true);
    assert_eq!(crawl.phase, Phase::Streaming);
    assert_eq!(
        sorted(crawl.queue),
        vec!["http://a.b/1".to_string(), "http://a.b/3".to_string()]
    );
}

#[test]
fn a_crawl_without_links_is_over_after_one_pass() {
    let mut website = website();
    website.links.drain();
    let mut crawl = website.inner_crawl();
    assert!(matches!(crawl.next_link(&mut website, true, can_fetch), LinkStep::Join));
    crawl.end_pass(true);
    assert_eq!(crawl.phase, Phase::Finished);
}

#[test]
fn a_crawl_needs_a_root_and_selectors() {
    let select = |root: &String, subdomains: bool, tld: bool| {
        Some((root.clone(), subdomains, tld))
    };
    let mut website: Website<()> = Website::new("http://a.b/c");
    website.configuration.tld = true;
    website.configuration.delay = 25;
    let plan = website.crawl_concurrent(select).unwrap();
    assert_eq!(plan.selectors, ("http://a.b/".to_string(), false, true));
    assert_eq!(plan.throttle, 25);
    assert!(website.crawl_concurrent(|_: &String, _, _| None::<u8>).is_none());

    let (plan, kind) = website.crawl_concurrent_rpc(select).unwrap();
    assert_eq!(plan.throttle, 25);
    assert_eq!(kind, CrawlKind::Inner);
    website.configuration.sitemap = true;
    website.configuration.subdomains = true;
    let (plan, kind) = website.crawl_concurrent_rpc(select).unwrap();
    assert_eq!(plan.selectors, ("http://a.b/".to_string(), true, true));
    assert_eq!(kind, CrawlKind::Sitemap);
    assert!(website.crawl_concurrent_rpc(|_: &String, _, _| None::<u8>).is_none());

    let website: Website<()> = Website::new("a.b");
    assert!(website.crawl_concurrent(select).is_none());
    assert!(website.crawl_concurrent_rpc(select).is_none());
}

#[test]
fn the_client_is_told_of_a_page() {
    let request = rpc_callback("http://a.b", 7, build("http://a.b", Some("<p>".to_string())));
    assert_eq!(request.link, "http://a.b");
    assert_eq!(request.user_id, 7);
    assert_eq!(request.html, "<p>");
    let request = rpc_callback("http://a.b", 7, build("http://a.b", None));
    assert_eq!(request.html, "");
}

#[test]
fn a_client_that_turned_a_page_down_gets_no_more() {
    assert!(still_active(true, true));
    assert!(!still_active(true, false));
    assert!(!still_active(false, true));
    assert!(!still_active(false, false));
}
