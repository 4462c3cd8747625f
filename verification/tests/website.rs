use std::cell::RefCell;
use website_crawler::configuration::Configuration;
use website_crawler::page::{build, convert_abs_path, joined_or_base};
use website_crawler::website::Website;

/// A parser with fixed answers, as it would be after reading the files of two sites.
struct Robots {
    mtime: i64,
    delays: Vec<(Option<&'static str>, u128)>,
    forbidden: Vec<&'static str>,
    asked: RefCell<Vec<(String, String)>>,
}

impl Robots {
    fn new() -> Robots {
        Robots {
            mtime: 0,
            delays: Vec::new(),
            forbidden: Vec::new(),
            asked: RefCell::new(Vec::new()),
        }
    }

    fn forbidding(link: &'static str) -> Robots {
        let mut robots = Robots::new();
        robots.forbidden.push(link);
        robots
    }

    fn mtime(&self) -> i64 {
        self.mtime
    }

    fn read(&mut self, base: &str) {
        self.mtime = 1_680_000_000;
        if base == "https://stackoverflow.com/" {
            self.forbidden = vec!["https://stackoverflow.com/posts/"];
        }
        if base == "https://www.mongodb.com/" {
            self.delays = vec![(Some("bingbot"), 60000), (None, 10000)];
        }
    }

    fn get_crawl_delay(&self, agent: &Option<String>) -> Option<u128> {
        self.delays.iter().find(|(name, _)| *name == agent.as_deref()).map(|(_, delay)| *delay)
    }

    fn can_fetch(&self, agent: &str, link: &str) -> bool {
        self.asked.borrow_mut().push((agent.to_string(), link.to_string()));
        !self.forbidden.contains(&link)
    }
}

/// Configures the parser as a crawl does; says whether the file was read.
fn configure(website: &mut Website<Robots>) -> bool {
    match website.configure_robots_parser(Robots::new, Robots::mtime) {
        Some(url) => {
            website.robot_file_parser.as_mut().unwrap().read(&url);
            website.robots_read(Robots::get_crawl_delay);
            true
        }
        None => false,
    }
}

#[test]
fn test_respect_robots_txt() {
    let mut website: Website<Robots> = Website::new("https://stackoverflow.com");
    website.configuration.respect_robots_txt = true;
    website.configuration.user_agent = Some("*".to_string());

    assert!(configure(&mut website));
    assert!(!configure(&mut website));

    assert_eq!(website.configuration.delay, 0);

    assert!(!website.is_allowed("https://stackoverflow.com/posts/", Robots::can_fetch));

    // test match for bing bot
    let mut website_second: Website<Robots> = Website::new("https://www.mongodb.com");
    website_second.configuration.respect_robots_txt = true;
    website_second.configuration.user_agent = Some("bingbot".to_string());

    assert!(configure(&mut website_second));
    assert!(!configure(&mut website_second));

    assert_eq!(website_second.configuration.delay, 60000); // should equal one minute in ms

    // test crawl delay with wildcard agent
    let mut website_third: Website<Robots> = Website::new("https://www.mongodb.com");
    website_third.configuration.respect_robots_txt = true;

    assert!(configure(&mut website_third));
    assert!(!configure(&mut website_third));

    assert_eq!(website_third.configuration.delay, 10000); // should equal 10 seconds in ms
}

#[test]
fn a_new_website_starts_from_its_domain() {
    let website: Website<Robots> = Website::new("http://Example.com/a?b#c");
    assert_eq!(website.domain, "http://Example.com/a?b#c");
    assert_eq!(website.links.to_vec(), vec!["http://Example.com/a?b#c".to_string()]);
    assert!(website.get_links().is_empty());
    assert!(website.get_pages().is_empty());
    assert_eq!(website.domain_parsed, Some("http://example.com/".to_string()));
    assert_eq!(website.sitemap_url, None);
    assert!(website.robot_file_parser.is_none());
    assert_eq!(website.get_delay(), 0);
}

#[test]
fn a_domain_that_is_no_url_has_no_root() {
    let website: Website<Robots> = Website::new("example.com");
    assert_eq!(website.domain_parsed, None);
    assert_eq!(website.domain, "example.com");
    assert!(website.links.contains("EXAMPLE.com"));
}

#[test]
fn a_domain_that_nothing_joins_is_its_own_root() {
    let website: Website<Robots> = Website::new("mailto:someone@example.com");
    assert_eq!(website.domain_parsed, Some("mailto:someone@example.com".to_string()));
}

#[test]
fn a_root_is_taken_as_given() {
    let website: Website<Robots> = Website::with_root("example.com", Some("x".to_string()));
    assert_eq!(website.domain_parsed, Some("x".to_string()));
    assert!(website.links.contains("example.com"));
}

#[test]
fn addresses_on_a_page_are_joined_to_its_own() {
    assert_eq!(convert_abs_path("http://a.b/c/d", "/"), "http://a.b/");
    assert_eq!(convert_abs_path("http://a.b/c/d", "e"), "http://a.b/c/e");
    assert_eq!(convert_abs_path("http://a.b/c/d", "http://x.y/z"), "http://x.y/z");
    assert_eq!(convert_abs_path("no url", "/"), "no url");
    assert_eq!(joined_or_base("a", Some("b".to_string())), "b");
    assert_eq!(joined_or_base("a", None), "a");
}

#[test]
fn a_page_is_built_from_address_and_document() {
    let page = build("http://a.b/", Some("<p>".to_string()));
    assert_eq!(page.url, "http://a.b/");
    assert_eq!(page.html, Some("<p>".to_string()));
}

#[test]
fn the_plain_configuration_has_every_option_off() {
    let configuration = Configuration::new();
    assert_eq!(configuration.delay, 0);
    assert!(!configuration.respect_robots_txt);
    assert!(!configuration.subdomains);
    assert!(!configuration.tld);
    assert!(!configuration.sitemap);
    assert!(configuration.user_agent.is_none());
    assert!(configuration.proxy.is_none());
    assert!(configuration.request_timeout.is_none());
    assert!(configuration.sitemap_path.is_none());
    assert!(configuration.blacklist_url.is_none());
}

#[test]
fn a_visited_link_is_refused_in_every_case() {
    let mut website: Website<Robots> = Website::new("http://a.b");
    assert!(website.is_allowed("http://a.b/Page", Robots::can_fetch));
    assert!(website.visit("http://a.b/Page", Robots::can_fetch));
    assert!(!website.is_allowed("http://a.b/Page", Robots::can_fetch));
    assert!(!website.is_allowed("HTTP://A.B/PAGE", Robots::can_fetch));
    assert!(!website.visit("http://a.b/page", Robots::can_fetch));
    assert!(website.is_allowed("http://a.b/Page2", Robots::can_fetch));
    assert!(website.is_allowed_default("http://a.b/Page", Robots::can_fetch));
    assert_eq!(website.get_links().to_vec(), vec!["http://a.b/Page".to_string()]);
}

#[test]
fn a_page_stands_for_each_visited_link() {
    let mut website: Website<Robots> = Website::new("http://a.b");
    website.visit("http://a.b/One", Robots::can_fetch);
    website.visit("http://a.b/Two", Robots::can_fetch);
    website.visit("http://a.b/TWO", Robots::can_fetch);
    let pages = website.get_pages();
    let mut urls: Vec<String> = pages.iter().map(|page| page.url.clone()).collect();
    urls.sort();
    assert_eq!(urls, vec!["http://a.b/One".to_string(), "http://a.b/Two".to_string()]);
    assert!(pages.iter().all(|page| page.html.is_none()));
}

#[test]
fn a_blacklisted_link_is_refused_letter_for_letter() {
    let mut website: Website<Robots> = Website::new("http://a.b");
    website.configuration.blacklist_url =
        Some(vec!["http://a.b/other".to_string(), "http://a.b/no".to_string()]);
    assert!(!website.is_allowed("http://a.b/no", Robots::can_fetch));
    assert!(!website.is_allowed_default("http://a.b/no", Robots::can_fetch));
    assert!(website.is_allowed("http://a.b/NO", Robots::can_fetch));
    assert!(website.is_allowed("http://a.b/no/", Robots::can_fetch));
    assert!(website.is_allowed_robots("http://a.b/no", Robots::can_fetch));
    website.configuration.blacklist_url = Some(Vec::new());
    assert!(website.is_allowed("http://a.b/no", Robots::can_fetch));
}

#[test]
fn robots_are_asked_for_any_agent() {
    let mut website: Website<Robots> = Website::new("http://a.b");
    website.configuration.user_agent = Some("bingbot".to_string());
    website.robot_file_parser = Some(Robots::forbidding("http://a.b/no"));
    assert!(website.is_allowed("http://a.b/no", Robots::can_fetch));
    assert!(website.is_allowed_robots("http://a.b/no", Robots::can_fetch));
    website.configuration.respect_robots_txt = true;
    assert!(!website.is_allowed("http://a.b/no", Robots::can_fetch));
    assert!(!website.is_allowed_robots("http://a.b/no", Robots::can_fetch));
    assert!(website.is_allowed_default("http://a.b/yes", Robots::can_fetch));
    let asked = website.robot_file_parser.unwrap().asked.into_inner();
    assert_eq!(asked[0], ("*".to_string(), "http://a.b/no".to_string()));
    assert_eq!(asked.len(), 3);
}

#[test]
fn a_blacklist_does_not_switch_robots_off() {
    let mut website: Website<Robots> = Website::new("http://a.b");
    website.configuration.blacklist_url = Some(vec!["http://a.b/listed".to_string()]);
    website.configuration.respect_robots_txt = true;
    website.robot_file_parser = Some(Robots::forbidding("http://a.b/no"));
    assert!(!website.is_allowed("http://a.b/listed", Robots::can_fetch));
    assert!(!website.is_allowed("http://a.b/no", Robots::can_fetch));
    assert!(website.is_allowed("http://a.b/yes", Robots::can_fetch));
}

#[test]
fn a_blacklist_alone_decides_while_there_is_no_parser() {
    let mut website: Website<Robots> = Website::new("http://a.b");
    website.configuration.blacklist_url = Some(vec!["http://a.b/listed".to_string()]);
    website.configuration.respect_robots_txt = true;
    assert!(!website.is_allowed("http://a.b/listed", Robots::can_fetch));
    assert!(website.is_allowed("http://a.b/no", Robots::can_fetch));
}

#[test]
fn robots_are_read_below_the_root() {
    let website: Website<Robots> = Website::new("https://a.b/deep/page");
    assert_eq!(website.robots_url(), "https://a.b/");
    let website: Website<Robots> = Website::new("a.b");
    assert_eq!(website.robots_url(), "a.b/");
    let website: Website<Robots> = Website::new("a.b/");
    assert_eq!(website.robots_url(), "a.b/");
    let website: Website<Robots> = Website::new("");
    assert_eq!(website.robots_url(), "/");
}

#[test]
fn robots_are_read_again_up_to_the_bound() {
    let mut website: Website<Robots> = Website::new("https://a.b");
    assert_eq!(website.robots_due(0), None);
    website.configuration.respect_robots_txt = true;
    assert_eq!(website.robots_due(-1), Some("https://a.b/".to_string()));
    assert_eq!(website.robots_due(4000), Some("https://a.b/".to_string()));
    assert_eq!(website.robots_due(4001), None);
}

#[test]
fn robots_that_are_not_followed_are_not_configured() {
    let mut website: Website<Robots> = Website::new("https://www.mongodb.com");
    assert!(!configure(&mut website));
    assert!(website.robot_file_parser.is_none());
    assert_eq!(website.configuration.delay, 0);
}

#[test]
fn a_parser_that_is_there_is_kept() {
    let mut website: Website<Robots> = Website::new("https://a.b");
    website.configuration.respect_robots_txt = true;
    website.robot_file_parser = Some(Robots::forbidding("https://a.b/no"));
    assert!(configure(&mut website));
    assert!(!website.is_allowed("https://a.b/no", Robots::can_fetch));
}

#[test]
fn the_crawl_delay_is_taken_over_where_there_is_one() {
    let mut website: Website<Robots> = Website::new("https://a.b");
    website.set_crawl_delay(Some(250));
    assert_eq!(website.get_delay(), 250);
    website.set_crawl_delay(None);
    assert_eq!(website.get_delay(), 250);
    website.set_crawl_delay(Some((1u128 << 64) + 7));
    assert_eq!(website.get_delay(), 7);
    website.set_crawl_delay(Some(u64::MAX as u128));
    assert_eq!(website.get_delay(), u64::MAX);
}
