use website_crawler::crawl::{LinkStep, Phase};
use website_crawler::sitemap_walk::{SitemapEntity, SitemapStep, SitemapWalk};
use website_crawler::website::Website;

fn can_fetch(_: &(), _: &str, link: &str) -> bool {
    link != "http://a.b/no"
}

fn address(domain: &str, path: Option<&str>) -> String {
    let mut website: Website<()> = Website::new(domain);
    website.configuration.sitemap_path = path.map(str::to_string);
    website.sitemap_crawl();
    website.sitemap_url.unwrap()
}

const PAGES: &str = r#"<?xml version="1.0" encoding="UTF-8"?>
<urlset xmlns="http://www.sitemaps.org/schemas/sitemap/0.9">
  <url><loc>http://A.b/one</loc><lastmod>2020-01-01</lastmod></url>
  <url><loc>not a url</loc></url>
  <url><priority>0.5</priority></url>
  <url><loc>http://a.b/no</loc></url>
</urlset>"#;

const INDEX: &str = r#"<?xml version="1.0" encoding="UTF-8"?>
<sitemapindex xmlns="http://www.sitemaps.org/schemas/sitemap/0.9">
  <sitemap><loc>http://a.b/first.xml</loc></sitemap>
  <sitemap><loc>http://a.b/second.xml</loc></sitemap>
  <sitemap><lastmod>2020-01-01</lastmod></sitemap>
</sitemapindex>"#;

#[test]
fn the_address_of_the_sitemap_has_one_slash() {
    assert_eq!(address("http://a.b", None), "http://a.b/sitemap.xml");
    assert_eq!(address("http://a.b/", None), "http://a.b/sitemap.xml");
    assert_eq!(address("http://a.b", Some("s.xml")), "http://a.b/s.xml");
    assert_eq!(address("http://a.b/", Some("s.xml")), "http://a.b/s.xml");
    assert_eq!(address("http://a.b", Some("/s.xml")), "http://a.b/s.xml");
    assert_eq!(address("http://a.b/", Some("/s.xml")), "http://a.b/s.xml");
}

#[test]
fn the_address_with_an_empty_or_odd_path() {
    assert_eq!(address("http://a.b", Some("")), "http://a.b");
    assert_eq!(address("http://a.b/", Some("")), "http://a.b/");
    assert_eq!(address("http://a.b/", Some("/")), "http://a.b/");
    assert_eq!(address("http://a.b/", Some("//s")), "http://a.b//s");
    assert_eq!(address("http://a.b", Some("\u{e9}.xml")), "http://a.b/\u{e9}.xml");
    assert_eq!(address("", Some("s")), "/s");
}

#[test]
fn a_sitemap_is_requested_while_the_crawl_goes_on() {
    let mut website: Website<()> = Website::new("http://a.b");
    assert_eq!(website.sitemap_request(true), None);
    website.sitemap_crawl();
    assert_eq!(website.sitemap_request(true), Some("http://a.b/sitemap.xml".to_string()));
    assert_eq!(website.sitemap_request(false), None);
}

#[test]
fn pages_of_a_sitemap_are_crawled_where_allowed() {
    let mut website: Website<()> = Website::new("http://a.b");
    website.configuration.respect_robots_txt = true;
    website.robot_file_parser = Some(());
    website.links.drain();
    website.sitemap_crawl();
    let mut walk = SitemapWalk::read(PAGES);
    assert_eq!(walk.entities.len(), 4);
    assert_eq!(walk.next_entry(&mut website, true, can_fetch), SitemapStep::Crawl);
    assert_eq!(website.links.to_vec(), vec!["http://a.b/one".to_string()]);
    assert_eq!(walk.next_entry(&mut website, true, can_fetch), SitemapStep::Continue);
    assert_eq!(walk.next_entry(&mut website, true, can_fetch), SitemapStep::Continue);
    assert_eq!(walk.next_entry(&mut website, true, can_fetch), SitemapStep::Continue);
    assert_eq!(walk.next_entry(&mut website, true, can_fetch), SitemapStep::Done);
    assert_eq!(website.links.to_vec().len(), 1);
    website.end_sitemap();
    assert_eq!(website.sitemap_url, None);
}

#[test]
fn a_visited_page_of_a_sitemap_is_not_crawled() {
    let mut website: Website<()> = Website::new("http://a.b");
    website.links.drain();
    website.links_visited.insert("http://a.b/ONE");
    let mut walk = SitemapWalk::read(PAGES);
    assert_eq!(walk.next_entry(&mut website, true, can_fetch), SitemapStep::Continue);
    assert!(website.links.is_empty());
}

#[test]
fn every_further_sitemap_is_kept_in_its_order() {
    let mut website: Website<()> = Website::new("http://a.b");
    website.sitemap_crawl();
    let mut walk = SitemapWalk::read(INDEX);
    assert_eq!(walk.entities.len(), 3);
    while walk.next_entry(&mut website, true, can_fetch) != SitemapStep::Done {}
    assert_eq!(website.sitemap_request(true), Some("http://a.b/sitemap.xml".to_string()));
    assert_eq!(website.sitemaps_pending, vec!["http://a.b/first.xml", "http://a.b/second.xml"]);
    website.end_sitemap();
    assert_eq!(website.sitemap_request(true), Some("http://a.b/first.xml".to_string()));
    assert_eq!(website.sitemaps_pending, vec!["http://a.b/second.xml"]);
    website.end_sitemap();
    assert_eq!(website.sitemap_request(true), Some("http://a.b/second.xml".to_string()));
    assert!(website.sitemaps_pending.is_empty());
    website.end_sitemap();
    assert_eq!(website.sitemap_request(true), None);
    assert_eq!(
        website.sitemaps_known,
        vec!["http://a.b/sitemap.xml", "http://a.b/first.xml", "http://a.b/second.xml"]
    );
}

/// Crawls the pages, which show no links.
fn crawl_pages(website: &mut Website<()>) -> Vec<String> {
    let mut fetched = Vec::new();
    let mut crawl = website.inner_crawl();
    while crawl.phase != Phase::Finished {
        while crawl.phase == Phase::Streaming {
            if let LinkStep::Fetch(link) = crawl.next_link(website, true, can_fetch) {
                fetched.push(link);
            }
        }
        crawl.end_pass(true);
    }
    fetched
}

/// Crawls the pages and the sitemaps; the sitemaps that were requested and the links that were
/// fetched, in their order.
fn crawl_sitemaps(
    website: &mut Website<()>,
    answer: fn(&str) -> Option<&'static str>,
) -> (Vec<String>, Vec<String>) {
    let mut requested = Vec::new();
    website.sitemap_crawl();
    let mut fetched = crawl_pages(website);
    while let Some(url) = website.sitemap_request(true) {
        let mut walk = SitemapWalk::of_answer(answer(&url));
        requested.push(url);
        loop {
            match walk.next_entry(website, true, can_fetch) {
                SitemapStep::Crawl => fetched.extend(crawl_pages(website)),
                SitemapStep::Continue => {}
                SitemapStep::Done => break,
            }
        }
        website.end_sitemap();
    }
    (requested, fetched)
}

#[test]
fn the_entire_list_of_urls_is_gathered() {
    let mut website: Website<()> = Website::new("http://a.b");
    let (requested, fetched) = crawl_sitemaps(&mut website, |url| match url {
        "http://a.b/sitemap.xml" => Some(INDEX),
        "http://a.b/first.xml" => Some(
            "<urlset><url><loc>http://a.b/1</loc></url><url><loc>http://a.b/2</loc></url></urlset>",
        ),
        "http://a.b/second.xml" => Some(
            "<urlset><url><loc>http://A.B/1</loc></url><url><loc>http://a.b/3</loc></url></urlset>",
        ),
        _ => None,
    });
    assert_eq!(
        requested,
        vec!["http://a.b/sitemap.xml", "http://a.b/first.xml", "http://a.b/second.xml"]
    );
    assert_eq!(fetched, vec!["http://a.b", "http://a.b/1", "http://a.b/2", "http://a.b/3"]);
    for link in fetched {
        assert!(website.get_links().contains(&link));
    }
    assert_eq!(website.sitemap_url, None);
    assert!(website.links.is_empty());
}

#[test]
fn sitemaps_that_name_each_other_are_read_once() {
    let mut website: Website<()> = Website::new("http://a.b");
    let (requested, _) = crawl_sitemaps(&mut website, |url| match url {
        "http://a.b/sitemap.xml" => Some(
            "<sitemapindex><sitemap><loc>http://a.b/sitemap.xml</loc></sitemap>\
             <sitemap><loc>http://a.b/x.xml</loc></sitemap>\
             <sitemap><loc>http://a.b/x.xml</loc></sitemap></sitemapindex>",
        ),
        "http://a.b/x.xml" => Some(
            "<sitemapindex><sitemap><loc>http://a.b/sitemap.xml</loc></sitemap></sitemapindex>",
        ),
        _ => None,
    });
    assert_eq!(requested, vec!["http://a.b/sitemap.xml", "http://a.b/x.xml"]);
}

#[test]
fn a_failed_request_does_not_end_the_crawl() {
    let mut website: Website<()> = Website::new("http://a.b");
    let (requested, fetched) = crawl_sitemaps(&mut website, |url| match url {
        "http://a.b/sitemap.xml" => Some(INDEX),
        "http://a.b/second.xml" => Some("<urlset><url><loc>http://a.b/3</loc></url></urlset>"),
        _ => None,
    });
    assert_eq!(requested.len(), 3);
    assert_eq!(fetched, vec!["http://a.b", "http://a.b/3"]);
}

#[test]
fn bad_entries_make_no_difference() {
    let walk_through = |text: &str| {
        let mut website: Website<()> = Website::new("http://a.b");
        website.links.drain();
        let mut walk = SitemapWalk::read(text);
        let mut steps = Vec::new();
        loop {
            match walk.next_entry(&mut website, true, can_fetch) {
                SitemapStep::Done => break,
                SitemapStep::Crawl => steps.extend(crawl_pages(&mut website)),
                SitemapStep::Continue => {}
            }
        }
        (steps, website.get_links().to_vec().len(), website.sitemaps_pending)
    };
    let good = "<urlset><url><loc>http://a.b/1</loc></url><url><loc>http://a.b/2</loc></url></urlset>";
    let bad = "<urlset><url><loc>no</loc></url><url><loc>http://a.b/1</loc></url><url></url>\
               <url><loc>http://a.b/2</loc></url><url></urlset>";
    assert_eq!(walk_through(good), walk_through(bad));
    assert_eq!(walk_through(bad).0, vec!["http://a.b/1", "http://a.b/2"]);
}

#[test]
fn a_new_crawl_forgets_the_sitemaps_of_the_last() {
    let mut website: Website<()> = Website::new("http://a.b");
    website.sitemap_crawl();
    let mut walk = SitemapWalk::read(INDEX);
    while walk.next_entry(&mut website, true, can_fetch) != SitemapStep::Done {}
    website.sitemap_crawl();
    assert!(website.sitemaps_pending.is_empty());
    assert_eq!(website.sitemaps_known, vec!["http://a.b/sitemap.xml"]);
}

#[test]
fn a_walk_that_is_called_off_is_done() {
    let mut website: Website<()> = Website::new("http://a.b");
    website.sitemap_crawl();
    let mut walk = SitemapWalk::read(PAGES);
    assert_eq!(walk.next_entry(&mut website, false, can_fetch), SitemapStep::Done);
    assert_eq!(walk.position, 0);
    website.end_sitemap();
    assert_eq!(website.sitemap_url, None);
}

#[test]
fn a_malformed_sitemap_ends_with_its_fault() {
    let walk = SitemapWalk::read("<urlset><url><loc>http://a.b/x</loc></url><url></urlset>");
    assert_eq!(walk.entities.len(), 2);
    assert!(matches!(&walk.entities[0], SitemapEntity::Url(Some(url)) if url == "http://a.b/x"));
    assert!(matches!(&walk.entities[1], SitemapEntity::Malformed(fault) if !fault.is_empty()));
    let walk = SitemapWalk::read("");
    assert!(walk.entities.iter().all(|entity| matches!(entity, SitemapEntity::Malformed(_))));
}

#[test]
fn a_sitemap_that_was_not_fetched_leaves_none() {
    let mut website: Website<()> = Website::new("http://a.b");
    website.sitemap_crawl();
    let mut walk = SitemapWalk::of_answer(None);
    assert_eq!(walk.next_entry(&mut website, true, can_fetch), SitemapStep::Done);
    website.end_sitemap();
    assert_eq!(website.sitemap_url, None);
}
