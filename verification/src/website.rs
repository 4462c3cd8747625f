//! A website to crawl: what is known of it and which of its links may be visited.

use crate::address::{parse_url, url_join, url_parse};
use crate::black_list::contains;
use crate::configuration::Configuration;
use crate::link_set::{lists, no_links, with_link, LinkSet};
use crate::page::{abs_path, build, convert_abs_path, Page};
use crate::text::{fold, option_text, texts};
use vstd::prelude::*;

verus! {

/// A website to crawl and gather all links of.
///
/// `P` is the parser that holds the site's `robots.txt`.
#[derive(Debug)]
pub struct Website<P> {
    /// Configuration properties for the website.
    pub configuration: Configuration,
    /// The domain name of the website.
    pub domain: String,
    /// The links that are still to be visited.
    pub links: LinkSet,
    /// The links that have been visited.
    pub links_visited: LinkSet,
    /// The parser of the site's `robots.txt`, once there is one.
    pub robot_file_parser: Option<P>,
    /// The sitemap that is read at present.
    pub sitemap_url: Option<String>,
    /// The sitemaps that are to be read after it, in their order.
    pub sitemaps_pending: Vec<String>,
    /// Every sitemap that this crawl has come to know, read or still to be read.
    pub sitemaps_known: Vec<String>,
    /// The root of the site, where the domain is a URL.
    pub domain_parsed: Option<String>,
}

/// The root of the site that a domain names, where it is a URL.
pub open spec fn site_root(domain: Seq<char>) -> Option<Seq<char>> {
    match url_parse(domain) {
        Some(url) => Some(abs_path(url.text, url_join(url.text, "/"@))),
        None => None,
    }
}

impl<P> Website<P> {
    /// Nothing has been crawled yet: the domain is the only link.
    pub open spec fn is_fresh(self, domain: Seq<char>, root: Option<Seq<char>>) -> bool {
        &&& self.configuration.is_plain()
        &&& self.domain@ == domain
        &&& self.links@ == with_link(no_links(), domain)
        &&& self.links_visited@ == no_links()
        &&& self.robot_file_parser is None
        &&& self.sitemap_url is None
        &&& self.sitemaps_pending@.len() == 0
        &&& self.sitemaps_known@.len() == 0
        &&& option_text(self.domain_parsed) == root
    }

    /// Everything but the visited links is as in `other`.
    pub open spec fn same_but_visited(self, other: Self) -> bool {
        &&& self.configuration == other.configuration
        &&& self.domain == other.domain
        &&& self.links == other.links
        &&& self.robot_file_parser == other.robot_file_parser
        &&& self.sitemap_url == other.sitemap_url
        &&& self.sitemaps_pending == other.sitemaps_pending
        &&& self.sitemaps_known == other.sitemaps_known
        &&& self.domain_parsed == other.domain_parsed
    }

    /// Whether `link` has been visited, in any spelling.
    pub open spec fn is_visited(self, link: Seq<char>) -> bool {
        self.links_visited@.contains_key(fold(link))
    }

    /// Whether `link` stands on the blacklist.
    pub open spec fn is_blacklisted(self, link: Seq<char>) -> bool {
        match self.configuration.blacklist_url {
            Some(blacklist_url) => texts(blacklist_url@).contains(link),
            None => false,
        }
    }

    /// Whether `robots.txt` has a say: it is to be followed, and there is a parser to ask. Only
    /// where a blacklist is given may the parser be missing; the blacklist then decides alone.
    pub open spec fn asks_robots(self) -> bool {
        self.configuration.respect_robots_txt && (self.robot_file_parser is Some
            || self.configuration.blacklist_url is None)
    }

    /// The parser can be asked about `link` wherever it has to be.
    pub open spec fn can_ask<F: Fn(&P, &str, &str) -> bool>(self, can_fetch: F, link: &str) -> bool {
        self.asks_robots() && !self.is_visited(link@) && !self.is_blacklisted(link@) ==> {
            &&& self.robot_file_parser is Some
            &&& call_requires(can_fetch, (&self.robot_file_parser->0, "*", link))
        }
    }

    /// `verdict` is what `robots.txt` says of `link` for any agent; a file that has no say
    /// allows everything.
    pub open spec fn robots_verdict<F: Fn(&P, &str, &str) -> bool>(
        self,
        can_fetch: F,
        link: &str,
        verdict: bool,
    ) -> bool {
        if self.asks_robots() {
            call_ensures(can_fetch, (&self.robot_file_parser->0, "*", link), verdict)
        } else {
            verdict
        }
    }

    /// `verdict` says whether `link` may be visited: it is not blacklisted, and `robots.txt`
    /// allows it.
    pub open spec fn default_verdict<F: Fn(&P, &str, &str) -> bool>(
        self,
        can_fetch: F,
        link: &str,
        verdict: bool,
    ) -> bool {
        if self.is_blacklisted(link@) {
            !verdict
        } else {
            self.robots_verdict(can_fetch, link, verdict)
        }
    }

    /// `verdict` says whether `link` may be visited now: it has not been visited, it is not
    /// blacklisted, and `robots.txt` allows it.
    pub open spec fn allowed_verdict<F: Fn(&P, &str, &str) -> bool>(
        self,
        can_fetch: F,
        link: &str,
        verdict: bool,
    ) -> bool {
        if self.is_visited(link@) {
            !verdict
        } else {
            self.default_verdict(can_fetch, link, verdict)
        }
    }

    /// The parser can be asked about the link that `link` spells wherever it has to be.
    pub open spec fn can_ask_of<F: Fn(&P, &str, &str) -> bool>(
        self,
        can_fetch: F,
        link: Seq<char>,
    ) -> bool {
        forall|spelled: &str| #[trigger] spelled@ == link ==> self.can_ask(can_fetch, spelled)
    }

    /// `fetched` says whether the link that `link` spells may be visited in the state `self`, and
    /// `after` is the state after that decision: a link that is fetched counts as visited.
    pub open spec fn takes<F: Fn(&P, &str, &str) -> bool>(
        self,
        can_fetch: F,
        link: Seq<char>,
        fetched: bool,
        after: Self,
    ) -> bool {
        &&& exists|spelled: &str| #[trigger]
            spelled@ == link && self.allowed_verdict(can_fetch, spelled, fetched)
        &&& after.same_but_visited(self)
        &&& after.links_visited@ == (if fetched {
            self.links_visited@.insert(fold(link), link)
        } else {
            self.links_visited@
        })
    }

    /// A website with the domain as the only link and the given root.
    pub fn with_root(domain: &str, root: Option<String>) -> (site: Self)
        ensures
            site.is_fresh(domain@, option_text(root)),
    {
        let mut links = LinkSet::new();
        links.insert(domain);
        Website {
            configuration: Configuration::new(),
            domain: domain.to_owned(),
            links,
            links_visited: LinkSet::new(),
            robot_file_parser: None,
            sitemap_url: None,
            sitemaps_pending: Vec::new(),
            sitemaps_known: Vec::new(),
            domain_parsed: root,
        }
    }

    /// A website with the domain as the link to start from.
    pub fn new(domain: &str) -> (site: Self)
        ensures
            site.is_fresh(domain@, site_root(domain@)),
    {
        let root = match parse_url(domain) {
            Some(url) => Some(convert_abs_path(url.text.as_str(), "/")),
            None => None,
        };
        Self::with_root(domain, root)
    }

    /// A page for each visited link, without its document, in some order.
    pub fn get_pages(&self) -> (pages: Vec<Page>)
        ensures
            lists(pages@.map_values(|page: Page| page.url@), self.links_visited@),
            forall|i: int| 0 <= i < pages.len() ==> (#[trigger] pages[i]).html is None,
    {
        let links = self.links_visited.to_vec();
        let mut pages: Vec<Page> = Vec::new();
        let mut i: usize = 0;
        while i < links.len()
            invariant
                i <= links.len(),
                pages.len() == i,
                forall|j: int| 0 <= j < i ==> (#[trigger] pages[j]).url@ == links[j]@,
                forall|j: int| 0 <= j < i ==> (#[trigger] pages[j]).html is None,
            decreases links.len() - i,
        {
            pages.push(build(links[i].as_str(), None));
            i += 1;
        }
        assert(pages@.map_values(|page: Page| page.url@) =~= texts(links@));
        pages
    }

    /// The visited links.
    pub fn get_links(&self) -> (links: &LinkSet)
        ensures
            *links == self.links_visited,
    {
        &self.links_visited
    }

    /// The time between two requests, in milliseconds.
    pub fn get_delay(&self) -> (delay: u64)
        ensures
            delay == self.configuration.delay,
    {
        self.configuration.delay
    }

    /// Whether `link` is not forbidden in `robots.txt`, where that is to be followed.
    ///
    /// `can_fetch` asks the parser whether an agent may fetch a link.
    pub fn is_allowed_robots<F: Fn(&P, &str, &str) -> bool>(&self, link: &str, can_fetch: F) -> (r:
        bool)
        requires
            self.configuration.respect_robots_txt ==> self.robot_file_parser is Some
                && call_requires(can_fetch, (&self.robot_file_parser->0, "*", link)),
        ensures
            if self.configuration.respect_robots_txt {
                call_ensures(can_fetch, (&self.robot_file_parser->0, "*", link), r)
            } else {
                r
            },
    {
        if self.configuration.respect_robots_txt {
            let robot_file_parser = self.robot_file_parser.as_ref().unwrap();
            can_fetch(robot_file_parser, "*", link)
        } else {
            true
        }
    }

    /// Whether `link` is not blacklisted and not forbidden in `robots.txt`.
    pub fn is_allowed_default<F: Fn(&P, &str, &str) -> bool>(
        &self,
        link: &str,
        can_fetch: F,
    ) -> (r: bool)
        requires
            self.asks_robots() && !self.is_blacklisted(link@) ==> self.robot_file_parser is Some
                && call_requires(can_fetch, (&self.robot_file_parser->0, "*", link)),
        ensures
            self.default_verdict(can_fetch, link, r),
    {
        match &self.configuration.blacklist_url {
            Some(blacklist_url) => {
                if contains(blacklist_url, link) {
                    return false;
                }
                if self.robot_file_parser.is_none() {
                    return true;
                }
            },
            None => {},
        }
        self.is_allowed_robots(link, can_fetch)
    }

    /// Whether `link` has not been visited, is not blacklisted and not forbidden in
    /// `robots.txt`.
    pub fn is_allowed<F: Fn(&P, &str, &str) -> bool>(&self, link: &str, can_fetch: F) -> (r: bool)
        requires
            self.can_ask(can_fetch, link),
        ensures
            self.allowed_verdict(can_fetch, link, r),
    {
        if self.links_visited.contains(link) {
            false
        } else {
            self.is_allowed_default(link, can_fetch)
        }
    }

    /// Decides whether `link` is fetched: if it is allowed, it counts as visited from now on.
    pub fn visit<F: Fn(&P, &str, &str) -> bool>(&mut self, link: &str, can_fetch: F) -> (r: bool)
        requires
            old(self).can_ask(can_fetch, link),
        ensures
            old(self).allowed_verdict(can_fetch, link, r),
            old(self).takes(can_fetch, link@, r, *final(self)),
    {
        if self.is_allowed(link, can_fetch) {
            self.links_visited.insert(link);
            true
        } else {
            false
        }
    }
}

} // verus!
