//! The settings of a crawl.

use std::time::Duration;
use vstd::prelude::*;

verus! {

/// The settings of a crawl.
#[derive(Debug, Clone)]
pub struct Configuration {
    /// Time between two requests, in milliseconds.
    pub delay: u64,
    /// Whether `robots.txt` is read and followed.
    pub respect_robots_txt: bool,
    /// The user agent that requests are sent with.
    pub user_agent: Option<String>,
    /// The proxy that requests are sent through.
    pub proxy: Option<String>,
    /// How long a request may take.
    pub request_timeout: Option<Duration>,
    /// Whether links to subdomains belong to the website.
    pub subdomains: bool,
    /// Whether links to the same name under other top level domains belong to the website.
    pub tld: bool,
    /// Whether the sitemap is crawled too.
    pub sitemap: bool,
    /// Where the sitemap is, below the domain.
    pub sitemap_path: Option<String>,
    /// URLs that are not to be crawled.
    pub blacklist_url: Option<Vec<String>>,
}

impl Configuration {
    /// Every option is switched off and there is no delay.
    pub open spec fn is_plain(self) -> bool {
        &&& self.delay == 0
        &&& !self.respect_robots_txt
        &&& self.user_agent is None
        &&& self.proxy is None
        &&& self.request_timeout is None
        &&& !self.subdomains
        &&& !self.tld
        &&& !self.sitemap
        &&& self.sitemap_path is None
        &&& self.blacklist_url is None
    }

    /// Settings with every option switched off and no delay.
    pub fn new() -> (configuration: Self)
        ensures
            configuration.is_plain(),
    {
        Configuration {
            delay: 0,
            respect_robots_txt: false,
            user_agent: None,
            proxy: None,
            request_timeout: None,
            subdomains: false,
            tld: false,
            sitemap: false,
            sitemap_path: None,
            blacklist_url: None,
        }
    }
}

} // verus!
