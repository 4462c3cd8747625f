//! The two ways through a website: round by round, and pass by pass under a client that can
//! call the crawl off.

use crate::link_set::{lists, no_links, LinkSet};
use crate::text::{fold, texts};
use crate::website::Website;
use vstd::prelude::*;

verus! {

/// The links that a page shows.
pub type Message = LinkSet;

/// The members of the links that a page shows, where there is a page.
pub open spec fn message_view(message: Option<Message>) -> Option<Map<Seq<char>, Seq<char>>> {
    match message {
        Some(message) => Some(message@),
        None => None,
    }
}

/// What a crawl of a website goes by.
#[derive(Debug)]
pub struct CrawlPlan<S> {
    /// What tells the links of the website from others.
    pub selectors: S,
    /// Time between two links, in milliseconds.
    pub throttle: u64,
}

/// Which way a crawl under a client takes.
#[derive(Debug, Clone, Copy, PartialEq, Eq, Structural)]
pub enum CrawlKind {
    /// Through the links of the pages.
    Inner,
    /// Through the links of the pages, then through those of the sitemap.
    Sitemap,
}

/// What is done with the next link of a round or a pass.
#[derive(Debug)]
pub enum LinkStep {
    /// Its page is fetched; it counts as visited.
    Fetch(String),
    /// It is passed over.
    Skip(String),
    /// The crawl was called off: what is being fetched is abandoned.
    Shutdown,
    /// There is no further link: what was fetched is waited for.
    Join,
}

/// A round of a crawl: the links that are left of it, and those found so far.
#[derive(Debug)]
pub struct Round {
    pub queue: Vec<String>,
    pub new_links: LinkSet,
}

/// Where a pass under a client stands.
#[derive(Debug, Clone, Copy, PartialEq, Eq, Structural)]
pub enum Phase {
    /// Links are being taken from the queue.
    Streaming,
    /// Fetched pages are being waited for.
    Joining,
    /// The crawl is over.
    Finished,
}

/// A crawl under a client: the links that are left of this pass, and those found for the next.
#[derive(Debug)]
pub struct InnerCrawl {
    pub phase: Phase,
    pub queue: Vec<String>,
    pub links: LinkSet,
}

/// No link of the sequence is visited, and none occurs twice, in any spelling.
pub open spec fn unvisited_once(
    items: Seq<Seq<char>>,
    visited: Map<Seq<char>, Seq<char>>,
) -> bool {
    &&& forall|i: int| 0 <= i < items.len() ==> !visited.contains_key(fold(#[trigger] items[i]))
    &&& forall|i: int, j: int|
        0 <= i < j < items.len() ==> fold(#[trigger] items[i]) != fold(#[trigger] items[j])
}

/// Once the last link of a sequence is taken, the others are still unvisited.
pub proof fn rest_is_unvisited(
    queue: Seq<String>,
    visited: Map<Seq<char>, Seq<char>>,
    fetched: bool,
)
    requires
        queue.len() > 0,
        unvisited_once(texts(queue), visited),
    ensures
        unvisited_once(
            texts(queue.drop_last()),
            if fetched {
                visited.insert(fold(queue.last()@), queue.last()@)
            } else {
                visited
            },
        ),
{
    let items = texts(queue);
    let rest = texts(queue.drop_last());
    assert(items[queue.len() - 1] == queue.last()@);
    assert forall|i: int| 0 <= i < rest.len() implies #[trigger] rest[i] == items[i] && fold(
        items[i],
    ) != fold(queue.last()@) by {
        assert(fold(items[i]) != fold(items[queue.len() - 1]));
    }
}

impl InnerCrawl {
    /// The links of this pass and the next are unvisited, and none occurs twice in this one.
    pub open spec fn is_fresh(self, visited: Map<Seq<char>, Seq<char>>) -> bool {
        &&& unvisited_once(texts(self.queue@), visited)
        &&& self.links@.dom().disjoint(visited.dom())
        &&& self.phase is Streaming ==> self.links@ == no_links()
    }
}

impl<P> Website<P> {
    /// No link that is still to be visited has been visited.
    pub open spec fn links_unvisited(self) -> bool {
        self.links@.dom().disjoint(self.links_visited@.dom())
    }

    /// Everything but the links still to be visited is as in `other`.
    pub open spec fn same_but_links(self, other: Self) -> bool {
        &&& self.configuration == other.configuration
        &&& self.domain == other.domain
        &&& self.links_visited == other.links_visited
        &&& self.robot_file_parser == other.robot_file_parser
        &&& self.sitemap_url == other.sitemap_url
        &&& self.sitemaps_pending == other.sitemaps_pending
        &&& self.sitemaps_known == other.sitemaps_known
        &&& self.domain_parsed == other.domain_parsed
    }

    /// What ending a round does: the links to be visited are those it found that have not been
    /// visited.
    pub open spec fn ends_round(self, round: Round, after: Self) -> bool {
        &&& after.links@ == round.new_links@.remove_keys(self.links_visited@.dom())
        &&& after.same_but_links(self)
    }

    /// What starting a crawl under a client does: the links that are still to be visited are
    /// taken out of the website and make the first pass.
    pub open spec fn starts_crawl(self, crawl: InnerCrawl, after: Self) -> bool {
        &&& crawl.phase is Streaming
        &&& lists(texts(crawl.queue@), self.links@)
        &&& crawl.links@ == no_links()
        &&& after.links@ == no_links()
        &&& after.same_but_links(self)
    }

    /// What a crawl goes by, if there is one: the domain is a URL, and there are selectors for
    /// its root.
    ///
    /// `get_page_selectors` makes the selectors for a root, with or without subdomains and other
    /// top level domains.
    pub fn crawl_concurrent<S, G: FnOnce(&String, bool, bool) -> Option<S>>(
        &self,
        get_page_selectors: G,
    ) -> (plan: Option<CrawlPlan<S>>)
        requires
            self.domain_parsed is Some ==> call_requires(
                get_page_selectors,
                (
                    &self.domain_parsed->0,
                    self.configuration.subdomains,
                    self.configuration.tld,
                ),
            ),
        ensures
            self.domain_parsed is None ==> plan is None,
            self.domain_parsed is Some ==> exists|selectors: Option<S>| #[trigger]
                call_ensures(
                    get_page_selectors,
                    (
                        &self.domain_parsed->0,
                        self.configuration.subdomains,
                        self.configuration.tld,
                    ),
                    selectors,
                ) && plan == (match selectors {
                    Some(selectors) => Some(
                        CrawlPlan { selectors, throttle: self.configuration.delay },
                    ),
                    None => None,
                }),
    {
        match &self.domain_parsed {
            Some(root) => match get_page_selectors(
                root,
                self.configuration.subdomains,
                self.configuration.tld,
            ) {
                Some(selectors) => Some(CrawlPlan { selectors, throttle: self.get_delay() }),
                None => None,
            },
            None => None,
        }
    }

    /// What a crawl under a client goes by and which way it takes, if there is one.
    pub fn crawl_concurrent_rpc<S, G: FnOnce(&String, bool, bool) -> Option<S>>(
        &self,
        get_page_selectors: G,
    ) -> (plan: Option<(CrawlPlan<S>, CrawlKind)>)
        requires
            self.domain_parsed is Some ==> call_requires(
                get_page_selectors,
                (
                    &self.domain_parsed->0,
                    self.configuration.subdomains,
                    self.configuration.tld,
                ),
            ),
        ensures
            self.domain_parsed is None ==> plan is None,
            self.domain_parsed is Some ==> exists|selectors: Option<S>| #[trigger]
                call_ensures(
                    get_page_selectors,
                    (
                        &self.domain_parsed->0,
                        self.configuration.subdomains,
                        self.configuration.tld,
                    ),
                    selectors,
                ) && plan == (match selectors {
                    Some(selectors) => Some(
                        (
                            CrawlPlan { selectors, throttle: self.configuration.delay },
                            if self.configuration.sitemap {
                                CrawlKind::Sitemap
                            } else {
                                CrawlKind::Inner
                            },
                        ),
                    ),
                    None => None,
                }),
    {
        let kind = if self.configuration.sitemap {
            CrawlKind::Sitemap
        } else {
            CrawlKind::Inner
        };
        match self.crawl_concurrent(get_page_selectors) {
            Some(plan) => Some((plan, kind)),
            None => None,
        }
    }

    /// The next round, with every link that is still to be visited; none if there is no link.
    pub fn begin_round(&self) -> (round: Option<Round>)
        ensures
            round is None <==> self.links@ == no_links(),
            round matches Some(round) ==> round.starts(self.links@),
    {
        if self.links.is_empty() {
            None
        } else {
            Some(Round { queue: self.links.to_vec(), new_links: LinkSet::new() })
        }
    }

    /// Ends a round: the links to be visited are those it found that have not been visited.
    pub fn end_round(&mut self, round: Round)
        ensures
            old(self).ends_round(round, *final(self)),
            final(self).links_unvisited(),
    {
        self.links = round.new_links.difference(&self.links_visited);
    }

    /// Starts a crawl under a client with every link that is still to be visited; they are taken
    /// out of the website.
    pub fn inner_crawl(&mut self) -> (crawl: InnerCrawl)
        ensures
            old(self).starts_crawl(crawl, *final(self)),
            old(self).links_unvisited() ==> crawl.is_fresh(final(self).links_visited@),
    {
        let queue = self.links.drain();
        InnerCrawl { phase: Phase::Streaming, queue, links: LinkSet::new() }
    }
}

impl Round {
    /// A round with the given links, before the first of them is taken.
    pub open spec fn starts(self, links: Map<Seq<char>, Seq<char>>) -> bool {
        &&& lists(texts(self.queue@), links)
        &&& self.new_links@ == no_links()
    }

    /// What taking in the links of a page does: a link that was found before keeps its spelling.
    pub open spec fn receives(self, shown: Map<Seq<char>, Seq<char>>, after: Self) -> bool {
        &&& after.queue == self.queue
        &&& after.new_links@ == shown.union_prefer_right(self.new_links@)
    }

    /// What taking the next link of the round does: it is fetched if it is allowed. Behind the
    /// last link nothing is left but to wait.
    pub open spec fn takes_link<P, F: Fn(&P, &str, &str) -> bool>(
        self,
        site: Website<P>,
        can_fetch: F,
        step: LinkStep,
        after: Self,
        site_after: Website<P>,
    ) -> bool {
        &&& after.new_links == self.new_links
        &&& if self.queue@.len() == 0 {
            &&& step is Join
            &&& after.queue@ == self.queue@
            &&& site_after == site
        } else {
            let link = self.queue@.last();
            &&& step == LinkStep::Fetch(link) || step == LinkStep::Skip(link)
            &&& after.queue@ == self.queue@.drop_last()
            &&& site.takes(can_fetch, link@, step is Fetch, site_after)
        }
    }

    /// Takes the next link of the round and decides whether it is fetched.
    pub fn next_link<P, F: Fn(&P, &str, &str) -> bool>(
        &mut self,
        site: &mut Website<P>,
        can_fetch: F,
    ) -> (step: LinkStep)
        requires
            old(self).queue.len() > 0 ==> old(site).can_ask_of(
                can_fetch,
                old(self).queue@.last()@,
            ),
        ensures
            old(self).takes_link(*old(site), can_fetch, step, *final(self), *final(site)),
    {
        match self.queue.pop() {
            Some(link) => {
                if site.visit(link.as_str(), can_fetch) {
                    LinkStep::Fetch(link)
                } else {
                    LinkStep::Skip(link)
                }
            },
            None => LinkStep::Join,
        }
    }

    /// Takes in the links of a page.
    pub fn received(&mut self, message: Message)
        ensures
            old(self).receives(message@, *final(self)),
    {
        self.new_links.extend(message);
    }
}

impl InnerCrawl {
    /// What taking the next link of the pass does: it is fetched if it is allowed. Behind the
    /// last link the fetched pages are waited for; a crawl that was called off is over.
    pub open spec fn takes_link<P, F: Fn(&P, &str, &str) -> bool>(
        self,
        site: Website<P>,
        active: bool,
        can_fetch: F,
        step: LinkStep,
        after: Self,
        site_after: Website<P>,
    ) -> bool {
        &&& after.links == self.links
        &&& if self.queue@.len() == 0 {
            &&& step is Join
            &&& after.phase is Joining
            &&& after.queue@ == self.queue@
            &&& site_after == site
        } else if !active {
            &&& step is Shutdown
            &&& after.phase is Finished
            &&& after.queue@.len() == 0
            &&& site_after == site
        } else {
            let link = self.queue@.last();
            &&& step == LinkStep::Fetch(link) || step == LinkStep::Skip(link)
            &&& after.phase is Streaming
            &&& after.queue@ == self.queue@.drop_last()
            &&& site.takes(can_fetch, link@, step is Fetch, site_after)
        }
    }

    /// What taking in a page that was waited for does: its unvisited links are kept for the next
    /// pass, where the fetch did not fail; a crawl that was called off is over.
    pub open spec fn joins(
        self,
        visited: Map<Seq<char>, Seq<char>>,
        active: bool,
        message: Option<Map<Seq<char>, Seq<char>>>,
        after: Self,
    ) -> bool {
        &&& after.queue == self.queue
        &&& if active {
            &&& after.phase is Joining
            &&& after.links@ == (match message {
                Some(message) => message.remove_keys(visited.dom()).union_prefer_right(self.links@),
                None => self.links@,
            })
        } else {
            &&& after.phase is Finished
            &&& after.links == self.links
        }
    }

    /// What ending a pass does: the crawl is over if no link was found or it was called off, else
    /// the links that were found make the next pass.
    pub open spec fn ends(self, active: bool, after: Self) -> bool {
        if self.links@ == no_links() || !active {
            &&& after.phase is Finished
            &&& after.links == self.links
            &&& after.queue == self.queue
        } else {
            &&& after.phase is Streaming
            &&& lists(texts(after.queue@), self.links@)
            &&& after.links@ == no_links()
        }
    }

    /// Takes the next link of the pass and decides whether it is fetched; `active` says whether
    /// the client still wants the crawl. A crawl that was called off drops its links and is over.
    pub fn next_link<P, F: Fn(&P, &str, &str) -> bool>(
        &mut self,
        site: &mut Website<P>,
        active: bool,
        can_fetch: F,
    ) -> (step: LinkStep)
        requires
            old(self).phase is Streaming,
            active && old(self).queue.len() > 0 ==> old(site).can_ask_of(
                can_fetch,
                old(self).queue@.last()@,
            ),
        ensures
            old(self).takes_link(*old(site), active, can_fetch, step, *final(self), *final(site)),
            old(self).is_fresh(old(site).links_visited@) ==> final(self).is_fresh(
                final(site).links_visited@,
            ),
    {
        match self.queue.pop() {
            Some(link) => {
                if !active {
                    self.queue = Vec::new();
                    self.phase = Phase::Finished;
                    return LinkStep::Shutdown;
                }
                let fetched = site.visit(link.as_str(), can_fetch);
                proof {
                    if old(self).is_fresh(old(site).links_visited@) {
                        rest_is_unvisited(old(self).queue@, old(site).links_visited@, fetched);
                    }
                }
                if fetched {
                    LinkStep::Fetch(link)
                } else {
                    LinkStep::Skip(link)
                }
            },
            None => {
                self.phase = Phase::Joining;
                LinkStep::Join
            },
        }
    }

    /// Takes in the links of a page that was waited for, none where the fetch failed; a crawl
    /// that was called off is over.
    pub fn joined<P>(&mut self, site: &Website<P>, active: bool, message: Option<Message>)
        requires
            old(self).phase is Joining,
        ensures
            old(self).joins(site.links_visited@, active, message_view(message), *final(self)),
            old(self).is_fresh(site.links_visited@) ==> final(self).is_fresh(site.links_visited@),
    {
        if !active {
            self.phase = Phase::Finished;
            return;
        }
        match message {
            Some(message) => {
                self.links.extend(message.difference(&site.links_visited));
            },
            None => {},
        }
    }

    /// Ends a pass once every page was waited for: the crawl is over if it was called off or no
    /// link was found, else the links that were found make the next pass.
    pub fn end_pass(&mut self, active: bool)
        requires
            old(self).phase is Joining,
        ensures
            old(self).ends(active, *final(self)),
            forall|visited: Map<Seq<char>, Seq<char>>|
                old(self).is_fresh(visited) ==> #[trigger] final(self).is_fresh(visited),
    {
        if self.links.is_empty() || !active {
            self.phase = Phase::Finished;
        } else {
            self.queue = self.links.drain();
            self.phase = Phase::Streaming;
        }
    }
}

} // verus!
