//! What holds of a crawl through the sitemaps from its start to its end: every sitemap that is
//! named is requested, once, and every page that is listed is visited, unless it is blacklisted or
//! `robots.txt` forbids it.

use crate::course::{
    called_off_crawls_end, crawl_decisions, crawls_are_histories,
    crawls_change_visited_links_only, crawls_keep_visited_links_apart, first_links_are_settled,
    is_called_off, is_course, is_forbidden, is_move, is_settled_in, is_wanted,
    listed_is_queued, same_settings, settled_stays, visited_links_are_kept, CrawlState, Move,
};
use crate::crawl::LinkStep;
use crate::laws::visited_links_are_not_fetched;
use crate::link_set::no_links;
use crate::sitemap_walk::{
    entity_views, sitemap_address, sitemap_entities, SitemapEntityView, SitemapStep, SitemapWalk,
};
use crate::text::{fold, option_text, texts};
use crate::website::Website;
use vstd::prelude::*;

verus! {

/// A crawl through the pages of a website, in its course.
pub struct PageCrawl<P> {
    pub active: Seq<bool>,
    pub states: Seq<CrawlState<P>>,
    pub moves: Seq<Move>,
}

impl<P> PageCrawl<P> {
    /// The crawl leads from one state of the website to the other: it starts from all links that
    /// are to be visited, and has ended.
    pub open spec fn leads<F: Fn(&P, &str, &str) -> bool>(
        self,
        can_fetch: F,
        before: Website<P>,
        after: Website<P>,
    ) -> bool {
        &&& is_course(can_fetch, self.active, self.states, self.moves)
        &&& before.starts_crawl(self.states[0].crawl, self.states[0].site)
        &&& self.states.last().crawl.phase is Finished
        &&& after == self.states.last().site
    }
}

/// A move of a crawl through the sitemaps.
pub enum SitemapMove<P> {
    /// The pages were crawled.
    Pages(PageCrawl<P>),
    /// The sitemap with the given address was requested; its text came, or the request failed.
    Read(Seq<char>, Option<Seq<char>>),
    /// The next entry was taken.
    Entry(SitemapStep),
    /// The sitemap was done with.
    End,
}

/// A crawl through the sitemaps: its website, the way through the sitemap that is being read, and
/// whether the pages are to be crawled before it goes on.
pub struct SitemapState<P> {
    pub site: Website<P>,
    pub walk: Option<SitemapWalk>,
    pub crawling: bool,
}

/// What a move of a crawl through the sitemaps does; `active` says whether the client still wants
/// the crawl. While the pages are crawled, their own course says so.
pub open spec fn is_sitemap_move<P, F: Fn(&P, &str, &str) -> bool>(
    can_fetch: F,
    active: bool,
    before: SitemapState<P>,
    by: SitemapMove<P>,
    after: SitemapState<P>,
) -> bool {
    match by {
        SitemapMove::Pages(crawl) => {
            &&& before.crawling
            &&& crawl.leads(can_fetch, before.site, after.site)
            &&& after.walk == before.walk
            &&& !after.crawling
        },
        SitemapMove::Read(url, text) => {
            &&& active
            &&& !before.crawling
            &&& before.walk is None
            &&& option_text(before.site.sitemap_url) == Some(url)
            &&& after.site == before.site
            &&& after.walk is Some
            &&& after.walk->0.answers(text)
            &&& !after.crawling
        },
        SitemapMove::Entry(step) => {
            &&& !before.crawling
            &&& before.walk is Some
            &&& after.walk is Some
            &&& step !is Done
            &&& before.walk->0.moves(
                before.site,
                active,
                can_fetch,
                step,
                after.walk->0,
                after.site,
            )
            &&& after.crawling == (step is Crawl)
        },
        SitemapMove::End => {
            &&& !before.crawling
            &&& before.walk is Some
            &&& before.walk->0.moves(
                before.site,
                active,
                can_fetch,
                SitemapStep::Done,
                before.walk->0,
                before.site,
            )
            &&& before.site.ends_sitemap(after.site)
            &&& after.walk is None
            &&& !after.crawling
        },
    }
}

/// The course of a crawl through the sitemaps of `start`: first the pages are crawled, then the
/// sitemaps are read. `active` says for each move whether the client still wants the crawl.
pub open spec fn is_sitemap_course<P, F: Fn(&P, &str, &str) -> bool>(
    can_fetch: F,
    start: Website<P>,
    active: Seq<bool>,
    states: Seq<SitemapState<P>>,
    moves: Seq<SitemapMove<P>>,
) -> bool {
    &&& states.len() == moves.len() + 1
    &&& active.len() == moves.len()
    &&& start.starts_sitemaps(states[0].site)
    &&& states[0].walk is None
    &&& states[0].crawling
    &&& forall|i: int|
        0 <= i < moves.len() ==> is_sitemap_move(
            can_fetch,
            active[i],
            states[i],
            #[trigger] moves[i],
            states[i + 1],
        )
}

/// The client never calls the crawl through the sitemaps off.
pub open spec fn is_never_called_off<P>(active: Seq<bool>, moves: Seq<SitemapMove<P>>) -> bool {
    &&& is_wanted(active)
    &&& forall|i: int|
        0 <= i < moves.len() ==> (match #[trigger] moves[i] {
            SitemapMove::Pages(crawl) => is_wanted(crawl.active),
            _ => true,
        })
}

/// The client has called the crawl through the sitemaps off by the move `i`.
pub open spec fn is_called_off_by<P>(
    active: Seq<bool>,
    moves: Seq<SitemapMove<P>>,
    i: int,
) -> bool {
    &&& is_called_off(active, i)
    &&& forall|j: int|
        i <= j < moves.len() ==> (match #[trigger] moves[j] {
            SitemapMove::Pages(crawl) => is_called_off(crawl.active, 0),
            _ => true,
        })
}

/// The crawl through the sitemaps has ended: no sitemap is left to be requested.
pub open spec fn has_ended<P>(state: SitemapState<P>) -> bool {
    &&& !state.crawling
    &&& state.walk is None
    &&& state.site.sitemap_url is None
}

/// The sitemap `url` was requested in one of the first `n` moves.
pub open spec fn is_requested<P>(moves: Seq<SitemapMove<P>>, n: int, url: Seq<char>) -> bool {
    exists|i: int|
        0 <= i < n && (match #[trigger] moves[i] {
            SitemapMove::Read(address, _) => address == url,
            _ => false,
        })
}

/// The sitemap `url` is still to be requested.
pub open spec fn is_awaited<P>(state: SitemapState<P>, url: Seq<char>) -> bool {
    ||| texts(state.site.sitemaps_pending@).contains(url)
    ||| state.walk is None && option_text(state.site.sitemap_url) == Some(url)
}

/// A crawl through the pages leaves no link of the website; it takes no visited link away, and
/// leaves the settings and the sitemaps as they are.
proof fn page_crawls_take_the_links<P, F: Fn(&P, &str, &str) -> bool>(
    can_fetch: F,
    before: Website<P>,
    crawl: PageCrawl<P>,
    after: Website<P>,
)
    requires
        crawl.leads(can_fetch, before, after),
    ensures
        same_settings(before, after),
        after.sitemap_url == before.sitemap_url,
        after.sitemaps_pending == before.sitemaps_pending,
        after.sitemaps_known == before.sitemaps_known,
        after.links@ == no_links(),
        before.links_visited@.dom().subset_of(after.links_visited@.dom()),
{
    let last = crawl.states.len() - 1;
    crawls_change_visited_links_only(can_fetch, crawl.active, crawl.states, crawl.moves, last);
    visited_links_are_kept(can_fetch, crawl.active, crawl.states, crawl.moves, 0, last);
}

/// A crawl through the pages that is not called off settles every link that it starts from.
proof fn page_crawls_settle_links<P, F: Fn(&P, &str, &str) -> bool>(
    can_fetch: F,
    before: Website<P>,
    crawl: PageCrawl<P>,
    after: Website<P>,
    link: Seq<char>,
)
    requires
        crawl.leads(can_fetch, before, after),
        is_wanted(crawl.active),
        before.links@.contains_key(fold(link)),
        before.links@[fold(link)] == link,
    ensures
        is_settled_in(after, can_fetch, set![link], fold(link)),
{
    let queue = crawl.states[0].crawl.queue@;
    listed_is_queued(queue, before.links@, fold(link));
    let n = choose|n: int| 0 <= n < queue.len() && fold((#[trigger] queue[n])@) == fold(link);
    assert(texts(queue)[n] == queue[n]@);
    first_links_are_settled(can_fetch, crawl.active, crawl.states, crawl.moves, n);
}

/// In the course of a crawl through the sitemaps the settings stay the same, and neither a visited
/// link nor a known sitemap is lost.
pub proof fn sitemap_crawls_lose_nothing<P, F: Fn(&P, &str, &str) -> bool>(
    can_fetch: F,
    start: Website<P>,
    active: Seq<bool>,
    states: Seq<SitemapState<P>>,
    moves: Seq<SitemapMove<P>>,
    i: int,
    j: int,
)
    requires
        is_sitemap_course(can_fetch, start, active, states, moves),
        0 <= i <= j < states.len(),
    ensures
        same_settings(states[i].site, states[j].site),
        states[i].site.links_visited@.dom().subset_of(states[j].site.links_visited@.dom()),
        forall|url: Seq<char>| #[trigger]
            texts(states[i].site.sitemaps_known@).contains(url) ==> texts(
                states[j].site.sitemaps_known@,
            ).contains(url),
    decreases j - i,
{
    if i < j {
        sitemap_crawls_lose_nothing(can_fetch, start, active, states, moves, i, j - 1);
        let before = states[j - 1];
        let after = states[j];
        assert(is_sitemap_move(can_fetch, active[j - 1], before, moves[j - 1], after));
        match moves[j - 1] {
            SitemapMove::Pages(crawl) => {
                page_crawls_take_the_links(can_fetch, before.site, crawl, after.site);
            },
            _ => {
                let known = texts(before.site.sitemaps_known@);
                let later = texts(after.site.sitemaps_known@);
                assert forall|url: Seq<char>| #[trigger] known.contains(url) implies later.contains(
                    url,
                ) by {
                    let n = choose|n: int| 0 <= n < known.len() && known[n] == url;
                    assert(later[n] == url);
                }
            },
        }
    }
}

/// Whenever the pages are not to be crawled next, no link of the website is left to be visited; so
/// it is when a crawl through the sitemaps has ended.
pub proof fn sitemap_crawls_leave_no_links<P, F: Fn(&P, &str, &str) -> bool>(
    can_fetch: F,
    start: Website<P>,
    active: Seq<bool>,
    states: Seq<SitemapState<P>>,
    moves: Seq<SitemapMove<P>>,
    m: int,
)
    requires
        is_sitemap_course(can_fetch, start, active, states, moves),
        0 <= m < states.len(),
        !states[m].crawling,
    ensures
        states[m].site.links@ == no_links(),
    decreases m,
{
    if m > 0 {
        assert(is_sitemap_move(can_fetch, active[m - 1], states[m - 1], moves[m - 1], states[m]));
        if let SitemapMove::Pages(crawl) = moves[m - 1] {
            page_crawls_take_the_links(can_fetch, states[m - 1].site, crawl, states[m].site);
        } else {
            sitemap_crawls_leave_no_links(can_fetch, start, active, states, moves, m - 1);
        }
    }
}

/// The move, from the `m`th on, that takes the entry `n` of a sitemap on whose way a crawl that
/// ends is.
proof fn entry_is_taken<P, F: Fn(&P, &str, &str) -> bool>(
    can_fetch: F,
    start: Website<P>,
    active: Seq<bool>,
    states: Seq<SitemapState<P>>,
    moves: Seq<SitemapMove<P>>,
    m: int,
    n: int,
) -> (j: int)
    requires
        is_sitemap_course(can_fetch, start, active, states, moves),
        is_never_called_off(active, moves),
        states.last().walk is None,
        0 <= m < states.len(),
        states[m].walk is Some,
        states[m].walk->0.position <= n < states[m].walk->0.entities@.len(),
    ensures
        m <= j < moves.len(),
        moves[j] is Entry,
        states[j].walk->0.entities == states[m].walk->0.entities,
        states[j].walk->0.position == n,
    decreases states.len() - m,
{
    assert(is_sitemap_move(can_fetch, active[m], states[m], moves[m], states[m + 1]));
    if moves[m] is Entry && states[m].walk->0.position == n {
        m
    } else {
        entry_is_taken(can_fetch, start, active, states, moves, m + 1, n)
    }
}

/// No entry of a sitemap that was read is left out: at the end of a crawl that is not called off
/// each has been taken.
pub proof fn sitemap_entries_are_taken<P, F: Fn(&P, &str, &str) -> bool>(
    can_fetch: F,
    start: Website<P>,
    active: Seq<bool>,
    states: Seq<SitemapState<P>>,
    moves: Seq<SitemapMove<P>>,
    i: int,
    text: Seq<char>,
    n: int,
) -> (j: int)
    requires
        is_sitemap_course(can_fetch, start, active, states, moves),
        is_never_called_off(active, moves),
        has_ended(states.last()),
        0 <= i < moves.len(),
        moves[i] is Read,
        moves[i]->Read_1 == Some(text),
        0 <= n < sitemap_entities(text).len(),
    ensures
        i < j < moves.len(),
        moves[j] is Entry,
        states[j].walk is Some,
        states[j].walk->0.position == n < states[j].walk->0.entities@.len(),
        states[j].walk->0.entities@[n]@ == sitemap_entities(text)[n],
{
    assert(is_sitemap_move(can_fetch, active[i], states[i], moves[i], states[i + 1]));
    let entities = states[i + 1].walk->0.entities@;
    assert(entity_views(entities)[n] == entities[n]@);
    let j = entry_is_taken(can_fetch, start, active, states, moves, i + 1, n);
    assert(is_sitemap_move(can_fetch, active[j], states[j], moves[j], states[j + 1]));
    j
}

/// A sitemap that a crawl knows was requested or is still to be.
proof fn known_sitemaps_are_not_forgotten<P, F: Fn(&P, &str, &str) -> bool>(
    can_fetch: F,
    start: Website<P>,
    active: Seq<bool>,
    states: Seq<SitemapState<P>>,
    moves: Seq<SitemapMove<P>>,
    m: int,
    url: Seq<char>,
)
    requires
        is_sitemap_course(can_fetch, start, active, states, moves),
        0 <= m < states.len(),
        texts(states[m].site.sitemaps_known@).contains(url),
    ensures
        is_requested(moves, m, url) || is_awaited(states[m], url),
    decreases m,
{
    if m > 0 {
        let before = states[m - 1];
        let after = states[m];
        let pending = texts(before.site.sitemaps_pending@);
        let later = texts(after.site.sitemaps_pending@);
        assert(is_sitemap_move(can_fetch, active[m - 1], before, moves[m - 1], after));
        if let SitemapMove::Pages(crawl) = moves[m - 1] {
            page_crawls_take_the_links(can_fetch, before.site, crawl, after.site);
        }
        if texts(before.site.sitemaps_known@).contains(url) {
            known_sitemaps_are_not_forgotten(can_fetch, start, active, states, moves, m - 1, url);
            if is_requested(moves, m - 1, url) {
                assert(is_requested(moves, m, url));
            } else if pending.contains(url) {
                let n = choose|n: int| 0 <= n < pending.len() && pending[n] == url;
                match moves[m - 1] {
                    SitemapMove::End => {
                        if n > 0 {
                            assert(later[n - 1] == url);
                        }
                    },
                    _ => {
                        assert(later[n] == url);
                    },
                }
            } else {
                assert(moves[m - 1] is Pages || moves[m - 1] is Read);
            }
        } else {
            assert(later[later.len() - 1] == url);
        }
    } else {
        assert(texts(states[0].site.sitemaps_known@)[0] == url);
    }
}

/// Without a next sitemap none is pending.
proof fn none_is_pending_behind_the_last<P, F: Fn(&P, &str, &str) -> bool>(
    can_fetch: F,
    start: Website<P>,
    active: Seq<bool>,
    states: Seq<SitemapState<P>>,
    moves: Seq<SitemapMove<P>>,
    m: int,
)
    requires
        is_sitemap_course(can_fetch, start, active, states, moves),
        0 <= m < states.len(),
        states[m].walk is None,
        states[m].site.sitemap_url is None,
    ensures
        states[m].site.sitemaps_pending@.len() == 0,
    decreases m,
{
    if m > 0 {
        assert(is_sitemap_move(can_fetch, active[m - 1], states[m - 1], moves[m - 1], states[m]));
        if let SitemapMove::Pages(crawl) = moves[m - 1] {
            page_crawls_take_the_links(can_fetch, states[m - 1].site, crawl, states[m].site);
            none_is_pending_behind_the_last(can_fetch, start, active, states, moves, m - 1);
        }
    }
}

/// The whole of a sitemap is read: at the end of a crawl that is not called off every further
/// sitemap that any of the texts read names has been requested.
pub proof fn named_sitemaps_are_requested<P, F: Fn(&P, &str, &str) -> bool>(
    can_fetch: F,
    start: Website<P>,
    active: Seq<bool>,
    states: Seq<SitemapState<P>>,
    moves: Seq<SitemapMove<P>>,
    i: int,
    text: Seq<char>,
    n: int,
    url: Seq<char>,
)
    requires
        is_sitemap_course(can_fetch, start, active, states, moves),
        is_never_called_off(active, moves),
        has_ended(states.last()),
        0 <= i < moves.len(),
        moves[i] is Read,
        moves[i]->Read_1 == Some(text),
        0 <= n < sitemap_entities(text).len(),
        sitemap_entities(text)[n] == SitemapEntityView::SiteMap(Some(url)),
    ensures
        is_requested(moves, moves.len() as int, url),
{
    let last = states.len() - 1;
    let j = sitemap_entries_are_taken(can_fetch, start, active, states, moves, i, text, n);
    assert(is_sitemap_move(can_fetch, active[j], states[j], moves[j], states[j + 1]));
    let known = texts(states[j + 1].site.sitemaps_known@);
    if !texts(states[j].site.sitemaps_known@).contains(url) {
        assert(known[known.len() - 1] == url);
    }
    assert(known.contains(url));
    sitemap_crawls_lose_nothing(can_fetch, start, active, states, moves, j + 1, last);
    known_sitemaps_are_not_forgotten(can_fetch, start, active, states, moves, last, url);
    none_is_pending_behind_the_last(can_fetch, start, active, states, moves, last);
}

/// At the end of a crawl through the sitemaps that is not called off every page that any of the
/// texts read lists has been visited, unless it is blacklisted or `robots.txt` forbids it.
pub proof fn listed_pages_are_settled<P, F: Fn(&P, &str, &str) -> bool>(
    can_fetch: F,
    start: Website<P>,
    active: Seq<bool>,
    states: Seq<SitemapState<P>>,
    moves: Seq<SitemapMove<P>>,
    i: int,
    text: Seq<char>,
    n: int,
    link: Seq<char>,
)
    requires
        is_sitemap_course(can_fetch, start, active, states, moves),
        is_never_called_off(active, moves),
        has_ended(states.last()),
        0 <= i < moves.len(),
        moves[i] is Read,
        moves[i]->Read_1 == Some(text),
        0 <= n < sitemap_entities(text).len(),
        sitemap_entities(text)[n] == SitemapEntityView::Url(Some(link)),
    ensures
        states.last().site.is_visited(link) || is_forbidden(states.last().site, can_fetch, link),
{
    let last = states.len() - 1;
    let links = set![link];
    let k = fold(link);
    let j = sitemap_entries_are_taken(can_fetch, start, active, states, moves, i, text, n);
    let site = states[j].site;
    assert(is_sitemap_move(can_fetch, active[j], states[j], moves[j], states[j + 1]));
    if states[j + 1].crawling {
        assert(is_sitemap_move(
            can_fetch,
            active[j + 1],
            states[j + 1],
            moves[j + 1],
            states[j + 2],
        ));
        sitemap_crawls_leave_no_links(can_fetch, start, active, states, moves, j);
        page_crawls_settle_links(
            can_fetch,
            states[j + 1].site,
            moves[j + 1]->Pages_0,
            states[j + 2].site,
            link,
        );
        sitemap_crawls_lose_nothing(can_fetch, start, active, states, moves, j + 2, last);
        settled_stays(states[j + 2].site, states[last].site, can_fetch, links, k);
    } else {
        if !site.is_visited(link) {
            let spelled = choose|spelled: &str| #[trigger]
                spelled@ == link && site.allowed_verdict(can_fetch, spelled, false);
            if !site.is_blacklisted(link) {
                assert(spelled@ == link && site.robots_verdict(can_fetch, spelled, false));
            }
            assert(fold(link) == k && is_forbidden(site, can_fetch, link));
        }
        assert(is_settled_in(site, can_fetch, links, k));
        sitemap_crawls_lose_nothing(can_fetch, start, active, states, moves, j, last);
        settled_stays(site, states[last].site, can_fetch, links, k);
    }
}

/// The first sitemap that a crawl requests is that of the domain, and none is requested before the
/// pages have been crawled.
pub proof fn the_sitemap_of_the_domain_is_first<P, F: Fn(&P, &str, &str) -> bool>(
    can_fetch: F,
    start: Website<P>,
    active: Seq<bool>,
    states: Seq<SitemapState<P>>,
    moves: Seq<SitemapMove<P>>,
)
    requires
        is_sitemap_course(can_fetch, start, active, states, moves),
        moves.len() >= 2,
    ensures
        moves[0] is Pages,
        moves[1] is Read,
        moves[1]->Read_0 == sitemap_address(
            start.domain@,
            option_text(start.configuration.sitemap_path),
        ),
{
    assert(is_sitemap_move(can_fetch, active[0], states[0], moves[0], states[1]));
    assert(is_sitemap_move(can_fetch, active[1], states[1], moves[1], states[2]));
    page_crawls_take_the_links(can_fetch, states[0].site, moves[0]->Pages_0, states[1].site);
}

/// The sitemaps that are still to be requested are known, each occurs once, and none of them has
/// been requested.
pub open spec fn awaits_each_once<P>(
    moves: Seq<SitemapMove<P>>,
    n: int,
    state: SitemapState<P>,
) -> bool {
    let pending = texts(state.site.sitemaps_pending@);
    let known = texts(state.site.sitemaps_known@);
    &&& forall|url: Seq<char>| #[trigger] is_awaited(state, url) ==> known.contains(url)
    &&& forall|url: Seq<char>| #[trigger]
        is_requested(moves, n, url) ==> known.contains(url) && !is_awaited(state, url)
    &&& pending.no_duplicates()
    &&& state.walk is None && state.site.sitemap_url is Some ==> !pending.contains(
        state.site.sitemap_url->0@,
    )
}

/// In the course of a crawl no sitemap is awaited twice, and none that has been requested.
proof fn sitemaps_are_awaited_once<P, F: Fn(&P, &str, &str) -> bool>(
    can_fetch: F,
    start: Website<P>,
    active: Seq<bool>,
    states: Seq<SitemapState<P>>,
    moves: Seq<SitemapMove<P>>,
    m: int,
)
    requires
        is_sitemap_course(can_fetch, start, active, states, moves),
        0 <= m < states.len(),
    ensures
        awaits_each_once(moves, m, states[m]),
    decreases m,
{
    if m == 0 {
        assert(texts(states[0].site.sitemaps_known@)[0] == states[0].site.sitemap_url->0@);
    } else {
        sitemaps_are_awaited_once(can_fetch, start, active, states, moves, m - 1);
        let before = states[m - 1];
        let after = states[m];
        let pending = texts(before.site.sitemaps_pending@);
        let later = texts(after.site.sitemaps_pending@);
        let known = texts(before.site.sitemaps_known@);
        let now_known = texts(after.site.sitemaps_known@);
        assert(is_sitemap_move(can_fetch, active[m - 1], before, moves[m - 1], after));
        assert forall|url: Seq<char>| #[trigger] is_requested(moves, m, url) implies is_requested(
            moves,
            m - 1,
            url,
        ) || moves[m - 1] is Read && moves[m - 1]->Read_0 == url by {
            let i = choose|i: int|
                0 <= i < m && (match #[trigger] moves[i] {
                    SitemapMove::Read(address, _) => address == url,
                    _ => false,
                });
            if i < m - 1 {
                assert(is_requested(moves, m - 1, url));
            }
        }
        match moves[m - 1] {
            SitemapMove::Pages(crawl) => {
                page_crawls_take_the_links(can_fetch, before.site, crawl, after.site);
                assert forall|url: Seq<char>| #[trigger] is_awaited(after, url) implies is_awaited(
                    before,
                    url,
                ) by {}
            },
            SitemapMove::Read(address, _) => {
                assert(is_awaited(before, address));
                assert forall|url: Seq<char>| #[trigger] is_awaited(after, url) implies is_awaited(
                    before,
                    url,
                ) && url != address by {}
            },
            SitemapMove::Entry(_) => {
                assert forall|url: Seq<char>| known.contains(url) implies #[trigger]
                    now_known.contains(url) by {
                    let n = choose|n: int| 0 <= n < known.len() && known[n] == url;
                    assert(now_known[n] == url);
                }
                assert forall|url: Seq<char>| #[trigger] is_awaited(after, url) implies (is_awaited(
                    before,
                    url,
                ) || !known.contains(url)) && now_known.contains(url) by {
                    let n = choose|n: int| 0 <= n < later.len() && later[n] == url;
                    if n < pending.len() {
                        assert(pending[n] == url);
                        assert(is_awaited(before, url));
                    } else {
                        assert(now_known[known.len() as int] == url);
                    }
                }
                assert forall|a: int, b: int| 0 <= a < b < later.len() implies later[a]
                    != later[b] by {
                    assert(pending[a] == later[a]);
                    assert(is_awaited(before, later[a]));
                    if b < pending.len() {
                        assert(pending[b] == later[b]);
                    }
                }
            },
            SitemapMove::End => {
                if pending.len() > 0 {
                    assert(pending[0] == after.site.sitemap_url->0@);
                    assert(later =~= pending.drop_first());
                }
                assert forall|url: Seq<char>| #[trigger] is_awaited(after, url) implies is_awaited(
                    before,
                    url,
                ) by {
                    if later.contains(url) {
                        let n = choose|n: int| 0 <= n < later.len() && later[n] == url;
                        assert(pending[if pending.len() > 0 {
                            n + 1
                        } else {
                            n
                        }] == url);
                    }
                }
            },
        }
    }
}

/// A crawl requests no sitemap twice, also where sitemaps name themselves or each other.
pub proof fn sitemaps_are_requested_once<P, F: Fn(&P, &str, &str) -> bool>(
    can_fetch: F,
    start: Website<P>,
    active: Seq<bool>,
    states: Seq<SitemapState<P>>,
    moves: Seq<SitemapMove<P>>,
    i: int,
    j: int,
)
    requires
        is_sitemap_course(can_fetch, start, active, states, moves),
        0 <= i < j < moves.len(),
        moves[i] is Read,
        moves[j] is Read,
    ensures
        moves[i]->Read_0 != moves[j]->Read_0,
{
    sitemaps_are_awaited_once(can_fetch, start, active, states, moves, j);
    assert(is_sitemap_move(can_fetch, active[j], states[j], moves[j], states[j + 1]));
    assert(is_requested(moves, j, moves[i]->Read_0));
    assert(is_awaited(states[j], moves[j]->Read_0));
}

/// In a crawl through the sitemaps whose first links are unvisited, the links that are still to be
/// visited have never been visited, and no visited link is lost.
pub proof fn sitemap_crawls_keep_visited_links_apart<P, F: Fn(&P, &str, &str) -> bool>(
    can_fetch: F,
    start: Website<P>,
    active: Seq<bool>,
    states: Seq<SitemapState<P>>,
    moves: Seq<SitemapMove<P>>,
    i: int,
)
    requires
        start.links_unvisited(),
        is_sitemap_course(can_fetch, start, active, states, moves),
        0 <= i < states.len(),
    ensures
        states[i].site.links_unvisited(),
        start.links_visited@.dom().subset_of(states[i].site.links_visited@.dom()),
    decreases i,
{
    sitemap_crawls_lose_nothing(can_fetch, start, active, states, moves, 0, i);
    if i > 0 {
        let before = states[i - 1];
        sitemap_crawls_keep_visited_links_apart(can_fetch, start, active, states, moves, i - 1);
        assert(is_sitemap_move(can_fetch, active[i - 1], before, moves[i - 1], states[i]));
        if let SitemapMove::Pages(crawl) = moves[i - 1] {
            crawls_keep_visited_links_apart(
                can_fetch,
                crawl.active,
                before.site,
                crawl.states,
                crawl.moves,
                crawl.states.len() - 1,
            );
        }
    }
}

/// A crawl through the sitemaps fetches no link twice, whatever the case of its letters, though it
/// crawls the pages many times.
pub proof fn sitemap_crawls_fetch_links_once<P, F: Fn(&P, &str, &str) -> bool>(
    can_fetch: F,
    start: Website<P>,
    active: Seq<bool>,
    states: Seq<SitemapState<P>>,
    moves: Seq<SitemapMove<P>>,
    i: int,
    j: int,
    earlier: PageCrawl<P>,
    later: PageCrawl<P>,
    a: int,
    b: int,
    first: String,
    second: String,
)
    requires
        is_sitemap_course(can_fetch, start, active, states, moves),
        0 <= i < j < moves.len(),
        moves[i] == SitemapMove::Pages(earlier),
        moves[j] == SitemapMove::Pages(later),
        0 <= a < earlier.moves.len(),
        0 <= b < later.moves.len(),
        earlier.moves[a] == Move::Link(LinkStep::Fetch(first)),
        later.moves[b] == Move::Link(LinkStep::Fetch(second)),
    ensures
        fold(first@) != fold(second@),
{
    assert(is_sitemap_move(can_fetch, active[i], states[i], moves[i], states[i + 1]));
    assert(is_sitemap_move(can_fetch, active[j], states[j], moves[j], states[j + 1]));
    assert(is_move(
        can_fetch,
        earlier.active[a],
        earlier.states[a],
        earlier.moves[a],
        earlier.states[a + 1],
    ));
    visited_links_are_kept(
        can_fetch,
        earlier.active,
        earlier.states,
        earlier.moves,
        a + 1,
        earlier.states.len() - 1,
    );
    sitemap_crawls_lose_nothing(can_fetch, start, active, states, moves, i + 1, j);
    assert(earlier.states[a + 1].site.links_visited@.dom().contains(fold(first@)));
    assert(states[j].site.links_visited@.contains_key(fold(first@)));
    if fold(first@) == fold(second@) {
        let decisions = crawl_decisions(later.states, later.moves);
        crawls_are_histories(can_fetch, later.active, later.states, later.moves);
        visited_links_are_not_fetched(decisions, 0, b);
    }
}

/// Once a crawl through the sitemaps is called off, no page is fetched and no sitemap requested any
/// more, no link is visited, and at most two more moves follow.
pub proof fn called_off_sitemap_crawls_end<P, F: Fn(&P, &str, &str) -> bool>(
    can_fetch: F,
    start: Website<P>,
    active: Seq<bool>,
    states: Seq<SitemapState<P>>,
    moves: Seq<SitemapMove<P>>,
    i: int,
)
    requires
        is_sitemap_course(can_fetch, start, active, states, moves),
        0 <= i < states.len(),
        is_called_off_by(active, moves, i),
    ensures
        moves.len() <= i + 2,
        forall|j: int|
            i <= j < states.len() ==> (#[trigger] states[j]).site.links_visited
                == states[i].site.links_visited,
        forall|j: int|
            i <= j < moves.len() ==> (match #[trigger] moves[j] {
                SitemapMove::Pages(crawl) => forall|n: int|
                    0 <= n < crawl.moves.len() ==> !((#[trigger] crawl.moves[n]) matches Move::Link(
                        LinkStep::Fetch(_),
                    )),
                SitemapMove::Read(..) => false,
                _ => true,
            }),
{
    assert forall|j: int| i <= j < moves.len() implies (match #[trigger] moves[j] {
        SitemapMove::Pages(crawl) => forall|n: int|
            0 <= n < crawl.moves.len() ==> !((#[trigger] crawl.moves[n]) matches Move::Link(
                LinkStep::Fetch(_),
            )),
        SitemapMove::Read(..) => false,
        _ => true,
    }) && states[j + 1].site.links_visited == states[j].site.links_visited by {
        assert(is_sitemap_move(can_fetch, active[j], states[j], moves[j], states[j + 1]));
        if let SitemapMove::Pages(crawl) = moves[j] {
            called_off_crawls_end(can_fetch, crawl.active, crawl.states, crawl.moves, 0);
            assert(crawl.states[crawl.states.len() - 1].site == crawl.states[0].site);
        }
    }
    if i < moves.len() {
        assert(is_sitemap_move(can_fetch, active[i], states[i], moves[i], states[i + 1]));
    }
    if i + 1 < moves.len() {
        assert(is_sitemap_move(
            can_fetch,
            active[i + 1],
            states[i + 1],
            moves[i + 1],
            states[i + 2],
        ));
    }
    if i + 2 < moves.len() {
        assert(is_sitemap_move(
            can_fetch,
            active[i + 2],
            states[i + 2],
            moves[i + 2],
            states[i + 3],
        ));
    }
}

/// A page that the next entry lists and that may be visited is crawled: the pages are crawled from
/// it, and it is a link to be visited then.
pub proof fn allowed_sitemap_pages_are_crawled<P, F: Fn(&P, &str, &str) -> bool>(
    walk: SitemapWalk,
    site: Website<P>,
    can_fetch: F,
    step: SitemapStep,
    walk_after: SitemapWalk,
    site_after: Website<P>,
    link: Seq<char>,
)
    requires
        walk.moves(site, true, can_fetch, step, walk_after, site_after),
        walk.position < walk.entities@.len(),
        walk.entities@[walk.position as int]@ == SitemapEntityView::Url(Some(link)),
        forall|spelled: &str, verdict: bool|
            spelled@ == link && #[trigger] site.allowed_verdict(can_fetch, spelled, verdict)
                ==> verdict,
    ensures
        step is Crawl,
        site_after.links@.contains_key(fold(link)),
{
    let spelled = choose|spelled: &str| #[trigger]
        spelled@ == link && site.allowed_verdict(can_fetch, spelled, step is Crawl);
    assert(site.allowed_verdict(can_fetch, spelled, step is Crawl));
}

/// Taking the entry, and crawling the pages where it calls for that, leads from one state of the
/// website to the other, where the crawl is not called off.
pub open spec fn entry_leads<P, F: Fn(&P, &str, &str) -> bool>(
    can_fetch: F,
    site: Website<P>,
    entity: SitemapEntityView,
    after: Website<P>,
) -> bool {
    exists|step: SitemapStep, taken: Website<P>|
        {
            &&& #[trigger] site.takes_entry(can_fetch, entity, step, taken)
            &&& if step is Crawl {
                exists|crawl: PageCrawl<P>| #[trigger]
                    crawl.leads(can_fetch, taken, after) && is_wanted(crawl.active)
            } else {
                after == taken
            }
        }
}

/// Taking the entries in their order leads from one state of the website to the other.
pub open spec fn entries_lead<P, F: Fn(&P, &str, &str) -> bool>(
    can_fetch: F,
    site: Website<P>,
    entities: Seq<SitemapEntityView>,
    after: Website<P>,
) -> bool
    decreases entities.len(),
{
    if entities.len() == 0 {
        after == site
    } else {
        exists|between: Website<P>|
            {
                &&& entries_lead(can_fetch, site, entities.drop_last(), between)
                &&& #[trigger] entry_leads(can_fetch, between, entities.last(), after)
            }
    }
}

/// The entry is well formed and has an address.
pub open spec fn has_address(entity: SitemapEntityView) -> bool {
    match entity {
        SitemapEntityView::Url(address) => address is Some,
        SitemapEntityView::SiteMap(address) => address is Some,
        SitemapEntityView::Malformed(_) => false,
    }
}

/// The entries that are well formed and have an address.
pub open spec fn with_address(entities: Seq<SitemapEntityView>) -> Seq<SitemapEntityView> {
    entities.filter(|entity: SitemapEntityView| has_address(entity))
}

/// The way through a sitemap leads where its entries do, one after the other.
proof fn walks_follow_their_entries<P, F: Fn(&P, &str, &str) -> bool>(
    can_fetch: F,
    start: Website<P>,
    active: Seq<bool>,
    states: Seq<SitemapState<P>>,
    moves: Seq<SitemapMove<P>>,
    i: int,
    m: int,
)
    requires
        is_sitemap_course(can_fetch, start, active, states, moves),
        is_never_called_off(active, moves),
        0 <= i < m < states.len(),
        moves[i] is Read,
        forall|j: int| i < j < m ==> (#[trigger] moves[j]) !is End,
    ensures
        states[m].walk is Some,
        ({
            let entities = entity_views(states[m].walk->0.entities@);
            let position = states[m].walk->0.position as int;
            &&& position <= entities.len()
            &&& if states[m].crawling {
                &&& position > 0
                &&& exists|between: Website<P>|
                    {
                        &&& #[trigger] entries_lead(
                            can_fetch,
                            states[i].site,
                            entities.take(position - 1),
                            between,
                        )
                        &&& between.takes_entry(
                            can_fetch,
                            entities[position - 1],
                            SitemapStep::Crawl,
                            states[m].site,
                        )
                    }
            } else {
                entries_lead(can_fetch, states[i].site, entities.take(position), states[m].site)
            }
        }),
    decreases m,
{
    assert(is_sitemap_move(can_fetch, active[m - 1], states[m - 1], moves[m - 1], states[m]));
    let site = states[i].site;
    let entities = entity_views(states[m].walk->0.entities@);
    let position = states[m].walk->0.position as int;
    if m == i + 1 {
        assert(entities.take(0).len() == 0);
    } else {
        walks_follow_their_entries(can_fetch, start, active, states, moves, i, m - 1);
        let before = states[m - 1];
        let taken = entities.take(position);
        match moves[m - 1] {
            SitemapMove::Entry(step) => {
                assert(entities[position - 1] == before.walk->0.entities@[position - 1]@);
                assert(taken.drop_last() =~= entities.take(position - 1));
                assert(entries_lead(can_fetch, site, entities.take(position - 1), before.site));
                assert(before.site.takes_entry(
                    can_fetch,
                    entities[position - 1],
                    step,
                    states[m].site,
                ));
                if step !is Crawl {
                    assert(entries_lead(can_fetch, site, taken.drop_last(), before.site));
                    assert(entry_leads(can_fetch, before.site, taken.last(), states[m].site));
                    assert(entries_lead(can_fetch, site, taken, states[m].site));
                }
            },
            SitemapMove::Pages(crawl) => {
                let between = choose|between: Website<P>|
                    {
                        &&& #[trigger] entries_lead(
                            can_fetch,
                            site,
                            entities.take(position - 1),
                            between,
                        )
                        &&& between.takes_entry(
                            can_fetch,
                            entities[position - 1],
                            SitemapStep::Crawl,
                            before.site,
                        )
                    };
                assert(taken.drop_last() =~= entities.take(position - 1));
                assert(crawl.leads(can_fetch, before.site, states[m].site));
                assert(is_wanted(crawl.active));
                assert(entries_lead(can_fetch, site, taken.drop_last(), between));
                assert(entry_leads(can_fetch, between, taken.last(), states[m].site));
                assert(entries_lead(can_fetch, site, taken, states[m].site));
            },
            _ => {},
        }
    }
}

/// Between the request for a sitemap and its end, in a crawl that is not called off, the website
/// becomes what the entries make of it.
pub proof fn walks_lead_where_their_entries_do<P, F: Fn(&P, &str, &str) -> bool>(
    can_fetch: F,
    start: Website<P>,
    active: Seq<bool>,
    states: Seq<SitemapState<P>>,
    moves: Seq<SitemapMove<P>>,
    i: int,
    j: int,
    text: Seq<char>,
)
    requires
        is_sitemap_course(can_fetch, start, active, states, moves),
        is_never_called_off(active, moves),
        0 <= i < j < moves.len(),
        moves[i] is Read,
        moves[i]->Read_1 == Some(text),
        moves[j] is End,
        forall|h: int| i < h < j ==> (#[trigger] moves[h]) !is End,
    ensures
        entries_lead(can_fetch, states[i].site, sitemap_entities(text), states[j].site),
{
    walks_follow_their_entries(can_fetch, start, active, states, moves, i, j);
    assert(is_sitemap_move(can_fetch, active[j], states[j], moves[j], states[j + 1]));
    walks_keep_their_entries(can_fetch, start, active, states, moves, i, j);
    let entities = entity_views(states[j].walk->0.entities@);
    assert(is_sitemap_move(can_fetch, active[i], states[i], moves[i], states[i + 1]));
    assert(entities.take(entities.len() as int) =~= entities);
}

/// The entries of a sitemap stay the same on the way through it.
proof fn walks_keep_their_entries<P, F: Fn(&P, &str, &str) -> bool>(
    can_fetch: F,
    start: Website<P>,
    active: Seq<bool>,
    states: Seq<SitemapState<P>>,
    moves: Seq<SitemapMove<P>>,
    i: int,
    m: int,
)
    requires
        is_sitemap_course(can_fetch, start, active, states, moves),
        0 <= i < m < states.len(),
        moves[i] is Read,
        forall|j: int| i < j < m ==> (#[trigger] moves[j]) !is End,
    ensures
        states[m].walk is Some,
        states[m].walk->0.entities == states[i + 1].walk->0.entities,
    decreases m,
{
    assert(is_sitemap_move(can_fetch, active[m - 1], states[m - 1], moves[m - 1], states[m]));
    if m > i + 1 {
        walks_keep_their_entries(can_fetch, start, active, states, moves, i, m - 1);
    }
}

/// Entries that are not well formed or have no address make no difference: the entries of a sitemap
/// lead where they would without them.
pub proof fn bad_entries_make_no_difference<P, F: Fn(&P, &str, &str) -> bool>(
    can_fetch: F,
    site: Website<P>,
    entities: Seq<SitemapEntityView>,
    after: Website<P>,
)
    ensures
        entries_lead(can_fetch, site, entities, after) <==> entries_lead(
            can_fetch,
            site,
            with_address(entities),
            after,
        ),
    decreases entities.len(),
{
    reveal(Seq::filter);
    if entities.len() > 0 {
        let rest = entities.drop_last();
        let last = entities.last();
        if has_address(last) {
            let kept = with_address(rest);
            assert(with_address(entities) == kept.push(last));
            assert(with_address(entities).drop_last() =~= kept);
            if entries_lead(can_fetch, site, entities, after) {
                let between = choose|between: Website<P>|
                    {
                        &&& entries_lead(can_fetch, site, rest, between)
                        &&& #[trigger] entry_leads(can_fetch, between, last, after)
                    };
                bad_entries_make_no_difference(can_fetch, site, rest, between);
                assert(entries_lead(can_fetch, site, kept, between));
                assert(entry_leads(can_fetch, between, with_address(entities).last(), after));
                assert(entries_lead(can_fetch, site, with_address(entities), after));
            }
            if entries_lead(can_fetch, site, with_address(entities), after) {
                let between = choose|between: Website<P>|
                    {
                        &&& entries_lead(can_fetch, site, kept, between)
                        &&& #[trigger] entry_leads(can_fetch, between, last, after)
                    };
                bad_entries_make_no_difference(can_fetch, site, rest, between);
                assert(entries_lead(can_fetch, site, rest, between));
                assert(entry_leads(can_fetch, between, entities.last(), after));
                assert(entries_lead(can_fetch, site, entities, after));
            }
        } else {
            if entries_lead(can_fetch, site, entities, after) {
                let between = choose|between: Website<P>|
                    {
                        &&& entries_lead(can_fetch, site, rest, between)
                        &&& #[trigger] entry_leads(can_fetch, between, last, after)
                    };
                assert(between == after);
            }
            bad_entries_make_no_difference(can_fetch, site, rest, after);
            assert(after.takes_entry(can_fetch, last, SitemapStep::Continue, after));
            assert(entry_leads(can_fetch, after, entities.last(), after));
            assert(with_address(entities) == with_address(rest));
            if entries_lead(can_fetch, site, rest, after) {
                assert(entries_lead(can_fetch, site, entities, after));
            }
        }
    }
}

} // verus!
