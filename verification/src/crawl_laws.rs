//! What holds of the steps of a crawl: each link is decided on once, no page that is waited for is
//! left out, no link that was found is lost, and a crawl ends only where nothing is left or it was
//! called off.

use crate::course::{is_course, is_move, is_wanted, CrawlState, Move};
use crate::crawl::{CrawlKind, CrawlPlan, InnerCrawl, LinkStep, Message, Round};
use crate::link_laws::{
    can_be_asked, decisions_are_right, is_right_decision, is_same_but_links, is_visited_after,
};
use crate::text_laws::{lists_name_each_once, names_each_once};
use crate::website::Website;
use vstd::prelude::*;

verus! {

/// The selectors that the function may give for the root of the website, with the subdomains and
/// top level domains that are configured.
pub open spec fn may_select<P, S, G: FnOnce(&String, bool, bool) -> Option<S>>(
    site: Website<P>,
    get_page_selectors: G,
    selectors: Option<S>,
) -> bool {
    site.domain_parsed is Some && call_ensures(
        get_page_selectors,
        (&site.domain_parsed->0, site.configuration.subdomains, site.configuration.tld),
        selectors,
    )
}

/// A website is crawled exactly where its domain is a URL and there are selectors for its root, and
/// then with these and with the configured delay.
pub proof fn crawls_need_a_root_and_selectors<P, S, G: FnOnce(&String, bool, bool) -> Option<S>>(
    site: Website<P>,
    get_page_selectors: G,
    plan: Option<CrawlPlan<S>>,
)
    requires
        call_ensures(
            Website::<P>::crawl_concurrent::<S, G>,
            (&site, get_page_selectors),
            plan,
        ),
    ensures
        plan is Some ==> may_select(site, get_page_selectors, Some(plan->0.selectors)),
        plan is Some ==> plan->0.throttle == site.configuration.delay,
        plan is None ==> site.domain_parsed is None || may_select(
            site,
            get_page_selectors,
            None::<S>,
        ),
{
}

/// A website is crawled under a client exactly where its domain is a URL and there are selectors
/// for its root, with these and with the configured delay; its sitemap is crawled too exactly where
/// that is configured.
pub proof fn client_crawls_need_a_root_and_selectors<
    P,
    S,
    G: FnOnce(&String, bool, bool) -> Option<S>,
>(site: Website<P>, get_page_selectors: G, plan: Option<(CrawlPlan<S>, CrawlKind)>)
    requires
        call_ensures(
            Website::<P>::crawl_concurrent_rpc::<S, G>,
            (&site, get_page_selectors),
            plan,
        ),
    ensures
        plan is Some ==> may_select(site, get_page_selectors, Some((plan->0).0.selectors)),
        plan is Some ==> (plan->0).0.throttle == site.configuration.delay,
        plan is Some ==> ((plan->0).1 is Sitemap <==> site.configuration.sitemap),
        plan is None ==> site.domain_parsed is None || may_select(
            site,
            get_page_selectors,
            None::<S>,
        ),
{
}

/// A round begins exactly where there is a link to visit, with each of them once and nothing found.
pub proof fn rounds_begin_with_every_link<P>(site: Website<P>, round: Option<Round>)
    requires
        call_ensures(Website::<P>::begin_round, (&site,), round),
    ensures
        round is None <==> forall|k: Seq<char>| !#[trigger] site.links@.contains_key(k),
        round is Some ==> names_each_once(round->0.queue@, site.links@),
        round is Some ==> forall|k: Seq<char>| !#[trigger] round->0.new_links@.contains_key(k),
{
    if forall|k: Seq<char>| !#[trigger] site.links@.contains_key(k) {
        assert(site.links@ =~= Map::empty());
    }
    if round is Some {
        lists_name_each_once(round->0.queue@, site.links@);
    }
}

/// What deciding on the last link of a queue does: the link is fetched or passed over, whichever is
/// right; it is taken from the queue, and nothing else changes but that it is visited where it is
/// fetched.
pub open spec fn decides_on_last<P, F: Fn(&P, &str, &str) -> bool>(
    queue: Seq<String>,
    site: Website<P>,
    can_fetch: F,
    step: LinkStep,
    queue_after: Seq<String>,
    site_after: Website<P>,
) -> bool {
    let last = queue[queue.len() - 1];
    &&& step == LinkStep::Fetch(last) || step == LinkStep::Skip(last)
    &&& is_right_decision(site, can_fetch, last@, step is Fetch)
    &&& is_visited_after(site, last@, step is Fetch, site_after)
    &&& is_same_but_links(site, site_after)
    &&& site_after.links == site.links
    &&& queue_after.len() == queue.len() - 1
    &&& forall|i: int| 0 <= i < queue_after.len() ==> #[trigger] queue_after[i] == queue[i]
}

/// In a round each link is decided on in its turn, and rightly; the round waits only behind its
/// last link.
pub proof fn rounds_decide_on_each_link<P, F: Fn(&P, &str, &str) -> bool>(
    round: &mut Round,
    site: &mut Website<P>,
    can_fetch: F,
    step: LinkStep,
)
    requires
        call_ensures(Round::next_link::<P, F>, (round, site, can_fetch), step),
    ensures
        step is Join <==> old(round).queue@.len() == 0,
        step is Join ==> *final(site) == *old(site) && final(round).queue@ == old(round).queue@,
        old(round).queue@.len() > 0 ==> decides_on_last(
            old(round).queue@,
            *old(site),
            can_fetch,
            step,
            final(round).queue@,
            *final(site),
        ),
        final(round).new_links == old(round).new_links,
{
    if old(round).queue@.len() > 0 {
        decisions_are_right(
            *old(site),
            can_fetch,
            old(round).queue@.last()@,
            step is Fetch,
            *final(site),
        );
    }
}

/// No link that a page of a round shows is lost, nor one that was found before; nothing else is
/// taken in, and the links that are left of the round stay.
pub proof fn rounds_keep_what_pages_show(round: &mut Round, message: Message)
    requires
        call_ensures(Round::received, (round, message), ()),
    ensures
        forall|k: Seq<char>| #[trigger]
            final(round).new_links@.contains_key(k) <==> old(round).new_links@.contains_key(k)
                || message@.contains_key(k),
        forall|k: Seq<char>| #[trigger]
            final(round).new_links@.contains_key(k) ==> final(round).new_links@[k] == (if old(
                round,
            ).new_links@.contains_key(k) {
                old(round).new_links@[k]
            } else {
                message@[k]
            }),
        final(round).queue == old(round).queue,
{
}

/// After a round the links to visit are exactly those that it found and that have not been visited,
/// as they were spelled; nothing else changes.
pub proof fn rounds_leave_what_is_unvisited<P>(site: &mut Website<P>, round: Round)
    requires
        call_ensures(Website::<P>::end_round, (site, round), ()),
    ensures
        forall|k: Seq<char>| #[trigger]
            final(site).links@.contains_key(k) <==> round.new_links@.contains_key(k) && !old(
                site,
            ).links_visited@.contains_key(k),
        forall|k: Seq<char>| #[trigger]
            final(site).links@.contains_key(k) ==> final(site).links@[k] == round.new_links@[k],
        is_same_but_links(*old(site), *final(site)),
        final(site).links_visited == old(site).links_visited,
{
}

/// A crawl under a client starts with each link to visit once, nothing found, and leaves none of
/// them in the website; nothing else changes.
pub proof fn client_crawls_start_with_every_link<P>(site: &mut Website<P>, crawl: InnerCrawl)
    requires
        call_ensures(Website::<P>::inner_crawl, (site,), crawl),
    ensures
        crawl.phase is Streaming,
        names_each_once(crawl.queue@, old(site).links@),
        forall|k: Seq<char>| !#[trigger] crawl.links@.contains_key(k),
        forall|k: Seq<char>| !#[trigger] final(site).links@.contains_key(k),
        is_same_but_links(*old(site), *final(site)),
        final(site).links_visited == old(site).links_visited,
{
    lists_name_each_once(crawl.queue@, old(site).links@);
}

/// In a pass each link is decided on in its turn, and rightly, while the client wants the crawl;
/// the pages are waited for only behind the last link. Where the client has called the crawl off
/// before, no link is fetched, nothing changes of the website, and the crawl is over.
pub proof fn passes_decide_on_each_link<P, F: Fn(&P, &str, &str) -> bool>(
    crawl: &mut InnerCrawl,
    site: &mut Website<P>,
    active: bool,
    can_fetch: F,
    step: LinkStep,
)
    requires
        call_ensures(InnerCrawl::next_link::<P, F>, (crawl, site, active, can_fetch), step),
    ensures
        step is Join <==> old(crawl).queue@.len() == 0,
        step is Join ==> *final(site) == *old(site) && final(crawl).phase is Joining,
        step is Join || step is Shutdown ==> final(crawl).queue@.len() == 0,
        step is Shutdown <==> old(crawl).queue@.len() > 0 && !active,
        step is Shutdown ==> *final(site) == *old(site) && final(crawl).phase is Finished,
        old(crawl).queue@.len() > 0 && active ==> final(crawl).phase is Streaming
            && decides_on_last(
            old(crawl).queue@,
            *old(site),
            can_fetch,
            step,
            final(crawl).queue@,
            *final(site),
        ),
        final(crawl).links == old(crawl).links,
{
    if old(crawl).queue@.len() > 0 && active {
        decisions_are_right(
            *old(site),
            can_fetch,
            old(crawl).queue@.last()@,
            step is Fetch,
            *final(site),
        );
    }
}

/// While the client wants the crawl, taking in a page does not end it: it goes on waiting for the
/// others. No link that the page shows is lost, unless it has been visited, nor one that was found
/// before; nothing else is taken in. Where the client has called the crawl off, it is over.
pub proof fn pages_are_waited_for<P>(
    crawl: &mut InnerCrawl,
    site: &Website<P>,
    active: bool,
    message: Option<Message>,
)
    requires
        call_ensures(InnerCrawl::joined::<P>, (crawl, site, active, message), ()),
    ensures
        active ==> final(crawl).phase is Joining,
        !active ==> final(crawl).phase is Finished,
        active && message is Some ==> forall|k: Seq<char>| #[trigger]
            final(crawl).links@.contains_key(k) <==> old(crawl).links@.contains_key(k) || (
            message->0@.contains_key(k) && !site.links_visited@.contains_key(k)),
        active && message is Some ==> forall|k: Seq<char>| #[trigger]
            final(crawl).links@.contains_key(k) ==> final(crawl).links@[k] == (if old(
                crawl,
            ).links@.contains_key(k) {
                old(crawl).links@[k]
            } else {
                message->0@[k]
            }),
        !active || message is None ==> final(crawl).links@ == old(crawl).links@,
        final(crawl).queue == old(crawl).queue,
{
}

/// A pass is the last one exactly where nothing was found or the client has called the crawl off;
/// else each link that was found is in the next one, once.
pub proof fn passes_follow_while_links_are_found(crawl: &mut InnerCrawl, active: bool)
    requires
        call_ensures(InnerCrawl::end_pass, (crawl, active), ()),
    ensures
        final(crawl).phase is Finished <==> !active || forall|k: Seq<char>|
            !#[trigger] old(crawl).links@.contains_key(k),
        final(crawl).phase is Finished ==> final(crawl).links == old(crawl).links
            && final(crawl).queue == old(crawl).queue,
        final(crawl).phase !is Finished ==> {
            &&& final(crawl).phase is Streaming
            &&& names_each_once(final(crawl).queue@, old(crawl).links@)
            &&& forall|k: Seq<char>| !#[trigger] final(crawl).links@.contains_key(k)
        },
{
    if forall|k: Seq<char>| !#[trigger] old(crawl).links@.contains_key(k) {
        assert(old(crawl).links@ =~= Map::empty());
    }
    if final(crawl).phase !is Finished {
        lists_name_each_once(final(crawl).queue@, old(crawl).links@);
    }
}

/// A crawl that is not called off ends only with a pass, never while a page is taken in or a link
/// is decided on, and only where nothing was found for a further pass.
pub proof fn crawls_end_with_a_pass<P, F: Fn(&P, &str, &str) -> bool>(
    can_fetch: F,
    active: Seq<bool>,
    states: Seq<CrawlState<P>>,
    moves: Seq<Move>,
    i: int,
)
    requires
        is_course(can_fetch, active, states, moves),
        is_wanted(active),
        0 <= i < moves.len(),
        states[i + 1].crawl.phase is Finished,
    ensures
        moves[i] is PassEnd,
        forall|k: Seq<char>| !#[trigger] states[i].crawl.links@.contains_key(k),
        i == moves.len() - 1,
{
    assert(is_move(can_fetch, active[i], states[i], moves[i], states[i + 1]));
    if i + 1 < moves.len() {
        assert(is_move(can_fetch, active[i + 1], states[i + 1], moves[i + 1], states[i + 2]));
    }
}

/// A round and a pass can go on with any link, where `robots.txt` is not followed or there is a
/// parser that can be asked; what comes of it can be taken in and ended at any time.
pub proof fn crawls_can_go_on<P, F: Fn(&P, &str, &str) -> bool>(
    round: &mut Round,
    crawl: &mut InnerCrawl,
    site: &mut Website<P>,
    can_fetch: F,
    active: bool,
    message: Option<Message>,
    page: Message,
    ended: Round,
)
    requires
        forall|link: &str| #[trigger] can_be_asked(*old(site), can_fetch, link),
    ensures
        call_requires(Round::next_link::<P, F>, (round, site, can_fetch)),
        call_requires(Round::received, (round, page)),
        call_requires(Website::<P>::end_round, (site, ended)),
        call_requires(Website::<P>::inner_crawl, (site,)),
        old(crawl).phase is Streaming ==> call_requires(
            InnerCrawl::next_link::<P, F>,
            (crawl, site, active, can_fetch),
        ),
        old(crawl).phase is Joining ==> call_requires(
            InnerCrawl::joined::<P>,
            (crawl, old(site), active, message),
        ),
        old(crawl).phase is Joining ==> call_requires(InnerCrawl::end_pass, (crawl, active)),
{
    assert forall|link: &str| old(site).can_ask(can_fetch, link) by {
        assert(can_be_asked(*old(site), can_fetch, link));
    }
}

} // verus!
