//! What holds of a crawl under a client from its start to its end: no link is fetched twice, every
//! link that a page shows is visited where the crawl is not called off, unless it is blacklisted or
//! `robots.txt` forbids it, and no other link is.

use crate::crawl::{rest_is_unvisited, InnerCrawl, LinkStep};
use crate::laws::{
    is_history, links_are_fetched_once, visited_links_are_not_fetched, visited_links_stay, Decision,
};
use crate::link_set::{lists, no_links};
use crate::text::{fold, texts};
use crate::website::Website;
use vstd::prelude::*;

verus! {

/// `link` is blacklisted, or `robots.txt` forbids it.
pub open spec fn is_forbidden<P, F: Fn(&P, &str, &str) -> bool>(
    site: Website<P>,
    can_fetch: F,
    link: Seq<char>,
) -> bool {
    site.is_blacklisted(link) || exists|spelled: &str| #[trigger]
        spelled@ == link && site.robots_verdict(can_fetch, spelled, false)
}

/// The link with the folded form `k` has been visited, or a spelling of it among `links` is
/// forbidden.
pub open spec fn is_settled_in<P, F: Fn(&P, &str, &str) -> bool>(
    site: Website<P>,
    can_fetch: F,
    links: Set<Seq<char>>,
    k: Seq<char>,
) -> bool {
    site.links_visited@.contains_key(k) || exists|link: Seq<char>| #[trigger]
        fold(link) == k && links.contains(link) && is_forbidden(site, can_fetch, link)
}

/// Both websites were set up alike: the same rules decide on their links.
pub open spec fn same_settings<P>(site: Website<P>, other: Website<P>) -> bool {
    &&& site.configuration == other.configuration
    &&& site.robot_file_parser == other.robot_file_parser
    &&& site.domain == other.domain
    &&& site.domain_parsed == other.domain_parsed
}

/// The members are spelled as some of `links`.
pub open spec fn all_in(members: Map<Seq<char>, Seq<char>>, links: Set<Seq<char>>) -> bool {
    forall|k: Seq<char>| #[trigger] members.contains_key(k) ==> links.contains(members[k])
}

/// The links of the queue are some of `links`.
pub open spec fn queued_in(queue: Seq<String>, links: Set<Seq<char>>) -> bool {
    forall|i: int| 0 <= i < queue.len() ==> links.contains((#[trigger] queue[i])@)
}

/// Some link of the queue has the folded form `k`.
pub open spec fn is_queued(queue: Seq<String>, k: Seq<char>) -> bool {
    exists|i: int| 0 <= i < queue.len() && fold((#[trigger] queue[i])@) == k
}

/// A link that is settled stays so while only the visited links change and none is lost.
pub proof fn settled_stays<P, F: Fn(&P, &str, &str) -> bool>(
    site: Website<P>,
    after: Website<P>,
    can_fetch: F,
    links: Set<Seq<char>>,
    k: Seq<char>,
)
    requires
        is_settled_in(site, can_fetch, links, k),
        same_settings(site, after),
        site.links_visited@.dom().subset_of(after.links_visited@.dom()),
    ensures
        is_settled_in(after, can_fetch, links, k),
{
    if !site.links_visited@.contains_key(k) {
        let link = choose|link: Seq<char>| #[trigger]
            fold(link) == k && links.contains(link) && is_forbidden(site, can_fetch, link);
        if !site.is_blacklisted(link) {
            let spelled = choose|spelled: &str| #[trigger]
                spelled@ == link && site.robots_verdict(can_fetch, spelled, false);
            assert(after.robots_verdict(can_fetch, spelled, false));
        }
        assert(is_forbidden(after, can_fetch, link));
    }
}

/// A link on which a decision was taken is settled.
pub proof fn decided_is_settled<P, F: Fn(&P, &str, &str) -> bool>(
    site: Website<P>,
    can_fetch: F,
    links: Set<Seq<char>>,
    link: Seq<char>,
    fetched: bool,
    after: Website<P>,
)
    requires
        site.takes(can_fetch, link, fetched, after),
        links.contains(link),
    ensures
        is_settled_in(after, can_fetch, links, fold(link)),
{
    if !fetched && !site.is_visited(link) {
        let spelled = choose|spelled: &str| #[trigger]
            spelled@ == link && site.allowed_verdict(can_fetch, spelled, fetched);
        if !site.is_blacklisted(link) {
            assert(spelled@ == link && after.robots_verdict(can_fetch, spelled, false));
        }
        assert(is_forbidden(after, can_fetch, link));
    }
}

/// A link of a queue is its last one or stays in it when that is taken.
pub proof fn queued_or_last(queue: Seq<String>, k: Seq<char>)
    requires
        is_queued(queue, k),
    ensures
        queue.len() > 0,
        fold(queue.last()@) == k || is_queued(queue.drop_last(), k),
{
    let i = choose|i: int| 0 <= i < queue.len() && fold((#[trigger] queue[i])@) == k;
    if i < queue.len() - 1 {
        assert(queue.drop_last()[i] == queue[i]);
    }
}

/// A member of a set is in each list of its members.
pub proof fn listed_is_queued(queue: Seq<String>, members: Map<Seq<char>, Seq<char>>, k: Seq<char>)
    requires
        lists(texts(queue), members),
        members.contains_key(k),
    ensures
        is_queued(queue, k),
{
    let i = choose|i: int| 0 <= i < texts(queue).len() && fold(texts(queue)[i]) == k;
    assert(fold(queue[i]@) == k);
}

/// A move of a crawl under a client.
pub enum Move {
    /// The next link was taken.
    Link(LinkStep),
    /// A page that was waited for came, with the links it shows, or failed.
    Page(Option<Map<Seq<char>, Seq<char>>>),
    /// The pass ended.
    PassEnd,
}

/// A crawl under a client and its website.
pub struct CrawlState<P> {
    pub crawl: InnerCrawl,
    pub site: Website<P>,
}

/// What a move does; `active` says whether the client still wants the crawl.
pub open spec fn is_move<P, F: Fn(&P, &str, &str) -> bool>(
    can_fetch: F,
    active: bool,
    before: CrawlState<P>,
    by: Move,
    after: CrawlState<P>,
) -> bool {
    match by {
        Move::Link(step) => {
            &&& before.crawl.phase is Streaming
            &&& before.crawl.takes_link(
                before.site,
                active,
                can_fetch,
                step,
                after.crawl,
                after.site,
            )
        },
        Move::Page(message) => {
            &&& before.crawl.phase is Joining
            &&& before.crawl.joins(before.site.links_visited@, active, message, after.crawl)
            &&& after.site == before.site
        },
        Move::PassEnd => {
            &&& before.crawl.phase is Joining
            &&& before.crawl.ends(active, after.crawl)
            &&& after.site == before.site
        },
    }
}

/// The course of a crawl under a client, from its start on; `active` says for each move whether
/// the client still wants the crawl.
pub open spec fn is_course<P, F: Fn(&P, &str, &str) -> bool>(
    can_fetch: F,
    active: Seq<bool>,
    states: Seq<CrawlState<P>>,
    moves: Seq<Move>,
) -> bool {
    &&& states.len() == moves.len() + 1
    &&& active.len() == moves.len()
    &&& states[0].crawl.phase is Streaming
    &&& forall|i: int|
        0 <= i < moves.len() ==> is_move(
            can_fetch,
            active[i],
            states[i],
            #[trigger] moves[i],
            states[i + 1],
        )
}

/// The client never calls the crawl off.
pub open spec fn is_wanted(active: Seq<bool>) -> bool {
    forall|i: int| 0 <= i < active.len() ==> #[trigger] active[i]
}

/// The links that a crawl starts from and those that its pages show are some of `links`.
pub open spec fn is_course_in<P>(
    links: Set<Seq<char>>,
    states: Seq<CrawlState<P>>,
    moves: Seq<Move>,
) -> bool {
    &&& queued_in(states[0].crawl.queue@, links)
    &&& all_in(states[0].crawl.links@, links)
    &&& forall|i: int|
        0 <= i < moves.len() ==> (match #[trigger] moves[i] {
            Move::Page(Some(shown)) => all_in(shown, links),
            _ => true,
        })
}

/// The link with the folded form `k` is settled or will be: it waits in this pass or the next.
pub open spec fn is_in_hand<P, F: Fn(&P, &str, &str) -> bool>(
    can_fetch: F,
    links: Set<Seq<char>>,
    state: CrawlState<P>,
    k: Seq<char>,
) -> bool {
    ||| is_settled_in(state.site, can_fetch, links, k)
    ||| is_queued(state.crawl.queue@, k)
    ||| state.crawl.links@.contains_key(k)
}

/// A crawl that is not called off ends only when it has no link left.
pub proof fn crawls_end_without_links<P, F: Fn(&P, &str, &str) -> bool>(
    can_fetch: F,
    active: Seq<bool>,
    states: Seq<CrawlState<P>>,
    moves: Seq<Move>,
    i: int,
)
    requires
        is_course(can_fetch, active, states, moves),
        is_wanted(active),
        0 <= i < states.len(),
    ensures
        states[i].crawl.phase !is Streaming ==> states[i].crawl.queue@.len() == 0,
        states[i].crawl.phase is Finished ==> states[i].crawl.links@ == no_links(),
    decreases i,
{
    if i > 0 {
        crawls_end_without_links(can_fetch, active, states, moves, i - 1);
        assert(is_move(can_fetch, active[i - 1], states[i - 1], moves[i - 1], states[i]));
    }
}

/// A crawl takes links from a website and gives it visited ones, and changes nothing else of it.
pub proof fn crawls_change_visited_links_only<P, F: Fn(&P, &str, &str) -> bool>(
    can_fetch: F,
    active: Seq<bool>,
    states: Seq<CrawlState<P>>,
    moves: Seq<Move>,
    i: int,
)
    requires
        is_course(can_fetch, active, states, moves),
        0 <= i < states.len(),
    ensures
        states[i].site.same_but_visited(states[0].site),
    decreases i,
{
    if i > 0 {
        crawls_change_visited_links_only(can_fetch, active, states, moves, i - 1);
        assert(is_move(can_fetch, active[i - 1], states[i - 1], moves[i - 1], states[i]));
    }
}

/// The links of a crawl are spelled as those it started from and those that its pages show.
pub proof fn links_keep_their_spelling<P, F: Fn(&P, &str, &str) -> bool>(
    can_fetch: F,
    active: Seq<bool>,
    links: Set<Seq<char>>,
    states: Seq<CrawlState<P>>,
    moves: Seq<Move>,
    i: int,
)
    requires
        is_course(can_fetch, active, states, moves),
        is_course_in(links, states, moves),
        0 <= i < states.len(),
    ensures
        queued_in(states[i].crawl.queue@, links),
        all_in(states[i].crawl.links@, links),
    decreases i,
{
    if i > 0 {
        links_keep_their_spelling(can_fetch, active, links, states, moves, i - 1);
        let before = states[i - 1].crawl;
        let after = states[i].crawl;
        assert(is_move(can_fetch, active[i - 1], states[i - 1], moves[i - 1], states[i]));
        match moves[i - 1] {
            Move::Link(_) => {
                assert forall|n: int| 0 <= n < after.queue@.len() implies links.contains(
                    (#[trigger] after.queue@[n])@,
                ) by {
                    assert(after.queue@[n] == before.queue@[n]);
                }
            },
            Move::Page(message) => {
                if let Some(shown) = message {
                    assert(all_in(shown, links));
                    assert forall|k: Seq<char>| #[trigger]
                        after.links@.contains_key(k) implies links.contains(after.links@[k]) by {
                        assert(before.links@.contains_key(k) || shown.contains_key(k));
                    }
                }
            },
            Move::PassEnd => {
                if after.phase is Streaming {
                    assert forall|n: int| 0 <= n < after.queue@.len() implies links.contains(
                        (#[trigger] after.queue@[n])@,
                    ) by {
                        assert(texts(after.queue@)[n] == after.queue@[n]@);
                        assert(before.links@.contains_key(fold(after.queue@[n]@)));
                    }
                }
            },
        }
    }
}

/// A link that is in hand stays in hand.
proof fn links_stay_in_hand<P, F: Fn(&P, &str, &str) -> bool>(
    can_fetch: F,
    active: Seq<bool>,
    links: Set<Seq<char>>,
    states: Seq<CrawlState<P>>,
    moves: Seq<Move>,
    i: int,
    j: int,
    k: Seq<char>,
)
    requires
        is_course(can_fetch, active, states, moves),
        is_wanted(active),
        is_course_in(links, states, moves),
        0 <= i <= j < states.len(),
        is_in_hand(can_fetch, links, states[i], k),
    ensures
        is_in_hand(can_fetch, links, states[j], k),
    decreases j - i,
{
    if i < j {
        links_stay_in_hand(can_fetch, active, links, states, moves, i, j - 1, k);
        links_keep_their_spelling(can_fetch, active, links, states, moves, j - 1);
        crawls_end_without_links(can_fetch, active, states, moves, j - 1);
        let before = states[j - 1];
        let after = states[j];
        assert(is_move(can_fetch, active[j - 1], before, moves[j - 1], after));
        if is_settled_in(before.site, can_fetch, links, k) {
            settled_stays(before.site, after.site, can_fetch, links, k);
        } else {
            match moves[j - 1] {
                Move::Link(step) => {
                    let queue = before.crawl.queue@;
                    if is_queued(queue, k) {
                        queued_or_last(queue, k);
                        if fold(queue.last()@) == k {
                            assert(links.contains(queue[queue.len() - 1]@));
                            decided_is_settled(
                                before.site,
                                can_fetch,
                                links,
                                queue.last()@,
                                step is Fetch,
                                after.site,
                            );
                        }
                    }
                },
                Move::Page(_) => {},
                Move::PassEnd => {
                    if before.crawl.links@.contains_key(k) {
                        assert(before.crawl.links@ != no_links());
                        listed_is_queued(after.crawl.queue@, before.crawl.links@, k);
                    }
                },
            }
        }
    }
}

/// At the end of a crawl that is not called off every link that it knows has been visited, unless
/// it is forbidden in a spelling that it has among `links`, where those are all the links that the
/// crawl started from and that its pages show.
pub proof fn known_links_are_settled<P, F: Fn(&P, &str, &str) -> bool>(
    can_fetch: F,
    active: Seq<bool>,
    links: Set<Seq<char>>,
    states: Seq<CrawlState<P>>,
    moves: Seq<Move>,
    k: Seq<char>,
)
    requires
        is_course(can_fetch, active, states, moves),
        is_wanted(active),
        is_course_in(links, states, moves),
        states.last().crawl.phase is Finished,
        is_known(states, moves, moves.len() as int, k),
    ensures
        is_settled_in(states.last().site, can_fetch, links, k),
{
    let last = states.len() - 1;
    if is_in_hand(can_fetch, links, states[0], k) {
        links_stay_in_hand(can_fetch, active, links, states, moves, 0, last, k);
    } else {
        let i = choose|i: int|
            0 <= i < moves.len() && (match #[trigger] moves[i] {
                Move::Page(Some(shown)) => shown.contains_key(k),
                _ => false,
            });
        assert(is_move(can_fetch, active[i], states[i], moves[i], states[i + 1]));
        assert(is_in_hand(can_fetch, links, states[i + 1], k));
        links_stay_in_hand(can_fetch, active, links, states, moves, i + 1, last, k);
    }
    crawls_end_without_links(can_fetch, active, states, moves, last);
}

/// A link of the first pass stays in its place until it is visited or found to be forbidden.
proof fn first_links_wait_for_their_turn<P, F: Fn(&P, &str, &str) -> bool>(
    can_fetch: F,
    active: Seq<bool>,
    states: Seq<CrawlState<P>>,
    moves: Seq<Move>,
    n: int,
    j: int,
)
    requires
        is_course(can_fetch, active, states, moves),
        is_wanted(active),
        0 <= n < states[0].crawl.queue@.len(),
        0 <= j < states.len(),
    ensures
        ({
            let link = states[0].crawl.queue@[n];
            let crawl = states[j].crawl;
            ||| is_settled_in(states[j].site, can_fetch, set![link@], fold(link@))
            ||| crawl.phase is Streaming && n < crawl.queue@.len() && crawl.queue@[n] == link
        }),
    decreases j,
{
    if j > 0 {
        first_links_wait_for_their_turn(can_fetch, active, states, moves, n, j - 1);
        let link = states[0].crawl.queue@[n]@;
        let before = states[j - 1];
        let after = states[j];
        assert(is_move(can_fetch, active[j - 1], before, moves[j - 1], after));
        if is_settled_in(before.site, can_fetch, set![link], fold(link)) {
            settled_stays(before.site, after.site, can_fetch, set![link], fold(link));
        } else if n == before.crawl.queue@.len() - 1 {
            decided_is_settled(
                before.site,
                can_fetch,
                set![link],
                link,
                moves[j - 1]->Link_0 is Fetch,
                after.site,
            );
        }
    }
}

/// At the end of a crawl that is not called off every link that it started from has been
/// visited, unless it is blacklisted or `robots.txt` forbids it.
pub proof fn first_links_are_settled<P, F: Fn(&P, &str, &str) -> bool>(
    can_fetch: F,
    active: Seq<bool>,
    states: Seq<CrawlState<P>>,
    moves: Seq<Move>,
    n: int,
)
    requires
        is_course(can_fetch, active, states, moves),
        is_wanted(active),
        states.last().crawl.phase is Finished,
        0 <= n < states[0].crawl.queue@.len(),
    ensures
        ({
            let link = states[0].crawl.queue@[n]@;
            states.last().site.is_visited(link) || is_forbidden(
                states.last().site,
                can_fetch,
                link,
            )
        }),
{
    first_links_wait_for_their_turn(can_fetch, active, states, moves, n, states.len() - 1);
}

/// The crawl started from `link`, in this spelling, or one of its pages shows it.
pub open spec fn is_spelled<P>(
    states: Seq<CrawlState<P>>,
    moves: Seq<Move>,
    link: Seq<char>,
) -> bool {
    ||| exists|i: int|
        0 <= i < states[0].crawl.queue@.len() && (#[trigger] states[0].crawl.queue@[i])@ == link
    ||| states[0].crawl.links@.contains_value(link)
    ||| exists|i: int|
        0 <= i < moves.len() && (match #[trigger] moves[i] {
            Move::Page(Some(shown)) => shown.contains_value(link),
            _ => false,
        })
}

/// At the end of a crawl that is not called off every link that any of its pages showed has been
/// visited, unless it is blacklisted or forbidden by `robots.txt` in a spelling that the crawl
/// started from or a page shows.
pub proof fn shown_links_are_settled<P, F: Fn(&P, &str, &str) -> bool>(
    can_fetch: F,
    active: Seq<bool>,
    states: Seq<CrawlState<P>>,
    moves: Seq<Move>,
    i: int,
    shown: Map<Seq<char>, Seq<char>>,
    k: Seq<char>,
)
    requires
        is_course(can_fetch, active, states, moves),
        is_wanted(active),
        states.last().crawl.phase is Finished,
        0 <= i < moves.len(),
        moves[i] == Move::Page(Some(shown)),
        shown.contains_key(k),
    ensures
        states.last().site.links_visited@.contains_key(k) || exists|link: Seq<char>| #[trigger]
            fold(link) == k && is_spelled(states, moves, link) && is_forbidden(
                states.last().site,
                can_fetch,
                link,
            ),
{
    let links = Set::new(|link: Seq<char>| is_spelled(states, moves, link));
    assert forall|j: int| 0 <= j < moves.len() implies (match #[trigger] moves[j] {
        Move::Page(Some(shown)) => all_in(shown, links),
        _ => true,
    }) by {
        if let Move::Page(Some(shown)) = moves[j] {
            assert forall|k: Seq<char>| #[trigger] shown.contains_key(k) implies links.contains(
                shown[k],
            ) by {
                assert(shown.contains_value(shown[k]));
            }
        }
    }
    assert forall|k: Seq<char>| #[trigger]
        states[0].crawl.links@.contains_key(k) implies links.contains(
        states[0].crawl.links@[k],
    ) by {
        assert(states[0].crawl.links@.contains_value(states[0].crawl.links@[k]));
    }
    known_links_are_settled(can_fetch, active, links, states, moves, k);
}

/// The crawl started from the link with the folded form `k`, or one of its first `n` moves
/// brought a page that shows it.
pub open spec fn is_known<P>(
    states: Seq<CrawlState<P>>,
    moves: Seq<Move>,
    n: int,
    k: Seq<char>,
) -> bool {
    ||| is_queued(states[0].crawl.queue@, k)
    ||| states[0].crawl.links@.contains_key(k)
    ||| exists|i: int|
        0 <= i < n && (match #[trigger] moves[i] {
            Move::Page(Some(shown)) => shown.contains_key(k),
            _ => false,
        })
}

/// A crawl takes up no link but those it started from and those that its pages show.
pub proof fn only_known_links_are_in_hand<P, F: Fn(&P, &str, &str) -> bool>(
    can_fetch: F,
    active: Seq<bool>,
    states: Seq<CrawlState<P>>,
    moves: Seq<Move>,
    i: int,
    k: Seq<char>,
)
    requires
        is_course(can_fetch, active, states, moves),
        0 <= i < states.len(),
        is_queued(states[i].crawl.queue@, k) || states[i].crawl.links@.contains_key(k) || (
        states[i].site.links_visited@.contains_key(k)
            && !states[0].site.links_visited@.contains_key(k)),
    ensures
        is_known(states, moves, i, k),
    decreases i,
{
    if i > 0 {
        let before = states[i - 1];
        let after = states[i];
        let by = moves[i - 1];
        assert(is_move(can_fetch, active[i - 1], before, by, after));
        if is_queued(after.crawl.queue@, k) {
            let n = choose|n: int|
                0 <= n < after.crawl.queue@.len() && fold((#[trigger] after.crawl.queue@[n])@) == k;
            match by {
                Move::Link(_) => {
                    assert(after.crawl.queue@[n] == before.crawl.queue@[n]);
                },
                Move::Page(_) => {},
                Move::PassEnd => {
                    if after.crawl.phase is Streaming {
                        assert(texts(after.crawl.queue@)[n] == after.crawl.queue@[n]@);
                        assert(before.crawl.links@.contains_key(k));
                    }
                },
            }
        } else if after.site.links_visited@.contains_key(k)
            && !before.site.links_visited@.contains_key(k) {
            assert(fold(before.crawl.queue@[before.crawl.queue@.len() - 1]@) == k);
        }
        if is_queued(before.crawl.queue@, k) || before.crawl.links@.contains_key(k) || (
        before.site.links_visited@.contains_key(k)
            && !states[0].site.links_visited@.contains_key(k)) {
            only_known_links_are_in_hand(can_fetch, active, states, moves, i - 1, k);
        } else {
            assert(moves[i - 1] is Page);
        }
    }
}

/// A crawl visits no link but those it started from and those that its pages show.
pub proof fn only_known_links_are_visited<P, F: Fn(&P, &str, &str) -> bool>(
    can_fetch: F,
    active: Seq<bool>,
    states: Seq<CrawlState<P>>,
    moves: Seq<Move>,
    k: Seq<char>,
)
    requires
        is_course(can_fetch, active, states, moves),
        states.last().site.links_visited@.contains_key(k),
        !states[0].site.links_visited@.contains_key(k),
    ensures
        is_known(states, moves, moves.len() as int, k),
{
    only_known_links_are_in_hand(can_fetch, active, states, moves, states.len() - 1, k);
}

/// The decisions of a crawl: for each move, the link that it fetched, if it did.
pub open spec fn crawl_decisions<P>(
    states: Seq<CrawlState<P>>,
    moves: Seq<Move>,
) -> Seq<Decision> {
    Seq::new(
        moves.len(),
        |i: int|
            Decision {
                before: states[i].site.links_visited@,
                link: match moves[i] {
                    Move::Link(LinkStep::Fetch(link)) => link@,
                    _ => Seq::empty(),
                },
                fetched: moves[i] matches Move::Link(LinkStep::Fetch(_)),
                after: states[i + 1].site.links_visited@,
            },
    )
}

/// The decisions of a crawl are sound, and nothing but them changes the visited links.
pub proof fn crawls_are_histories<P, F: Fn(&P, &str, &str) -> bool>(
    can_fetch: F,
    active: Seq<bool>,
    states: Seq<CrawlState<P>>,
    moves: Seq<Move>,
)
    requires
        is_course(can_fetch, active, states, moves),
    ensures
        is_history(crawl_decisions(states, moves)),
{
    let decisions = crawl_decisions(states, moves);
    assert forall|i: int| 0 <= i < decisions.len() implies (#[trigger] decisions[i]).is_sound() by {
        assert(is_move(can_fetch, active[i], states[i], moves[i], states[i + 1]));
    }
}

/// In the course of a crawl no visited link is lost.
pub proof fn visited_links_are_kept<P, F: Fn(&P, &str, &str) -> bool>(
    can_fetch: F,
    active: Seq<bool>,
    states: Seq<CrawlState<P>>,
    moves: Seq<Move>,
    i: int,
    j: int,
)
    requires
        is_course(can_fetch, active, states, moves),
        0 <= i <= j < states.len(),
    ensures
        states[i].site.links_visited@.dom().subset_of(states[j].site.links_visited@.dom()),
{
    let decisions = crawl_decisions(states, moves);
    crawls_are_histories(can_fetch, active, states, moves);
    if i < j {
        assert(decisions[i].is_sound());
        assert forall|k: Seq<char>| states[i].site.links_visited@.contains_key(
            k,
        ) implies states[j].site.links_visited@.contains_key(k) by {
            visited_links_stay(decisions, i, j - 1, k);
        }
    }
}

/// A crawl under a client fetches no link twice, whatever the case of its letters, and none that
/// had been visited before it.
pub proof fn crawls_fetch_links_once<P, F: Fn(&P, &str, &str) -> bool>(
    can_fetch: F,
    active: Seq<bool>,
    states: Seq<CrawlState<P>>,
    moves: Seq<Move>,
    i: int,
    j: int,
    first: String,
    second: String,
)
    requires
        is_course(can_fetch, active, states, moves),
        0 <= i < j < moves.len(),
        moves[i] == Move::Link(LinkStep::Fetch(first)),
        moves[j] == Move::Link(LinkStep::Fetch(second)),
    ensures
        fold(first@) != fold(second@),
        !states[0].site.links_visited@.contains_key(fold(first@)),
        !states[0].site.links_visited@.contains_key(fold(second@)),
{
    let decisions = crawl_decisions(states, moves);
    crawls_are_histories(can_fetch, active, states, moves);
    links_are_fetched_once(decisions, i, j);
    if decisions[0].before.contains_key(fold(first@)) {
        visited_links_are_not_fetched(decisions, 0, i);
    }
    if decisions[0].before.contains_key(fold(second@)) {
        visited_links_are_not_fetched(decisions, 0, j);
    }
}

/// In a crawl whose first links are unvisited, the links that are still to be visited have never
/// been visited, and no visited link is lost.
pub proof fn crawls_keep_visited_links_apart<P, F: Fn(&P, &str, &str) -> bool>(
    can_fetch: F,
    active: Seq<bool>,
    start: Website<P>,
    states: Seq<CrawlState<P>>,
    moves: Seq<Move>,
    i: int,
)
    requires
        start.links_unvisited(),
        is_course(can_fetch, active, states, moves),
        start.starts_crawl(states[0].crawl, states[0].site),
        0 <= i < states.len(),
    ensures
        states[i].site.links_unvisited(),
        states[i].crawl.is_fresh(states[i].site.links_visited@),
        start.links_visited@.dom().subset_of(states[i].site.links_visited@.dom()),
    decreases i,
{
    crawls_change_visited_links_only(can_fetch, active, states, moves, i);
    visited_links_are_kept(can_fetch, active, states, moves, 0, i);
    if i > 0 {
        crawls_keep_visited_links_apart(can_fetch, active, start, states, moves, i - 1);
        let before = states[i - 1];
        assert(is_move(can_fetch, active[i - 1], before, moves[i - 1], states[i]));
        match moves[i - 1] {
            Move::Link(step) => {
                if before.crawl.queue@.len() > 0 {
                    rest_is_unvisited(
                        before.crawl.queue@,
                        before.site.links_visited@,
                        step is Fetch,
                    );
                }
            },
            _ => {},
        }
    }
}

/// The client has called the crawl off by the move `i`.
pub open spec fn is_called_off(active: Seq<bool>, i: int) -> bool {
    forall|j: int| i <= j < active.len() ==> !(#[trigger] active[j])
}

/// Once a crawl is called off, nothing more is fetched, the website stays as it is, and at most
/// two more moves follow.
pub proof fn called_off_crawls_end<P, F: Fn(&P, &str, &str) -> bool>(
    can_fetch: F,
    active: Seq<bool>,
    states: Seq<CrawlState<P>>,
    moves: Seq<Move>,
    i: int,
)
    requires
        is_course(can_fetch, active, states, moves),
        0 <= i < states.len(),
        is_called_off(active, i),
    ensures
        moves.len() <= i + 2,
        forall|j: int| i <= j < states.len() ==> (#[trigger] states[j]).site == states[i].site,
        forall|j: int|
            i <= j < moves.len() ==> !((#[trigger] moves[j]) matches Move::Link(
                LinkStep::Fetch(_),
            )),
{
    if i < moves.len() {
        assert(is_move(can_fetch, active[i], states[i], moves[i], states[i + 1]));
    }
    if i + 1 < moves.len() {
        assert(is_move(can_fetch, active[i + 1], states[i + 1], moves[i + 1], states[i + 2]));
    }
    if i + 2 < moves.len() {
        assert(is_move(can_fetch, active[i + 2], states[i + 2], moves[i + 2], states[i + 3]));
    }
}

} // verus!
