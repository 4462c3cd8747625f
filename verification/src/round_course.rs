//! What holds of a crawl by rounds from its start to its end: every link that a page shows is
//! visited, unless it is blacklisted or `robots.txt` forbids it, and no other link is.

use crate::course::{
    all_in, decided_is_settled, is_forbidden, is_queued, is_settled_in, listed_is_queued,
    queued_in, queued_or_last, same_settings, settled_stays,
};
use crate::crawl::{rest_is_unvisited, unvisited_once, LinkStep, Round};
use crate::laws::{
    is_history, links_are_fetched_once, visited_links_are_not_fetched, visited_links_stay, Decision,
};
use crate::link_set::no_links;
use crate::text::{fold, texts};
use crate::website::Website;
use vstd::prelude::*;

verus! {

/// A move of a crawl by rounds.
pub enum RoundMove {
    /// A round began.
    Begin,
    /// The next link was taken.
    Link(LinkStep),
    /// A page came, with the links it shows.
    Page(Map<Seq<char>, Seq<char>>),
    /// The round ended, after its last link was taken.
    End,
}

/// A crawl by rounds: its website, and the round that is on.
pub struct RoundState<P> {
    pub site: Website<P>,
    pub round: Option<Round>,
}

/// What a move of a crawl by rounds does.
pub open spec fn is_round_move<P, F: Fn(&P, &str, &str) -> bool>(
    can_fetch: F,
    before: RoundState<P>,
    by: RoundMove,
    after: RoundState<P>,
) -> bool {
    match by {
        RoundMove::Begin => {
            &&& before.round is None
            &&& before.site.links@ != no_links()
            &&& after.site == before.site
            &&& after.round is Some
            &&& after.round->0.starts(before.site.links@)
        },
        RoundMove::Link(step) => {
            &&& before.round is Some
            &&& after.round is Some
            &&& before.round->0.takes_link(
                before.site,
                can_fetch,
                step,
                after.round->0,
                after.site,
            )
        },
        RoundMove::Page(shown) => {
            &&& before.round is Some
            &&& after.round is Some
            &&& after.site == before.site
            &&& before.round->0.receives(shown, after.round->0)
        },
        RoundMove::End => {
            &&& before.round is Some
            &&& before.round->0.queue@.len() == 0
            &&& after.round is None
            &&& before.site.ends_round(before.round->0, after.site)
        },
    }
}

/// The course of a crawl by rounds, from its start on.
pub open spec fn is_round_course<P, F: Fn(&P, &str, &str) -> bool>(
    can_fetch: F,
    states: Seq<RoundState<P>>,
    moves: Seq<RoundMove>,
) -> bool {
    &&& states.len() == moves.len() + 1
    &&& states[0].round is None
    &&& forall|i: int|
        0 <= i < moves.len() ==> is_round_move(
            can_fetch,
            states[i],
            #[trigger] moves[i],
            states[i + 1],
        )
}

/// The crawl by rounds is over: no round is on, and there is no link for a further one.
pub open spec fn is_over<P>(state: RoundState<P>) -> bool {
    &&& state.round is None
    &&& state.site.links@ == no_links()
}

/// The links that a crawl by rounds starts from and those that its pages show are some of
/// `links`.
pub open spec fn is_round_course_in<P>(
    links: Set<Seq<char>>,
    states: Seq<RoundState<P>>,
    moves: Seq<RoundMove>,
) -> bool {
    &&& all_in(states[0].site.links@, links)
    &&& forall|i: int|
        0 <= i < moves.len() ==> (match #[trigger] moves[i] {
            RoundMove::Page(shown) => all_in(shown, links),
            _ => true,
        })
}

/// The link with the folded form `k` is settled or will be: it waits in this round or the next.
pub open spec fn is_in_round<P, F: Fn(&P, &str, &str) -> bool>(
    can_fetch: F,
    links: Set<Seq<char>>,
    state: RoundState<P>,
    k: Seq<char>,
) -> bool {
    ||| is_settled_in(state.site, can_fetch, links, k)
    ||| match state.round {
        Some(round) => is_queued(round.queue@, k) || round.new_links@.contains_key(k),
        None => state.site.links@.contains_key(k),
    }
}

/// A crawl by rounds changes nothing of a website but its links and its visited links.
pub proof fn rounds_change_links_only<P, F: Fn(&P, &str, &str) -> bool>(
    can_fetch: F,
    states: Seq<RoundState<P>>,
    moves: Seq<RoundMove>,
    i: int,
)
    requires
        is_round_course(can_fetch, states, moves),
        0 <= i < states.len(),
    ensures
        same_settings(states[i].site, states[0].site),
        states[i].site.sitemap_url == states[0].site.sitemap_url,
        states[i].site.sitemaps_pending == states[0].site.sitemaps_pending,
        states[i].site.sitemaps_known == states[0].site.sitemaps_known,
    decreases i,
{
    if i > 0 {
        rounds_change_links_only(can_fetch, states, moves, i - 1);
        assert(is_round_move(can_fetch, states[i - 1], moves[i - 1], states[i]));
    }
}

/// The links of a crawl by rounds are spelled as those it started from and those that its pages
/// show.
pub proof fn links_of_rounds_keep_their_spelling<P, F: Fn(&P, &str, &str) -> bool>(
    can_fetch: F,
    links: Set<Seq<char>>,
    states: Seq<RoundState<P>>,
    moves: Seq<RoundMove>,
    i: int,
)
    requires
        is_round_course(can_fetch, states, moves),
        is_round_course_in(links, states, moves),
        0 <= i < states.len(),
    ensures
        all_in(states[i].site.links@, links),
        states[i].round is Some ==> queued_in(states[i].round->0.queue@, links) && all_in(
            states[i].round->0.new_links@,
            links,
        ),
    decreases i,
{
    if i > 0 {
        links_of_rounds_keep_their_spelling(can_fetch, links, states, moves, i - 1);
        let before = states[i - 1];
        let after = states[i];
        assert(is_round_move(can_fetch, before, moves[i - 1], after));
        match moves[i - 1] {
            RoundMove::Begin => {
                let queue = after.round->0.queue@;
                assert forall|n: int| 0 <= n < queue.len() implies links.contains(
                    (#[trigger] queue[n])@,
                ) by {
                    assert(texts(queue)[n] == queue[n]@);
                    assert(before.site.links@.contains_key(fold(queue[n]@)));
                }
            },
            RoundMove::Link(_) => {
                let queue = after.round->0.queue@;
                assert forall|n: int| 0 <= n < queue.len() implies links.contains(
                    (#[trigger] queue[n])@,
                ) by {
                    assert(queue[n] == before.round->0.queue@[n]);
                }
            },
            RoundMove::Page(shown) => {
                let found = after.round->0.new_links@;
                assert(all_in(shown, links));
                assert forall|k: Seq<char>| #[trigger] found.contains_key(k) implies links.contains(
                    found[k],
                ) by {
                    assert(before.round->0.new_links@.contains_key(k) || shown.contains_key(k));
                }
            },
            RoundMove::End => {
                assert forall|k: Seq<char>| #[trigger]
                    after.site.links@.contains_key(k) implies links.contains(
                    after.site.links@[k],
                ) by {
                    assert(before.round->0.new_links@.contains_key(k));
                }
            },
        }
    }
}

/// A link that waits in a round stays there until it is settled.
proof fn links_stay_in_round<P, F: Fn(&P, &str, &str) -> bool>(
    can_fetch: F,
    links: Set<Seq<char>>,
    states: Seq<RoundState<P>>,
    moves: Seq<RoundMove>,
    i: int,
    j: int,
    k: Seq<char>,
)
    requires
        is_round_course(can_fetch, states, moves),
        is_round_course_in(links, states, moves),
        0 <= i <= j < states.len(),
        is_in_round(can_fetch, links, states[i], k),
    ensures
        is_in_round(can_fetch, links, states[j], k),
    decreases j - i,
{
    if i < j {
        links_stay_in_round(can_fetch, links, states, moves, i, j - 1, k);
        links_of_rounds_keep_their_spelling(can_fetch, links, states, moves, j - 1);
        let before = states[j - 1];
        let after = states[j];
        assert(is_round_move(can_fetch, before, moves[j - 1], after));
        if is_settled_in(before.site, can_fetch, links, k) {
            settled_stays(before.site, after.site, can_fetch, links, k);
        } else {
            match moves[j - 1] {
                RoundMove::Begin => {
                    listed_is_queued(after.round->0.queue@, before.site.links@, k);
                },
                RoundMove::Link(step) => {
                    let queue = before.round->0.queue@;
                    if is_queued(queue, k) {
                        queued_or_last(queue, k);
                        if fold(queue.last()@) == k {
                            assert(links.contains(queue[queue.len() - 1]@));
                            decided_is_settled(
                                before.site,
                                can_fetch,
                                links,
                                queue.last()@,
                                step is Fetch,
                                after.site,
                            );
                        }
                    }
                },
                RoundMove::Page(_) => {},
                RoundMove::End => {},
            }
        }
    }
}

/// At the end of a crawl by rounds every link that it knows has been visited, unless it is
/// forbidden in a spelling that it has among `links`, where those are all the links that the crawl
/// started from and that its pages show.
pub proof fn known_links_of_rounds_are_settled<P, F: Fn(&P, &str, &str) -> bool>(
    can_fetch: F,
    links: Set<Seq<char>>,
    states: Seq<RoundState<P>>,
    moves: Seq<RoundMove>,
    k: Seq<char>,
)
    requires
        is_round_course(can_fetch, states, moves),
        is_round_course_in(links, states, moves),
        is_over(states.last()),
        is_known_to_rounds(states, moves, moves.len() as int, k),
    ensures
        is_settled_in(states.last().site, can_fetch, links, k),
{
    let last = states.len() - 1;
    if states[0].site.links@.contains_key(k) {
        links_stay_in_round(can_fetch, links, states, moves, 0, last, k);
    } else {
        let i = choose|i: int|
            0 <= i < moves.len() && (match #[trigger] moves[i] {
                RoundMove::Page(shown) => shown.contains_key(k),
                _ => false,
            });
        assert(is_round_move(can_fetch, states[i], moves[i], states[i + 1]));
        assert(is_in_round(can_fetch, links, states[i + 1], k));
        links_stay_in_round(can_fetch, links, states, moves, i + 1, last, k);
    }
}

/// A link that a crawl by rounds starts from waits for the first round, then for its turn in it,
/// until it is visited or found to be forbidden.
proof fn first_links_wait_for_their_round<P, F: Fn(&P, &str, &str) -> bool>(
    can_fetch: F,
    states: Seq<RoundState<P>>,
    moves: Seq<RoundMove>,
    k: Seq<char>,
    j: int,
)
    requires
        is_round_course(can_fetch, states, moves),
        states[0].site.links@.contains_key(k),
        fold(states[0].site.links@[k]) == k,
        0 <= j < states.len(),
    ensures
        ({
            let link = states[0].site.links@[k];
            ||| is_settled_in(states[j].site, can_fetch, set![link], k)
            ||| match states[j].round {
                Some(round) => exists|n: int|
                    0 <= n < round.queue@.len() && (#[trigger] round.queue@[n])@ == link,
                None => states[j].site.links@ == states[0].site.links@,
            }
        }),
    decreases j,
{
    if j > 0 {
        first_links_wait_for_their_round(can_fetch, states, moves, k, j - 1);
        let link = states[0].site.links@[k];
        let before = states[j - 1];
        let after = states[j];
        assert(is_round_move(can_fetch, before, moves[j - 1], after));
        if is_settled_in(before.site, can_fetch, set![link], k) {
            settled_stays(before.site, after.site, can_fetch, set![link], k);
        } else {
            match moves[j - 1] {
                RoundMove::Begin => {
                    let queue = after.round->0.queue@;
                    listed_is_queued(queue, before.site.links@, k);
                    let n = choose|n: int|
                        0 <= n < queue.len() && fold((#[trigger] queue[n])@) == k;
                    assert(texts(queue)[n] == queue[n]@);
                },
                RoundMove::Link(step) => {
                    let queue = before.round->0.queue@;
                    let n = choose|n: int|
                        0 <= n < queue.len() && (#[trigger] queue[n])@ == link;
                    if n == queue.len() - 1 {
                        decided_is_settled(
                            before.site,
                            can_fetch,
                            set![link],
                            link,
                            step is Fetch,
                            after.site,
                        );
                    } else {
                        assert(after.round->0.queue@[n] == queue[n]);
                    }
                },
                RoundMove::Page(_) => {},
                RoundMove::End => {},
            }
        }
    }
}

/// At the end of a crawl by rounds every link that it started from has been visited, unless it
/// is blacklisted or `robots.txt` forbids it.
pub proof fn first_links_of_rounds_are_settled<P, F: Fn(&P, &str, &str) -> bool>(
    can_fetch: F,
    states: Seq<RoundState<P>>,
    moves: Seq<RoundMove>,
    link: Seq<char>,
)
    requires
        is_round_course(can_fetch, states, moves),
        is_over(states.last()),
        states[0].site.links@.contains_key(fold(link)),
        states[0].site.links@[fold(link)] == link,
    ensures
        states.last().site.is_visited(link) || is_forbidden(states.last().site, can_fetch, link),
{
    first_links_wait_for_their_round(can_fetch, states, moves, fold(link), states.len() - 1);
}

/// The crawl by rounds started from `link`, in this spelling, or one of its pages shows it.
pub open spec fn is_spelled_in_rounds<P>(
    states: Seq<RoundState<P>>,
    moves: Seq<RoundMove>,
    link: Seq<char>,
) -> bool {
    ||| states[0].site.links@.contains_value(link)
    ||| exists|i: int|
        0 <= i < moves.len() && (match #[trigger] moves[i] {
            RoundMove::Page(shown) => shown.contains_value(link),
            _ => false,
        })
}

/// At the end of a crawl by rounds every link that any of its pages showed has been visited,
/// unless it is blacklisted or forbidden by `robots.txt` in a spelling that the crawl started from
/// or a page shows.
pub proof fn shown_links_of_rounds_are_settled<P, F: Fn(&P, &str, &str) -> bool>(
    can_fetch: F,
    states: Seq<RoundState<P>>,
    moves: Seq<RoundMove>,
    i: int,
    shown: Map<Seq<char>, Seq<char>>,
    k: Seq<char>,
)
    requires
        is_round_course(can_fetch, states, moves),
        is_over(states.last()),
        0 <= i < moves.len(),
        moves[i] == RoundMove::Page(shown),
        shown.contains_key(k),
    ensures
        states.last().site.links_visited@.contains_key(k) || exists|link: Seq<char>| #[trigger]
            fold(link) == k && is_spelled_in_rounds(states, moves, link) && is_forbidden(
                states.last().site,
                can_fetch,
                link,
            ),
{
    let links = Set::new(|link: Seq<char>| is_spelled_in_rounds(states, moves, link));
    assert forall|j: int| 0 <= j < moves.len() implies (match #[trigger] moves[j] {
        RoundMove::Page(shown) => all_in(shown, links),
        _ => true,
    }) by {
        if let RoundMove::Page(shown) = moves[j] {
            assert forall|k: Seq<char>| #[trigger] shown.contains_key(k) implies links.contains(
                shown[k],
            ) by {
                assert(shown.contains_value(shown[k]));
            }
        }
    }
    assert forall|k: Seq<char>| #[trigger]
        states[0].site.links@.contains_key(k) implies links.contains(states[0].site.links@[k]) by {
        assert(states[0].site.links@.contains_value(states[0].site.links@[k]));
    }
    known_links_of_rounds_are_settled(can_fetch, links, states, moves, k);
}

/// The crawl by rounds started from the link with the folded form `k`, or one of its first `n`
/// moves brought a page that shows it.
pub open spec fn is_known_to_rounds<P>(
    states: Seq<RoundState<P>>,
    moves: Seq<RoundMove>,
    n: int,
    k: Seq<char>,
) -> bool {
    ||| states[0].site.links@.contains_key(k)
    ||| exists|i: int|
        0 <= i < n && (match #[trigger] moves[i] {
            RoundMove::Page(shown) => shown.contains_key(k),
            _ => false,
        })
}

/// The link with the folded form `k` is one that a crawl by rounds has taken up.
pub open spec fn is_taken_up<P>(
    start: Website<P>,
    state: RoundState<P>,
    k: Seq<char>,
) -> bool {
    ||| state.site.links@.contains_key(k)
    ||| state.round is Some && (is_queued(state.round->0.queue@, k)
        || state.round->0.new_links@.contains_key(k))
    ||| state.site.links_visited@.contains_key(k) && !start.links_visited@.contains_key(k)
}

/// A crawl by rounds takes up no link but those it started from and those that its pages show.
pub proof fn only_known_links_are_taken_up<P, F: Fn(&P, &str, &str) -> bool>(
    can_fetch: F,
    states: Seq<RoundState<P>>,
    moves: Seq<RoundMove>,
    i: int,
    k: Seq<char>,
)
    requires
        is_round_course(can_fetch, states, moves),
        0 <= i < states.len(),
        is_taken_up(states[0].site, states[i], k),
    ensures
        is_known_to_rounds(states, moves, i, k),
    decreases i,
{
    if i > 0 {
        let before = states[i - 1];
        let after = states[i];
        let by = moves[i - 1];
        assert(is_round_move(can_fetch, before, by, after));
        if after.round is Some && is_queued(after.round->0.queue@, k) {
            let queue = after.round->0.queue@;
            let n = choose|n: int| 0 <= n < queue.len() && fold((#[trigger] queue[n])@) == k;
            match by {
                RoundMove::Begin => {
                    assert(texts(queue)[n] == queue[n]@);
                    assert(before.site.links@.contains_key(k));
                },
                RoundMove::Link(_) => {
                    assert(queue[n] == before.round->0.queue@[n]);
                },
                _ => {},
            }
        } else if after.site.links_visited@.contains_key(k)
            && !before.site.links_visited@.contains_key(k) {
            let queue = before.round->0.queue@;
            assert(fold(queue[queue.len() - 1]@) == k);
        }
        if is_taken_up(states[0].site, before, k) {
            only_known_links_are_taken_up(can_fetch, states, moves, i - 1, k);
        } else {
            assert(moves[i - 1] is Page);
        }
    }
}

/// A crawl by rounds visits no link but those it started from and those that its pages show.
pub proof fn only_known_links_are_visited_by_rounds<P, F: Fn(&P, &str, &str) -> bool>(
    can_fetch: F,
    states: Seq<RoundState<P>>,
    moves: Seq<RoundMove>,
    k: Seq<char>,
)
    requires
        is_round_course(can_fetch, states, moves),
        states.last().site.links_visited@.contains_key(k),
        !states[0].site.links_visited@.contains_key(k),
    ensures
        is_known_to_rounds(states, moves, moves.len() as int, k),
{
    only_known_links_are_taken_up(can_fetch, states, moves, states.len() - 1, k);
}

/// The decisions of a crawl by rounds: for each move, the link that it fetched, if it did.
pub open spec fn round_decisions<P>(
    states: Seq<RoundState<P>>,
    moves: Seq<RoundMove>,
) -> Seq<Decision> {
    Seq::new(
        moves.len(),
        |i: int|
            Decision {
                before: states[i].site.links_visited@,
                link: match moves[i] {
                    RoundMove::Link(LinkStep::Fetch(link)) => link@,
                    _ => Seq::empty(),
                },
                fetched: moves[i] matches RoundMove::Link(LinkStep::Fetch(_)),
                after: states[i + 1].site.links_visited@,
            },
    )
}

/// The decisions of a crawl by rounds are sound, and nothing but them changes the visited links.
pub proof fn rounds_are_histories<P, F: Fn(&P, &str, &str) -> bool>(
    can_fetch: F,
    states: Seq<RoundState<P>>,
    moves: Seq<RoundMove>,
)
    requires
        is_round_course(can_fetch, states, moves),
    ensures
        is_history(round_decisions(states, moves)),
{
    let decisions = round_decisions(states, moves);
    assert forall|i: int| 0 <= i < decisions.len() implies (#[trigger] decisions[i]).is_sound() by {
        assert(is_round_move(can_fetch, states[i], moves[i], states[i + 1]));
    }
}

/// In the course of a crawl by rounds no visited link is lost.
pub proof fn visited_links_are_kept_by_rounds<P, F: Fn(&P, &str, &str) -> bool>(
    can_fetch: F,
    states: Seq<RoundState<P>>,
    moves: Seq<RoundMove>,
    i: int,
    j: int,
)
    requires
        is_round_course(can_fetch, states, moves),
        0 <= i <= j < states.len(),
    ensures
        states[i].site.links_visited@.dom().subset_of(states[j].site.links_visited@.dom()),
{
    let decisions = round_decisions(states, moves);
    rounds_are_histories(can_fetch, states, moves);
    if i < j {
        assert(decisions[i].is_sound());
        assert forall|k: Seq<char>| states[i].site.links_visited@.contains_key(
            k,
        ) implies states[j].site.links_visited@.contains_key(k) by {
            visited_links_stay(decisions, i, j - 1, k);
        }
    }
}

/// A crawl by rounds fetches no link twice, whatever the case of its letters, and none that had
/// been visited before it.
pub proof fn rounds_fetch_links_once<P, F: Fn(&P, &str, &str) -> bool>(
    can_fetch: F,
    states: Seq<RoundState<P>>,
    moves: Seq<RoundMove>,
    i: int,
    j: int,
    first: String,
    second: String,
)
    requires
        is_round_course(can_fetch, states, moves),
        0 <= i < j < moves.len(),
        moves[i] == RoundMove::Link(LinkStep::Fetch(first)),
        moves[j] == RoundMove::Link(LinkStep::Fetch(second)),
    ensures
        fold(first@) != fold(second@),
        !states[0].site.links_visited@.contains_key(fold(first@)),
        !states[0].site.links_visited@.contains_key(fold(second@)),
{
    let decisions = round_decisions(states, moves);
    rounds_are_histories(can_fetch, states, moves);
    links_are_fetched_once(decisions, i, j);
    if decisions[0].before.contains_key(fold(first@)) {
        visited_links_are_not_fetched(decisions, 0, i);
    }
    if decisions[0].before.contains_key(fold(second@)) {
        visited_links_are_not_fetched(decisions, 0, j);
    }
}

/// In a crawl by rounds whose first links are unvisited, the links of the website are unvisited
/// again between two rounds and at the end; in a round, those that are left of it have never been
/// visited. No visited link is lost.
pub proof fn rounds_keep_visited_links_apart<P, F: Fn(&P, &str, &str) -> bool>(
    can_fetch: F,
    states: Seq<RoundState<P>>,
    moves: Seq<RoundMove>,
    i: int,
)
    requires
        states[0].site.links_unvisited(),
        is_round_course(can_fetch, states, moves),
        0 <= i < states.len(),
    ensures
        match states[i].round {
            Some(round) => unvisited_once(texts(round.queue@), states[i].site.links_visited@),
            None => states[i].site.links_unvisited(),
        },
        states[0].site.links_visited@.dom().subset_of(states[i].site.links_visited@.dom()),
    decreases i,
{
    visited_links_are_kept_by_rounds(can_fetch, states, moves, 0, i);
    if i > 0 {
        rounds_keep_visited_links_apart(can_fetch, states, moves, i - 1);
        let before = states[i - 1];
        assert(is_round_move(can_fetch, before, moves[i - 1], states[i]));
        match moves[i - 1] {
            RoundMove::Link(step) => {
                if before.round->0.queue@.len() > 0 {
                    rest_is_unvisited(
                        before.round->0.queue@,
                        before.site.links_visited@,
                        step is Fetch,
                    );
                }
            },
            _ => {},
        }
    }
}

/// Once a crawl by rounds is over, a further one makes no move: it fetches nothing and leaves the
/// visited links as they are, and none of them is allowed any more.
pub proof fn second_crawls_fetch_nothing<P, F: Fn(&P, &str, &str) -> bool>(
    can_fetch: F,
    states: Seq<RoundState<P>>,
    moves: Seq<RoundMove>,
    again: Seq<RoundState<P>>,
    moves_again: Seq<RoundMove>,
)
    requires
        is_round_course(can_fetch, states, moves),
        is_over(states.last()),
        is_round_course(can_fetch, again, moves_again),
        again[0].site.links@ == states.last().site.links@,
        again[0].site.links_visited@ == states.last().site.links_visited@,
    ensures
        moves_again.len() == 0,
        again.last().site.links_visited@ == states.last().site.links_visited@,
        forall|link: &str, verdict: bool|
            states.last().site.is_visited(link@) && #[trigger] again.last().site.allowed_verdict(
                can_fetch,
                link,
                verdict,
            ) ==> !verdict,
{
    if moves_again.len() > 0 {
        assert(is_round_move(can_fetch, again[0], moves_again[0], again[1]));
    }
}

} // verus!
