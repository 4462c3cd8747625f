//! The two ways through a website visit the same links, where both are shown the same pages.

use crate::course::{
    crawl_decisions, crawls_are_histories, crawls_change_visited_links_only, is_course,
    is_course_in, is_forbidden, is_known, is_move, is_queued, is_settled_in, is_wanted,
    known_links_are_settled, links_keep_their_spelling, listed_is_queued,
    only_known_links_are_in_hand, same_settings, visited_links_are_kept, CrawlState, Move,
};
use crate::crawl::LinkStep;
use crate::laws::{
    is_history, links_are_fetched_once, visited_links_are_not_fetched, visited_links_stay,
    visited_links_were_fetched, Decision,
};
use crate::link_set::no_links;
use crate::round_course::{
    is_known_to_rounds, is_over, is_round_course, is_round_course_in, is_round_move, is_taken_up,
    known_links_of_rounds_are_settled, links_of_rounds_keep_their_spelling,
    only_known_links_are_taken_up, round_decisions, rounds_are_histories, rounds_change_links_only,
    RoundMove, RoundState,
};
use crate::text::{fold, texts};
use crate::website::Website;
use vstd::prelude::*;

verus! {

/// What a crawl did, whichever way it took: the links it started from, the visited links before
/// and after it, and for each move its decision and the links of the page that it brought.
pub struct Trail {
    pub start: Set<Seq<char>>,
    pub before: Map<Seq<char>, Seq<char>>,
    pub after: Map<Seq<char>, Seq<char>>,
    pub decisions: Seq<Decision>,
    pub shown: Seq<Option<Map<Seq<char>, Seq<char>>>>,
}

/// No two links differ in the case of their letters alone.
pub open spec fn one_spelling(links: Set<Seq<char>>) -> bool {
    forall|a: Seq<char>, b: Seq<char>|
        links.contains(a) && links.contains(b) && #[trigger] fold(a) == #[trigger] fold(b) ==> a
            == b
}

/// `allows` says of each link whether the blacklist and `robots.txt` allow it.
pub open spec fn goes_by<P, F: Fn(&P, &str, &str) -> bool>(
    site: Website<P>,
    can_fetch: F,
    allows: spec_fn(Seq<char>) -> bool,
) -> bool {
    &&& forall|link: Seq<char>| #[trigger] site.is_blacklisted(link) ==> !allows(link)
    &&& forall|link: &str, verdict: bool|
        !site.is_blacklisted(link@) && #[trigger] site.robots_verdict(can_fetch, link, verdict)
            ==> verdict == allows(link@)
}

impl Trail {
    /// The crawl started from the link with the folded form `k`, or one of its first `n` moves
    /// brought a page that shows it.
    pub open spec fn knows(self, n: int, k: Seq<char>) -> bool {
        ||| self.start.contains(k)
        ||| exists|i: int|
            0 <= i < n && (match #[trigger] self.shown[i] {
                Some(shown) => shown.contains_key(k),
                None => false,
            })
    }

    /// The pages are those that `pages` gives for the links: each page that came is that of a link
    /// fetched before, and that of each link that is fetched comes later.
    pub open spec fn is_served(
        self,
        pages: spec_fn(Seq<char>) -> Map<Seq<char>, Seq<char>>,
    ) -> bool {
        &&& forall|i: int|
            0 <= i < self.shown.len() && (#[trigger] self.shown[i]) is Some ==> exists|j: int|
                0 <= j < i && (#[trigger] self.decisions[j]).fetched && self.shown[i] == Some(
                    pages(self.decisions[j].link),
                )
        &&& forall|i: int|
            0 <= i < self.decisions.len() && (#[trigger] self.decisions[i]).fetched
                ==> exists|j: int|
                i < j < self.shown.len() && #[trigger] self.shown[j] == Some(
                    pages(self.decisions[i].link),
                )
    }

    /// The crawl fetched links that it knew, that are some of `links` and that are allowed, and in
    /// the end each link that it knows has been visited or is not allowed.
    pub open spec fn is_complete(
        self,
        links: Set<Seq<char>>,
        allows: spec_fn(Seq<char>) -> bool,
    ) -> bool {
        &&& self.shown.len() == self.decisions.len()
        &&& is_history(self.decisions)
        &&& if self.decisions.len() == 0 {
            self.after == self.before
        } else {
            self.decisions[0].before == self.before && self.decisions.last().after == self.after
        }
        &&& forall|i: int|
            0 <= i < self.decisions.len() && (#[trigger] self.decisions[i]).fetched ==> {
                &&& self.knows(i, fold(self.decisions[i].link))
                &&& links.contains(self.decisions[i].link)
                &&& allows(self.decisions[i].link)
            }
        &&& forall|k: Seq<char>| #[trigger]
            self.knows(self.shown.len() as int, k) ==> self.after.contains_key(k)
                || exists|link: Seq<char>| #[trigger]
                fold(link) == k && links.contains(link) && !allows(link)
    }

    /// The link with the folded form `k` was visited by the crawl and not before it.
    pub open spec fn is_new(self, k: Seq<char>) -> bool {
        self.after.contains_key(k) && !self.before.contains_key(k)
    }
}

/// A link that a crawl visited first was fetched in one of its moves, in the spelling that is
/// kept.
proof fn new_links_were_fetched(
    trail: Trail,
    links: Set<Seq<char>>,
    allows: spec_fn(Seq<char>) -> bool,
    k: Seq<char>,
) -> (i: int)
    requires
        trail.is_complete(links, allows),
        trail.is_new(k),
    ensures
        0 <= i < trail.decisions.len(),
        trail.decisions[i].fetched,
        fold(trail.decisions[i].link) == k,
        trail.after[k] == trail.decisions[i].link,
{
    let last = trail.decisions.len() - 1;
    visited_links_were_fetched(trail.decisions, last, k);
    choose|i: int|
        0 <= i <= last && (#[trigger] trail.decisions[i]).fetched && fold(trail.decisions[i].link)
            == k && trail.after[k] == trail.decisions[i].link
}

/// A link that had been visited before a crawl keeps its spelling.
proof fn old_links_stay(
    trail: Trail,
    links: Set<Seq<char>>,
    allows: spec_fn(Seq<char>) -> bool,
    k: Seq<char>,
)
    requires
        trail.is_complete(links, allows),
        trail.after.contains_key(k),
        trail.before.contains_key(k),
    ensures
        trail.after[k] == trail.before[k],
{
    if trail.decisions.len() > 0 {
        let last = trail.decisions.len() - 1;
        visited_links_were_fetched(trail.decisions, last, k);
        if trail.after[k] != trail.before[k] {
            let i = choose|i: int|
                0 <= i <= last && (#[trigger] trail.decisions[i]).fetched && fold(
                    trail.decisions[i].link,
                ) == k && trail.after[k] == trail.decisions[i].link;
            visited_links_are_not_fetched(trail.decisions, 0, i);
        }
    }
}

/// What one crawl fetches, another has visited in the end.
proof fn fetched_links_are_visited_too(
    a: Trail,
    b: Trail,
    links: Set<Seq<char>>,
    allows: spec_fn(Seq<char>) -> bool,
    pages: spec_fn(Seq<char>) -> Map<Seq<char>, Seq<char>>,
    i: int,
)
    requires
        one_spelling(links),
        a.is_complete(links, allows),
        b.is_complete(links, allows),
        a.is_served(pages),
        b.is_served(pages),
        a.start == b.start,
        a.before == b.before,
        0 <= i < a.decisions.len(),
        a.decisions[i].fetched,
    ensures
        b.after.contains_key(fold(a.decisions[i].link)),
    decreases i,
{
    let k = fold(a.decisions[i].link);
    assert(a.knows(i, k));
    if !a.start.contains(k) {
        let j = choose|j: int|
            0 <= j < i && (match #[trigger] a.shown[j] {
                Some(shown) => shown.contains_key(k),
                None => false,
            });
        let h = choose|h: int|
            0 <= h < j && (#[trigger] a.decisions[h]).fetched && a.shown[j] == Some(
                pages(a.decisions[h].link),
            );
        let link = a.decisions[h].link;
        fetched_links_are_visited_too(a, b, links, allows, pages, h);
        if a.before.contains_key(fold(link)) {
            visited_links_are_not_fetched(a.decisions, 0, h);
        }
        let g = new_links_were_fetched(b, links, allows, fold(link));
        assert(fold(b.decisions[g].link) == fold(link));
        let n = choose|n: int|
            g < n < b.shown.len() && #[trigger] b.shown[n] == Some(pages(b.decisions[g].link));
        assert(b.shown[n]->0.contains_key(k));
    }
    assert(b.knows(b.shown.len() as int, k));
    if !b.after.contains_key(k) {
        let link = choose|link: Seq<char>| #[trigger]
            fold(link) == k && links.contains(link) && !allows(link);
        assert(fold(link) == fold(a.decisions[i].link));
    }
}

/// What one crawl has visited, another has too, in the same spelling.
proof fn visited_links_are_visited_too(
    a: Trail,
    b: Trail,
    links: Set<Seq<char>>,
    allows: spec_fn(Seq<char>) -> bool,
    pages: spec_fn(Seq<char>) -> Map<Seq<char>, Seq<char>>,
    k: Seq<char>,
)
    requires
        one_spelling(links),
        a.is_complete(links, allows),
        b.is_complete(links, allows),
        a.is_served(pages),
        b.is_served(pages),
        a.start == b.start,
        a.before == b.before,
        a.after.contains_key(k),
    ensures
        b.after.contains_key(k),
        b.after[k] == a.after[k],
{
    if a.before.contains_key(k) {
        if b.decisions.len() > 0 {
            assert(b.decisions[0].is_sound());
            visited_links_stay(b.decisions, 0, b.decisions.len() - 1, k);
        }
        old_links_stay(a, links, allows, k);
        old_links_stay(b, links, allows, k);
    } else {
        let i = new_links_were_fetched(a, links, allows, k);
        fetched_links_are_visited_too(a, b, links, allows, pages, i);
        let j = new_links_were_fetched(b, links, allows, k);
        assert(fold(a.decisions[i].link) == fold(b.decisions[j].link));
    }
}

/// Two crawls that start alike and are shown the same pages visit the same links.
pub proof fn trails_lead_alike(
    a: Trail,
    b: Trail,
    links: Set<Seq<char>>,
    allows: spec_fn(Seq<char>) -> bool,
    pages: spec_fn(Seq<char>) -> Map<Seq<char>, Seq<char>>,
)
    requires
        one_spelling(links),
        a.is_complete(links, allows),
        b.is_complete(links, allows),
        a.is_served(pages),
        b.is_served(pages),
        a.start == b.start,
        a.before == b.before,
    ensures
        a.after == b.after,
{
    assert forall|k: Seq<char>| #[trigger]
        a.after.dom().contains(k) implies b.after.dom().contains(k) && b.after[k] == a.after[k] by {
        visited_links_are_visited_too(a, b, links, allows, pages, k);
    }
    assert forall|k: Seq<char>| #[trigger] b.after.dom().contains(k) implies a.after.dom().contains(
        k,
    ) by {
        visited_links_are_visited_too(b, a, links, allows, pages, k);
    }
    assert(a.after =~= b.after);
}

/// What a crawl under a client did.
pub open spec fn crawl_trail<P>(states: Seq<CrawlState<P>>, moves: Seq<Move>) -> Trail {
    Trail {
        start: Set::new(
            |k: Seq<char>|
                is_queued(states[0].crawl.queue@, k) || states[0].crawl.links@.contains_key(k),
        ),
        before: states[0].site.links_visited@,
        after: states.last().site.links_visited@,
        decisions: crawl_decisions(states, moves),
        shown: Seq::new(
            moves.len(),
            |i: int|
                match moves[i] {
                    Move::Page(message) => message,
                    _ => None,
                },
        ),
    }
}

/// What a crawl by rounds did.
pub open spec fn round_trail<P>(states: Seq<RoundState<P>>, moves: Seq<RoundMove>) -> Trail {
    Trail {
        start: states[0].site.links@.dom(),
        before: states[0].site.links_visited@,
        after: states.last().site.links_visited@,
        decisions: round_decisions(states, moves),
        shown: Seq::new(
            moves.len(),
            |i: int|
                match moves[i] {
                    RoundMove::Page(shown) => Some(shown),
                    _ => None,
                },
        ),
    }
}

/// A link that was fetched is allowed.
proof fn fetched_is_allowed<P, F: Fn(&P, &str, &str) -> bool>(
    start: Website<P>,
    site: Website<P>,
    can_fetch: F,
    allows: spec_fn(Seq<char>) -> bool,
    link: Seq<char>,
    after: Website<P>,
)
    requires
        goes_by(start, can_fetch, allows),
        same_settings(site, start),
        site.takes(can_fetch, link, true, after),
    ensures
        allows(link),
{
    let spelled = choose|spelled: &str| #[trigger]
        spelled@ == link && site.allowed_verdict(can_fetch, spelled, true);
    assert(start.robots_verdict(can_fetch, spelled, true));
}

/// A link that is settled has been visited or is not allowed.
proof fn settled_is_visited_or_refused<P, F: Fn(&P, &str, &str) -> bool>(
    start: Website<P>,
    site: Website<P>,
    can_fetch: F,
    links: Set<Seq<char>>,
    allows: spec_fn(Seq<char>) -> bool,
    k: Seq<char>,
)
    requires
        goes_by(start, can_fetch, allows),
        same_settings(site, start),
        is_settled_in(site, can_fetch, links, k),
    ensures
        site.links_visited@.contains_key(k) || exists|link: Seq<char>| #[trigger]
            fold(link) == k && links.contains(link) && !allows(link),
{
    if !site.links_visited@.contains_key(k) {
        let link = choose|link: Seq<char>| #[trigger]
            fold(link) == k && links.contains(link) && is_forbidden(site, can_fetch, link);
        if start.is_blacklisted(link) {
            assert(!allows(link));
        } else {
            assert(!site.is_blacklisted(link));
            let spelled = choose|spelled: &str| #[trigger]
                spelled@ == link && site.robots_verdict(can_fetch, spelled, false);
            assert(start.robots_verdict(can_fetch, spelled, false));
        }
    }
}

/// What the same rules allow is the same.
proof fn rules_are_the_same<P, F: Fn(&P, &str, &str) -> bool>(
    can_fetch: F,
    allows: spec_fn(Seq<char>) -> bool,
    site: Website<P>,
    other: Website<P>,
)
    requires
        goes_by(site, can_fetch, allows),
        same_settings(site, other),
    ensures
        goes_by(other, can_fetch, allows),
{
    assert forall|link: Seq<char>| #[trigger] other.is_blacklisted(link) implies !allows(link) by {
        assert(site.is_blacklisted(link));
    }
    assert forall|link: &str, verdict: bool|
        !other.is_blacklisted(link@) && #[trigger] other.robots_verdict(
            can_fetch,
            link,
            verdict,
        ) implies verdict == allows(link@) by {
        assert(site.robots_verdict(can_fetch, link, verdict));
    }
}

/// A crawl under a client that does not call it off leaves a complete trail.
pub proof fn crawls_are_complete<P, F: Fn(&P, &str, &str) -> bool>(
    can_fetch: F,
    links: Set<Seq<char>>,
    allows: spec_fn(Seq<char>) -> bool,
    active: Seq<bool>,
    states: Seq<CrawlState<P>>,
    moves: Seq<Move>,
)
    requires
        goes_by(states[0].site, can_fetch, allows),
        is_course(can_fetch, active, states, moves),
        is_wanted(active),
        is_course_in(links, states, moves),
        states.last().crawl.phase is Finished,
    ensures
        crawl_trail(states, moves).is_complete(links, allows),
{
    let trail = crawl_trail(states, moves);
    crawls_are_histories(can_fetch, active, states, moves);
    assert forall|i: int|
        0 <= i < trail.decisions.len() && (#[trigger] trail.decisions[i]).fetched implies {
        &&& trail.knows(i, fold(trail.decisions[i].link))
        &&& links.contains(trail.decisions[i].link)
        &&& allows(trail.decisions[i].link)
    } by {
        assert(is_move(can_fetch, active[i], states[i], moves[i], states[i + 1]));
        let link = trail.decisions[i].link;
        let queue = states[i].crawl.queue@;
        assert(queue[queue.len() - 1]@ == link);
        links_keep_their_spelling(can_fetch, active, links, states, moves, i);
        crawls_change_visited_links_only(can_fetch, active, states, moves, i);
        fetched_is_allowed(
            states[0].site,
            states[i].site,
            can_fetch,
            allows,
            link,
            states[i + 1].site,
        );
        only_known_links_are_in_hand(can_fetch, active, states, moves, i, fold(link));
        if !trail.start.contains(fold(link)) {
            let j = choose|j: int|
                0 <= j < i && (match #[trigger] moves[j] {
                    Move::Page(Some(shown)) => shown.contains_key(fold(link)),
                    _ => false,
                });
            assert(trail.shown[j]->0.contains_key(fold(link)));
        }
    }
    assert forall|k: Seq<char>| #[trigger]
        trail.knows(trail.shown.len() as int, k) implies trail.after.contains_key(k)
        || exists|link: Seq<char>| #[trigger]
        fold(link) == k && links.contains(link) && !allows(link) by {
        if !trail.start.contains(k) {
            let j = choose|j: int|
                0 <= j < trail.shown.len() && (match #[trigger] trail.shown[j] {
                    Some(shown) => shown.contains_key(k),
                    None => false,
                });
            assert(moves[j] is Page);
        }
        assert(is_known(states, moves, moves.len() as int, k));
        known_links_are_settled(can_fetch, active, links, states, moves, k);
        crawls_change_visited_links_only(can_fetch, active, states, moves, states.len() - 1);
        settled_is_visited_or_refused(
            states[0].site,
            states.last().site,
            can_fetch,
            links,
            allows,
            k,
        );
    }
}

/// A crawl by rounds leaves a complete trail.
pub proof fn rounds_are_complete<P, F: Fn(&P, &str, &str) -> bool>(
    can_fetch: F,
    links: Set<Seq<char>>,
    allows: spec_fn(Seq<char>) -> bool,
    states: Seq<RoundState<P>>,
    moves: Seq<RoundMove>,
)
    requires
        goes_by(states[0].site, can_fetch, allows),
        is_round_course(can_fetch, states, moves),
        is_round_course_in(links, states, moves),
        is_over(states.last()),
    ensures
        round_trail(states, moves).is_complete(links, allows),
{
    let trail = round_trail(states, moves);
    rounds_are_histories(can_fetch, states, moves);
    assert forall|i: int|
        0 <= i < trail.decisions.len() && (#[trigger] trail.decisions[i]).fetched implies {
        &&& trail.knows(i, fold(trail.decisions[i].link))
        &&& links.contains(trail.decisions[i].link)
        &&& allows(trail.decisions[i].link)
    } by {
        assert(is_round_move(can_fetch, states[i], moves[i], states[i + 1]));
        let link = trail.decisions[i].link;
        let queue = states[i].round->0.queue@;
        assert(queue[queue.len() - 1]@ == link);
        links_of_rounds_keep_their_spelling(can_fetch, links, states, moves, i);
        rounds_change_links_only(can_fetch, states, moves, i);
        fetched_is_allowed(
            states[0].site,
            states[i].site,
            can_fetch,
            allows,
            link,
            states[i + 1].site,
        );
        assert(is_taken_up(states[0].site, states[i], fold(link)));
        only_known_links_are_taken_up(can_fetch, states, moves, i, fold(link));
        if !trail.start.contains(fold(link)) {
            let j = choose|j: int|
                0 <= j < i && (match #[trigger] moves[j] {
                    RoundMove::Page(shown) => shown.contains_key(fold(link)),
                    _ => false,
                });
            assert(trail.shown[j]->0.contains_key(fold(link)));
        }
    }
    assert forall|k: Seq<char>| #[trigger]
        trail.knows(trail.shown.len() as int, k) implies trail.after.contains_key(k)
        || exists|link: Seq<char>| #[trigger]
        fold(link) == k && links.contains(link) && !allows(link) by {
        if !trail.start.contains(k) {
            let j = choose|j: int|
                0 <= j < trail.shown.len() && (match #[trigger] trail.shown[j] {
                    Some(shown) => shown.contains_key(k),
                    None => false,
                });
            assert(moves[j] is Page);
        }
        assert(is_known_to_rounds(states, moves, moves.len() as int, k));
        known_links_of_rounds_are_settled(can_fetch, links, states, moves, k);
        rounds_change_links_only(can_fetch, states, moves, states.len() - 1);
        settled_is_visited_or_refused(
            states[0].site,
            states.last().site,
            can_fetch,
            links,
            allows,
            k,
        );
    }
}

/// A crawl by rounds and a crawl under a client that does not call it off, from the same website,
/// visit the same links, where both are shown the same pages, every page that is fetched comes, and
/// no two links differ in the case of their letters alone.
pub proof fn both_ways_visit_the_same_links<P, F: Fn(&P, &str, &str) -> bool>(
    can_fetch: F,
    links: Set<Seq<char>>,
    allows: spec_fn(Seq<char>) -> bool,
    pages: spec_fn(Seq<char>) -> Map<Seq<char>, Seq<char>>,
    rounds: Seq<RoundState<P>>,
    round_moves: Seq<RoundMove>,
    active: Seq<bool>,
    states: Seq<CrawlState<P>>,
    moves: Seq<Move>,
)
    requires
        one_spelling(links),
        goes_by(rounds[0].site, can_fetch, allows),
        is_round_course(can_fetch, rounds, round_moves),
        is_over(rounds.last()),
        is_round_course_in(links, rounds, round_moves),
        round_trail(rounds, round_moves).is_served(pages),
        rounds[0].site.starts_crawl(states[0].crawl, states[0].site),
        is_course(can_fetch, active, states, moves),
        is_wanted(active),
        states.last().crawl.phase is Finished,
        is_course_in(links, states, moves),
        crawl_trail(states, moves).is_served(pages),
    ensures
        states.last().site.links_visited@ == rounds.last().site.links_visited@,
{
    let site = rounds[0].site;
    let queue = states[0].crawl.queue@;
    let a = round_trail(rounds, round_moves);
    let b = crawl_trail(states, moves);
    assert forall|k: Seq<char>| a.start.contains(k) <==> b.start.contains(k) by {
        if site.links@.contains_key(k) {
            listed_is_queued(queue, site.links@, k);
        }
        if is_queued(queue, k) {
            let i = choose|i: int| 0 <= i < queue.len() && fold((#[trigger] queue[i])@) == k;
            assert(texts(queue)[i] == queue[i]@);
        }
    }
    assert(a.start =~= b.start);
    rules_are_the_same(can_fetch, allows, site, states[0].site);
    rounds_are_complete(can_fetch, links, allows, rounds, round_moves);
    crawls_are_complete(can_fetch, links, allows, active, states, moves);
    trails_lead_alike(a, b, links, allows, pages);
}

/// A crawl that starts from no link fetches none.
proof fn nothing_comes_from_no_links(
    trail: Trail,
    links: Set<Seq<char>>,
    allows: spec_fn(Seq<char>) -> bool,
    pages: spec_fn(Seq<char>) -> Map<Seq<char>, Seq<char>>,
    i: int,
)
    requires
        trail.is_complete(links, allows),
        trail.is_served(pages),
        forall|k: Seq<char>| !trail.start.contains(k),
        0 <= i < trail.decisions.len(),
    ensures
        !trail.decisions[i].fetched,
    decreases i,
{
    if trail.decisions[i].fetched {
        let k = fold(trail.decisions[i].link);
        assert(trail.knows(i, k));
        let j = choose|j: int|
            0 <= j < i && (match #[trigger] trail.shown[j] {
                Some(shown) => shown.contains_key(k),
                None => false,
            });
        let h = choose|h: int|
            0 <= h < j && (#[trigger] trail.decisions[h]).fetched && trail.shown[j] == Some(
                pages(trail.decisions[h].link),
            );
        nothing_comes_from_no_links(trail, links, allows, pages, h);
    }
}

/// A crawl under a client of a website that has no link left, such as one that has been crawled
/// before, fetches nothing and leaves the visited links as they are.
pub proof fn crawls_without_links_fetch_nothing<P, F: Fn(&P, &str, &str) -> bool>(
    can_fetch: F,
    allows: spec_fn(Seq<char>) -> bool,
    pages: spec_fn(Seq<char>) -> Map<Seq<char>, Seq<char>>,
    site: Website<P>,
    active: Seq<bool>,
    states: Seq<CrawlState<P>>,
    moves: Seq<Move>,
)
    requires
        site.links@ == no_links(),
        goes_by(site, can_fetch, allows),
        site.starts_crawl(states[0].crawl, states[0].site),
        is_course(can_fetch, active, states, moves),
        is_wanted(active),
        states.last().crawl.phase is Finished,
        crawl_trail(states, moves).is_served(pages),
    ensures
        forall|i: int|
            0 <= i < moves.len() ==> !((#[trigger] moves[i]) matches Move::Link(
                LinkStep::Fetch(_),
            )),
        states.last().site.links_visited@ == site.links_visited@,
{
    let trail = crawl_trail(states, moves);
    let queue = states[0].crawl.queue@;
    if queue.len() > 0 {
        assert(site.links@.contains_key(fold(texts(queue)[0])));
    }
    rules_are_the_same(can_fetch, allows, site, states[0].site);
    crawls_are_complete(can_fetch, Set::full(), allows, active, states, moves);
    assert forall|i: int| 0 <= i < moves.len() implies !((#[trigger] moves[i]) matches Move::Link(
        LinkStep::Fetch(_),
    )) by {
        nothing_comes_from_no_links(trail, Set::full(), allows, pages, i);
    }
    assert forall|k: Seq<char>| #[trigger]
        trail.after.dom().contains(k) implies trail.before.dom().contains(k) by {
        if !trail.before.contains_key(k) {
            let i = new_links_were_fetched(trail, Set::full(), allows, k);
            assert(moves[i] matches Move::Link(LinkStep::Fetch(_)));
        }
    }
    visited_links_are_kept(can_fetch, active, states, moves, 0, states.len() - 1);
    assert forall|k: Seq<char>| #[trigger] trail.after.dom().contains(k) implies trail.after[k]
        == trail.before[k] by {
        old_links_stay(trail, Set::full(), allows, k);
    }
    assert(trail.after =~= trail.before);
}

/// The move fetches the link with the folded form `k`.
pub open spec fn fetches_link(by: Move, k: Seq<char>) -> bool {
    match by {
        Move::Link(LinkStep::Fetch(link)) => fold(link@) == k,
        _ => false,
    }
}

/// Each link that a crawl under a client has visited first was fetched in exactly one of its
/// moves, so that the client is told of its page once.
pub proof fn new_links_are_fetched_in_one_move<P, F: Fn(&P, &str, &str) -> bool>(
    can_fetch: F,
    active: Seq<bool>,
    states: Seq<CrawlState<P>>,
    moves: Seq<Move>,
    k: Seq<char>,
)
    requires
        is_course(can_fetch, active, states, moves),
        states.last().site.links_visited@.contains_key(k),
        !states[0].site.links_visited@.contains_key(k),
    ensures
        exists|i: int|
            {
                &&& 0 <= i < moves.len()
                &&& fetches_link(#[trigger] moves[i], k)
                &&& forall|j: int|
                    0 <= j < moves.len() && fetches_link(#[trigger] moves[j], k) ==> j == i
            },
{
    let decisions = crawl_decisions(states, moves);
    crawls_are_histories(can_fetch, active, states, moves);
    let last = decisions.len() - 1;
    assert(moves.len() > 0);
    visited_links_were_fetched(decisions, last, k);
    let i = choose|i: int|
        0 <= i <= last && (#[trigger] decisions[i]).fetched && fold(decisions[i].link) == k;
    assert(fetches_link(moves[i], k));
    assert forall|j: int| 0 <= j < moves.len() && fetches_link(#[trigger] moves[j], k) implies j
        == i by {
        assert(decisions[j].fetched && fold(decisions[j].link) == k);
        if j < i {
            links_are_fetched_once(decisions, j, i);
        } else if i < j {
            links_are_fetched_once(decisions, i, j);
        }
    }
}

} // verus!
