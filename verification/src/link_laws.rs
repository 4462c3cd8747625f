//! What holds of the decision on a link: a link is refused for each of the reasons there are and
//! for no other, and a link that is visited is one from then on.

use crate::address::{url_join, url_parse};
use crate::black_list::contains;
use crate::configuration::Configuration;
use crate::link_set::LinkSet;
use crate::page::Page;
use crate::text::{fold, texts};
use crate::website::Website;
use vstd::prelude::*;

verus! {

/// One of the entries of the blacklist spells `link`, letter for letter.
pub open spec fn is_listed(configuration: Configuration, link: Seq<char>) -> bool {
    configuration.blacklist_url is Some && exists|i: int|
        0 <= i < configuration.blacklist_url->0@.len() && (
        #[trigger] configuration.blacklist_url->0@[i])@ == link
}

/// The parser of `robots.txt` may give this answer when it is asked about `link` for any agent.
pub open spec fn may_answer<P, F: Fn(&P, &str, &str) -> bool>(
    site: Website<P>,
    can_fetch: F,
    link: &str,
    answer: bool,
) -> bool {
    site.robot_file_parser is Some && call_ensures(
        can_fetch,
        (&site.robot_file_parser->0, "*", link),
        answer,
    )
}

/// Everything but the links still to be visited and the visited links is the same.
pub open spec fn is_same_but_links<P>(site: Website<P>, other: Website<P>) -> bool {
    &&& site.configuration == other.configuration
    &&& site.domain == other.domain
    &&& site.robot_file_parser == other.robot_file_parser
    &&& site.sitemap_url == other.sitemap_url
    &&& site.sitemaps_pending == other.sitemaps_pending
    &&& site.sitemaps_known == other.sitemaps_known
    &&& site.domain_parsed == other.domain_parsed
}

/// A link stands on the blacklist wherever one of its entries is that text.
proof fn listed_is_blacklisted<P>(site: Website<P>, link: Seq<char>)
    ensures
        site.is_blacklisted(link) <==> is_listed(site.configuration, link),
{
    if site.configuration.blacklist_url is Some {
        let list = site.configuration.blacklist_url->0@;
        if texts(list).contains(link) {
            let i = choose|i: int| 0 <= i < texts(list).len() && texts(list)[i] == link;
            assert(list[i]@ == link);
        }
        if is_listed(site.configuration, link) {
            let i = choose|i: int| 0 <= i < list.len() && (#[trigger] list[i])@ == link;
            assert(texts(list)[i] == link);
        }
    }
}

/// The blacklist holds each of its entries, and no other text.
pub proof fn blacklists_hold_their_entries(blacklist_url: &Vec<String>, link: &str, r: bool)
    requires
        call_ensures(contains, (blacklist_url, link), r),
    ensures
        r <==> exists|i: int|
            0 <= i < blacklist_url@.len() && (#[trigger] blacklist_url@[i])@ == link@,
{
    let list = blacklist_url@;
    if r {
        let i = choose|i: int| 0 <= i < texts(list).len() && texts(list)[i] == link@;
        assert(list[i]@ == link@);
    }
    if exists|i: int| 0 <= i < list.len() && (#[trigger] list[i])@ == link@ {
        let i = choose|i: int| 0 <= i < list.len() && (#[trigger] list[i])@ == link@;
        assert(texts(list)[i] == link@);
    }
}

/// A link is refused that any entry of the blacklist spells.
pub proof fn blacklisted_links_are_refused<P, F: Fn(&P, &str, &str) -> bool>(
    site: Website<P>,
    link: &str,
    can_fetch: F,
    by_default: bool,
    allowed: bool,
    i: int,
)
    requires
        call_ensures(Website::<P>::is_allowed_default::<F>, (&site, link, can_fetch), by_default),
        call_ensures(Website::<P>::is_allowed::<F>, (&site, link, can_fetch), allowed),
        site.configuration.blacklist_url is Some,
        0 <= i < site.configuration.blacklist_url->0@.len(),
        site.configuration.blacklist_url->0@[i]@ == link@,
    ensures
        !by_default,
        !allowed,
{
    assert(is_listed(site.configuration, link@));
    listed_is_blacklisted(site, link@);
}

/// A link is refused that `robots.txt` forbids, where that is followed and was read, whether there
/// is a blacklist or not.
pub proof fn forbidden_links_are_refused<P, F: Fn(&P, &str, &str) -> bool>(
    site: Website<P>,
    link: &str,
    can_fetch: F,
    by_default: bool,
    allowed: bool,
)
    requires
        call_ensures(Website::<P>::is_allowed_default::<F>, (&site, link, can_fetch), by_default),
        call_ensures(Website::<P>::is_allowed::<F>, (&site, link, can_fetch), allowed),
        site.configuration.respect_robots_txt,
        site.robot_file_parser is Some,
        !may_answer(site, can_fetch, link, true),
    ensures
        !by_default,
        !allowed,
{
}

/// A link is refused that has been visited, in any spelling, whatever else holds.
pub proof fn visited_links_are_refused<P, F: Fn(&P, &str, &str) -> bool>(
    site: Website<P>,
    link: &str,
    can_fetch: F,
    allowed: bool,
    visited: Seq<char>,
)
    requires
        call_ensures(Website::<P>::is_allowed::<F>, (&site, link, can_fetch), allowed),
        site.links_visited@.contains_key(fold(visited)),
        fold(link@) == fold(visited),
    ensures
        !allowed,
{
}

/// A link that was refused has been visited, or the blacklist spells it, or `robots.txt` is
/// followed and forbids it; where only being visited is left out of account, one of the others.
pub proof fn links_are_refused_for_a_reason<P, F: Fn(&P, &str, &str) -> bool>(
    site: Website<P>,
    link: &str,
    can_fetch: F,
    by_default: bool,
    allowed: bool,
)
    requires
        site.configuration.respect_robots_txt ==> site.robot_file_parser is Some
            || site.configuration.blacklist_url is Some,
        call_ensures(Website::<P>::is_allowed_default::<F>, (&site, link, can_fetch), by_default),
        call_ensures(Website::<P>::is_allowed::<F>, (&site, link, can_fetch), allowed),
    ensures
        !by_default ==> is_listed(site.configuration, link@)
            || site.configuration.respect_robots_txt && may_answer(site, can_fetch, link, false),
        !allowed ==> site.links_visited@.contains_key(fold(link@)) || is_listed(
            site.configuration,
            link@,
        ) || site.configuration.respect_robots_txt && may_answer(site, can_fetch, link, false),
{
    listed_is_blacklisted(site, link@);
}

/// A link that is allowed has not been visited, no entry of the blacklist spells it, and
/// `robots.txt` does not forbid it, where that is followed and was read.
pub proof fn allowed_links_meet_every_condition<P, F: Fn(&P, &str, &str) -> bool>(
    site: Website<P>,
    link: &str,
    can_fetch: F,
    by_default: bool,
    allowed: bool,
)
    requires
        call_ensures(Website::<P>::is_allowed_default::<F>, (&site, link, can_fetch), by_default),
        call_ensures(Website::<P>::is_allowed::<F>, (&site, link, can_fetch), allowed),
    ensures
        by_default || allowed ==> !is_listed(site.configuration, link@) && (
        site.configuration.respect_robots_txt && site.robot_file_parser is Some ==> may_answer(
            site,
            can_fetch,
            link,
            true,
        )),
        allowed ==> !site.links_visited@.contains_key(fold(link@)),
{
    listed_is_blacklisted(site, link@);
}

/// `robots.txt` allows everything where it is not followed, and else what its parser says for any
/// agent.
pub proof fn robots_decide_where_they_are_followed<P, F: Fn(&P, &str, &str) -> bool>(
    site: Website<P>,
    link: &str,
    can_fetch: F,
    r: bool,
)
    requires
        call_ensures(Website::<P>::is_allowed_robots::<F>, (&site, link, can_fetch), r),
    ensures
        !site.configuration.respect_robots_txt ==> r,
        site.configuration.respect_robots_txt && site.robot_file_parser is Some ==> may_answer(
            site,
            can_fetch,
            link,
            r,
        ),
{
}

/// `fetched` is a right decision on `link`: it is for the link where no reason speaks against it,
/// and against it where one does.
pub open spec fn is_right_decision<P, F: Fn(&P, &str, &str) -> bool>(
    site: Website<P>,
    can_fetch: F,
    link: Seq<char>,
    fetched: bool,
) -> bool {
    let asks = site.configuration.respect_robots_txt && site.robot_file_parser is Some;
    if fetched {
        &&& !site.links_visited@.contains_key(fold(link))
        &&& !is_listed(site.configuration, link)
        &&& asks ==> exists|spelled: &str| #[trigger]
            spelled@ == link && may_answer(site, can_fetch, spelled, true)
    } else {
        ||| site.links_visited@.contains_key(fold(link))
        ||| is_listed(site.configuration, link)
        ||| asks && exists|spelled: &str| #[trigger]
            spelled@ == link && may_answer(site, can_fetch, spelled, false)
        ||| site.configuration.respect_robots_txt && site.robot_file_parser is None
            && site.configuration.blacklist_url is None
    }
}

/// The visited links after the decision on `link`: with it where it is fetched, in this spelling,
/// and else as they were.
pub open spec fn is_visited_after<P>(
    site: Website<P>,
    link: Seq<char>,
    fetched: bool,
    after: Website<P>,
) -> bool {
    &&& forall|k: Seq<char>| #[trigger]
        after.links_visited@.contains_key(k) <==> site.links_visited@.contains_key(k) || fetched
            && k == fold(link)
    &&& forall|k: Seq<char>|
        site.links_visited@.contains_key(k) ==> #[trigger] after.links_visited@[k]
            == site.links_visited@[k]
    &&& fetched ==> after.links_visited@[fold(link)] == link
}

/// A verdict on a link is the right decision on it.
pub proof fn verdicts_are_right<P, F: Fn(&P, &str, &str) -> bool>(
    site: Website<P>,
    can_fetch: F,
    link: &str,
    verdict: bool,
)
    requires
        site.allowed_verdict(can_fetch, link, verdict),
    ensures
        is_right_decision(site, can_fetch, link@, verdict),
{
    listed_is_blacklisted(site, link@);
    if site.configuration.respect_robots_txt && site.robot_file_parser is Some {
        if !site.links_visited@.contains_key(fold(link@)) && !is_listed(
            site.configuration,
            link@,
        ) {
            assert(link@ == link@ && may_answer(site, can_fetch, link, verdict));
        }
    }
}

/// What taking a decision on a link does: the decision is right, the link is visited from then on
/// exactly where it is fetched, and nothing else changes.
pub proof fn decisions_are_right<P, F: Fn(&P, &str, &str) -> bool>(
    site: Website<P>,
    can_fetch: F,
    link: Seq<char>,
    fetched: bool,
    after: Website<P>,
)
    requires
        site.takes(can_fetch, link, fetched, after),
    ensures
        is_right_decision(site, can_fetch, link, fetched),
        is_visited_after(site, link, fetched, after),
        is_same_but_links(site, after),
        after.links == site.links,
{
    let spelled = choose|spelled: &str| #[trigger]
        spelled@ == link && site.allowed_verdict(can_fetch, spelled, fetched);
    verdicts_are_right(site, can_fetch, spelled, fetched);
}

/// Visiting a link takes the right decision on it; the link is visited from then on exactly where
/// it is fetched, and nothing else changes.
pub proof fn visits_are_right<P, F: Fn(&P, &str, &str) -> bool>(
    site: &mut Website<P>,
    link: &str,
    can_fetch: F,
    fetched: bool,
)
    requires
        call_ensures(Website::<P>::visit::<F>, (site, link, can_fetch), fetched),
    ensures
        is_right_decision(*old(site), can_fetch, link@, fetched),
        is_visited_after(*old(site), link@, fetched, *final(site)),
        is_same_but_links(*old(site), *final(site)),
        final(site).links == old(site).links,
{
    decisions_are_right(*old(site), can_fetch, link@, fetched, *final(site));
}

/// A link that was visited is refused from then on, in any spelling, and is a visited link.
pub proof fn links_are_visited_once<P, F: Fn(&P, &str, &str) -> bool>(
    site: &mut Website<P>,
    link: &str,
    can_fetch: F,
    again: &str,
    allowed: bool,
    links: &LinkSet,
)
    requires
        call_ensures(Website::<P>::visit::<F>, (site, link, can_fetch), true),
        call_ensures(Website::<P>::is_allowed::<F>, (final(site), again, can_fetch), allowed),
        call_ensures(Website::<P>::get_links, (final(site),), links),
        fold(again@) == fold(link@),
    ensures
        !allowed,
        links@.contains_key(fold(again@)),
        links@[fold(link@)] == link@,
{
}

/// A new website has its domain as the only link, nothing visited, no option set, and the root of
/// its domain where that is a URL: what joining a slash to it gives, or the URL itself.
pub proof fn new_websites_start_from_their_domain<P>(domain: &str, site: Website<P>)
    requires
        call_ensures(Website::<P>::new, (domain,), site),
    ensures
        site.domain@ == domain@,
        forall|k: Seq<char>| #[trigger] site.links@.contains_key(k) <==> k == fold(domain@),
        site.links@[fold(domain@)] == domain@,
        forall|k: Seq<char>| !#[trigger] site.links_visited@.contains_key(k),
        site.robot_file_parser is None,
        site.sitemap_url is None,
        site.sitemaps_pending@.len() == 0,
        site.sitemaps_known@.len() == 0,
        match url_parse(domain@) {
            None => site.domain_parsed is None,
            Some(url) => site.domain_parsed is Some && site.domain_parsed->0@ == (
            match url_join(url.text, "/"@) {
                Some(joined) => joined,
                None => url.text,
            }),
        },
        is_off(site.configuration),
{
}

/// A website made with a root has that root, and is else as a new one.
pub proof fn given_roots_are_kept<P>(domain: &str, root: Option<String>, site: Website<P>)
    requires
        call_ensures(Website::<P>::with_root, (domain, root), site),
    ensures
        site.domain@ == domain@,
        root is Some ==> site.domain_parsed is Some && site.domain_parsed->0@ == root->0@,
        root is None ==> site.domain_parsed is None,
        forall|k: Seq<char>| #[trigger] site.links@.contains_key(k) <==> k == fold(domain@),
        site.links@[fold(domain@)] == domain@,
        forall|k: Seq<char>| !#[trigger] site.links_visited@.contains_key(k),
        site.robot_file_parser is None,
        site.sitemap_url is None,
        site.sitemaps_pending@.len() == 0,
        site.sitemaps_known@.len() == 0,
        is_off(site.configuration),
{
}

/// No option is set and there is no delay.
pub open spec fn is_off(configuration: Configuration) -> bool {
    &&& configuration.delay == 0
    &&& configuration.respect_robots_txt == false
    &&& configuration.user_agent is None
    &&& configuration.proxy is None
    &&& configuration.request_timeout is None
    &&& configuration.subdomains == false
    &&& configuration.tld == false
    &&& configuration.sitemap == false
    &&& configuration.sitemap_path is None
    &&& configuration.blacklist_url is None
}

/// A new configuration has no option set.
pub proof fn new_configurations_are_off(configuration: Configuration)
    requires
        call_ensures(Configuration::new, (), configuration),
    ensures
        is_off(configuration),
{
}

/// There is one page for each visited link, in the spelling that is kept, and none for any other;
/// no page has a document.
pub proof fn pages_stand_for_the_visited_links<P>(site: Website<P>, pages: Vec<Page>)
    requires
        call_ensures(Website::<P>::get_pages, (&site,), pages),
    ensures
        forall|k: Seq<char>| #[trigger]
            site.links_visited@.contains_key(k) ==> exists|i: int|
                0 <= i < pages@.len() && (#[trigger] pages@[i]).url@ == site.links_visited@[k],
        forall|i: int|
            0 <= i < pages@.len() ==> site.links_visited@.contains_key(
                fold((#[trigger] pages@[i]).url@),
            ) && site.links_visited@[fold(pages@[i].url@)] == pages@[i].url@,
        forall|i: int| 0 <= i < pages@.len() ==> (#[trigger] pages@[i]).html is None,
        forall|i: int, j: int|
            0 <= i < j < pages@.len() ==> fold((#[trigger] pages@[i]).url@) != fold(
                (#[trigger] pages@[j]).url@,
            ),
{
    let urls = pages@.map_values(|page: Page| page.url@);
    assert forall|i: int| 0 <= i < pages@.len() implies urls[i] == (#[trigger] pages@[i]).url@ by {}
    assert forall|k: Seq<char>| #[trigger]
        site.links_visited@.contains_key(k) implies exists|i: int|
        0 <= i < pages@.len() && (#[trigger] pages@[i]).url@ == site.links_visited@[k] by {
        let i = choose|i: int| 0 <= i < urls.len() && fold(urls[i]) == k;
        assert(urls[i] == pages@[i].url@);
    }
}

/// The visited links and the delay are given as they are.
pub proof fn getters_give_what_is_there<P>(site: Website<P>, links: &LinkSet, delay: u64)
    requires
        call_ensures(Website::<P>::get_links, (&site,), links),
        call_ensures(Website::<P>::get_delay, (&site,), delay),
    ensures
        links@ == site.links_visited@,
        delay == site.configuration.delay,
{
}

/// Every link can be asked about and visited where `robots.txt` is not followed, and where it is,
/// once there is a parser that can be asked; without one, where there is a blacklist.
pub proof fn links_can_be_asked_about<P, F: Fn(&P, &str, &str) -> bool>(
    site: Website<P>,
    visited: &mut Website<P>,
    link: &str,
    can_fetch: F,
)
    requires
        can_be_asked(site, can_fetch, link),
        can_be_asked(*old(visited), can_fetch, link),
    ensures
        call_requires(Website::<P>::is_allowed::<F>, (&site, link, can_fetch)),
        call_requires(Website::<P>::is_allowed_default::<F>, (&site, link, can_fetch)),
        site.robot_file_parser is Some || !site.configuration.respect_robots_txt ==> call_requires(
            Website::<P>::is_allowed_robots::<F>,
            (&site, link, can_fetch),
        ),
        call_requires(Website::<P>::visit::<F>, (visited, link, can_fetch)),
{
}

/// Nothing stands in the way of a decision on `link`.
pub open spec fn can_be_asked<P, F: Fn(&P, &str, &str) -> bool>(
    site: Website<P>,
    can_fetch: F,
    link: &str,
) -> bool {
    site.configuration.respect_robots_txt ==> match site.robot_file_parser {
        Some(parser) => call_requires(can_fetch, (&parser, "*", link)),
        None => site.configuration.blacklist_url is Some,
    }
}

/// Every domain has a website, and its visited links, pages and delay can be seen at any time.
pub proof fn websites_can_be_made_and_seen<P>(domain: &str, root: Option<String>, site: Website<P>)
    ensures
        call_requires(Website::<P>::new, (domain,)),
        call_requires(Website::<P>::with_root, (domain, root)),
        call_requires(Website::<P>::get_pages, (&site,)),
        call_requires(Website::<P>::get_links, (&site,)),
        call_requires(Website::<P>::get_delay, (&site,)),
        call_requires(Configuration::new, ()),
{
}

} // verus!
