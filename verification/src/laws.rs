//! What holds of a crawl as a whole.

use crate::address::UrlPartsView;
use crate::crawl::{unvisited_once, InnerCrawl, LinkStep};
use crate::http_client::{redirect_rule, redirect_step, RedirectStep};
use crate::robots::with_slash;
use crate::semaphore::permits;
use crate::sitemap_walk::{sitemap_address, SitemapStep, SitemapWalk};
use crate::text::{ends_slash, fold, starts_slash, texts};
use crate::website::Website;
use vstd::prelude::*;

verus! {

/// A decision on a link in the course of a crawl: the visited links before and after it, and
/// whether the link was fetched.
pub struct Decision {
    pub before: Map<Seq<char>, Seq<char>>,
    pub link: Seq<char>,
    pub fetched: bool,
    pub after: Map<Seq<char>, Seq<char>>,
}

impl Decision {
    /// A link that is fetched was not visited before and is after; else nothing changes.
    pub open spec fn is_sound(self) -> bool {
        if self.fetched {
            &&& !self.before.contains_key(fold(self.link))
            &&& self.after == self.before.insert(fold(self.link), self.link)
        } else {
            self.after == self.before
        }
    }
}

/// The decisions of a crawl in their order; between two of them the visited links do not change.
pub open spec fn is_history(decisions: Seq<Decision>) -> bool {
    &&& forall|i: int| 0 <= i < decisions.len() ==> (#[trigger] decisions[i]).is_sound()
    &&& forall|i: int, j: int|
        0 <= i && j == i + 1 && j < decisions.len() ==> (#[trigger] decisions[j]).before == (
        #[trigger] decisions[i]).after
}

/// The number of links that were fetched.
pub open spec fn fetches(decisions: Seq<Decision>) -> nat
    decreases decisions.len(),
{
    if decisions.len() == 0 {
        0
    } else {
        fetches(decisions.drop_last()) + (if decisions.last().fetched {
            1nat
        } else {
            0
        })
    }
}

/// Every decision that a crawl takes on a link is sound.
pub proof fn decisions_are_sound<P, F: Fn(&P, &str, &str) -> bool>(
    site: Website<P>,
    can_fetch: F,
    link: Seq<char>,
    fetched: bool,
    after: Website<P>,
)
    requires
        site.takes(can_fetch, link, fetched, after),
    ensures
        (Decision {
            before: site.links_visited@,
            link,
            fetched,
            after: after.links_visited@,
        }).is_sound(),
{
}

/// A link that has been visited stays visited.
pub proof fn visited_links_stay(decisions: Seq<Decision>, i: int, j: int, k: Seq<char>)
    requires
        is_history(decisions),
        0 <= i <= j < decisions.len(),
        decisions[i].after.contains_key(k),
    ensures
        decisions[j].after.contains_key(k),
    decreases j - i,
{
    if i < j {
        visited_links_stay(decisions, i, j - 1, k);
        assert(decisions[j].before == decisions[j - 1].after);
        assert(decisions[j].is_sound());
    }
}

/// No link is fetched twice in a crawl, whatever the case of its letters.
pub proof fn links_are_fetched_once(decisions: Seq<Decision>, i: int, j: int)
    requires
        is_history(decisions),
        0 <= i < j < decisions.len(),
        decisions[i].fetched,
        decisions[j].fetched,
    ensures
        fold(decisions[i].link) != fold(decisions[j].link),
{
    assert(decisions[i].is_sound());
    assert(decisions[j].is_sound());
    visited_links_stay(decisions, i, j - 1, fold(decisions[i].link));
    assert(decisions[j].before == decisions[j - 1].after);
}

/// A link that has been visited is not fetched any more.
pub proof fn visited_links_are_not_fetched(decisions: Seq<Decision>, i: int, j: int)
    requires
        is_history(decisions),
        0 <= i <= j < decisions.len(),
        decisions[i].before.contains_key(fold(decisions[j].link)),
    ensures
        !decisions[j].fetched,
{
    let k = fold(decisions[j].link);
    assert(decisions[i].is_sound());
    assert(decisions[j].is_sound());
    if i < j {
        visited_links_stay(decisions, i, j - 1, k);
        assert(decisions[j].before == decisions[j - 1].after);
    }
}

/// A link that is visited in the course of a crawl had been visited before it, in the same
/// spelling, or is one that the crawl fetched.
pub proof fn visited_links_were_fetched(decisions: Seq<Decision>, j: int, k: Seq<char>)
    requires
        is_history(decisions),
        0 <= j < decisions.len(),
        decisions[j].after.contains_key(k),
    ensures
        ({
            ||| decisions[0].before.contains_key(k) && decisions[0].before[k]
                == decisions[j].after[k]
            ||| exists|i: int|
                0 <= i <= j && (#[trigger] decisions[i]).fetched && fold(decisions[i].link) == k
                    && decisions[j].after[k] == decisions[i].link
        }),
    decreases j,
{
    assert(decisions[j].is_sound());
    if !(decisions[j].fetched && fold(decisions[j].link) == k) && j > 0 {
        assert(decisions[j].before == decisions[j - 1].after);
        visited_links_were_fetched(decisions, j - 1, k);
    }
}

/// A crawl fetches no more pages than there are links, where the links it fetches are of a
/// finite set.
pub proof fn fetches_are_bounded(decisions: Seq<Decision>, links: Set<Seq<char>>)
    requires
        is_history(decisions),
        links.finite(),
        forall|i: int|
            0 <= i < decisions.len() && (#[trigger] decisions[i]).fetched ==> links.contains(
                fold(decisions[i].link),
            ),
    ensures
        fetches(decisions) <= links.len(),
    decreases decisions.len(),
{
    if decisions.len() > 0 {
        let rest = decisions.drop_last();
        let last = decisions.len() - 1;
        assert forall|i: int| 0 <= i < rest.len() implies #[trigger] rest[i] == decisions[i] by {}
        if decisions[last].fetched {
            let others = links.remove(fold(decisions[last].link));
            assert forall|i: int|
                0 <= i < rest.len() && (#[trigger] rest[i]).fetched implies others.contains(
                fold(rest[i].link),
            ) by {
                links_are_fetched_once(decisions, i, last);
            }
            fetches_are_bounded(rest, others);
        } else {
            fetches_are_bounded(rest, links);
        }
    }
}

/// A link that is fetched was not visited, is not blacklisted, and `robots.txt` allows it where
/// it has a say.
pub proof fn fetched_links_are_allowed<P, F: Fn(&P, &str, &str) -> bool>(
    site: Website<P>,
    can_fetch: F,
    link: Seq<char>,
    after: Website<P>,
)
    requires
        site.takes(can_fetch, link, true, after),
    ensures
        !site.is_visited(link),
        !site.is_blacklisted(link),
        exists|spelled: &str| #[trigger]
            spelled@ == link && site.robots_verdict(can_fetch, spelled, true),
{
    let spelled = choose|spelled: &str| #[trigger]
        spelled@ == link && site.allowed_verdict(can_fetch, spelled, true);
    assert(spelled@ == link && site.robots_verdict(can_fetch, spelled, true));
}

/// Once a link has been fetched, no spelling of it is allowed any more.
pub proof fn fetched_links_are_refused<P, F: Fn(&P, &str, &str) -> bool>(
    site: Website<P>,
    can_fetch: F,
    link: Seq<char>,
    after: Website<P>,
    again: &str,
    verdict: bool,
)
    requires
        site.takes(can_fetch, link, true, after),
        fold(again@) == fold(link),
        after.allowed_verdict(can_fetch, again, verdict),
    ensures
        !verdict,
{
}

/// A link of a fresh pass is passed over only because it is blacklisted or `robots.txt` forbids
/// it.
pub proof fn fresh_links_are_skipped_for_a_reason<P, F: Fn(&P, &str, &str) -> bool>(
    crawl: InnerCrawl,
    site: Website<P>,
    can_fetch: F,
    after: Website<P>,
)
    requires
        crawl.is_fresh(site.links_visited@),
        crawl.queue@.len() > 0,
        site.takes(can_fetch, crawl.queue@.last()@, false, after),
    ensures
        site.is_blacklisted(crawl.queue@.last()@) || exists|spelled: &str| #[trigger]
            spelled@ == crawl.queue@.last()@ && site.robots_verdict(can_fetch, spelled, false),
{
    let link = crawl.queue@.last()@;
    assert(unvisited_once(texts(crawl.queue@), site.links_visited@));
    assert(texts(crawl.queue@)[crawl.queue@.len() - 1] == link);
    let spelled = choose|spelled: &str| #[trigger]
        spelled@ == link && site.allowed_verdict(can_fetch, spelled, false);
    if !site.is_blacklisted(link) {
        assert(spelled@ == link && site.robots_verdict(can_fetch, spelled, false));
    }
}

/// Where the parser of `robots.txt` is there and answers every question, it can be asked about
/// any link; this holds from its configuration on, for nothing takes the parser away.
pub proof fn configured_parsers_can_be_asked<P, F: Fn(&P, &str, &str) -> bool>(
    site: Website<P>,
    can_fetch: F,
    link: Seq<char>,
    fetched: bool,
    after: Website<P>,
    next: Seq<char>,
)
    requires
        site.robot_file_parser is Some,
        forall|spelled: &str| #[trigger]
            call_requires(can_fetch, (&site.robot_file_parser->0, "*", spelled)),
        site.takes(can_fetch, link, fetched, after),
    ensures
        site.can_ask_of(can_fetch, next),
        after.can_ask_of(can_fetch, next),
{
}

/// The links of a new website are unvisited.
pub proof fn new_links_are_unvisited<P>(
    site: Website<P>,
    domain: Seq<char>,
    root: Option<Seq<char>>,
)
    requires
        site.is_fresh(domain, root),
    ensures
        site.links_unvisited(),
{
}

/// A crawl that was called off fetches nothing more: what it does next leaves the website as it
/// is and ends it, and so does what a sitemap does next.
pub proof fn called_off_crawls_fetch_nothing<P, F: Fn(&P, &str, &str) -> bool>(
    crawl: InnerCrawl,
    site: Website<P>,
    can_fetch: F,
    step: LinkStep,
    message: Option<Map<Seq<char>, Seq<char>>>,
    after: InnerCrawl,
    site_after: Website<P>,
)
    ensures
        crawl.takes_link(site, false, can_fetch, step, after, site_after) ==> step !is Fetch
            && site_after == site && after.phase !is Streaming,
        crawl.joins(site.links_visited@, false, message, after) ==> after.phase is Finished,
        crawl.ends(false, after) ==> after.phase is Finished,
        forall|walk: SitemapWalk, entry: SitemapStep, walk_after: SitemapWalk| #[trigger]
            walk.moves(site, false, can_fetch, entry, walk_after, site_after) ==> entry is Done
                && site_after == site,
{
}

/// A slash at the end of the domain or at the start of the path makes no difference to the
/// address of the sitemap.
pub proof fn sitemap_slashes_are_one(domain: Seq<char>, path: Seq<char>)
    requires
        !ends_slash(domain),
        !starts_slash(path),
        path.len() > 0,
    ensures
        sitemap_address(domain, Some(path)) == domain + seq!['/'] + path,
        sitemap_address(domain + seq!['/'], Some(path)) == domain + seq!['/'] + path,
        sitemap_address(domain, Some(seq!['/'] + path)) == domain + seq!['/'] + path,
        sitemap_address(domain + seq!['/'], Some(seq!['/'] + path)) == domain + seq!['/'] + path,
{
    assert((domain + seq!['/']).drop_last() =~= domain);
    assert((seq!['/'] + path).drop_first() =~= path);
}

/// The address below which `robots.txt` is read ends with a slash, and one that does is taken as
/// it is.
pub proof fn robots_base_ends_with_slash(base: Seq<char>)
    ensures
        ends_slash(with_slash(base)),
        with_slash(with_slash(base)) == with_slash(base),
{
}

/// A redirect is left to the client exactly where it leads to the host of the domain, where the
/// domain is a URL.
pub proof fn redirects_stay_on_the_host(url: UrlPartsView, attempt: Option<Seq<char>>)
    ensures
        redirect_step(redirect_rule(Some(url)), attempt) == RedirectStep::Default <==> attempt
            == url.host,
{
}

/// There are always at least 25 permits, and at least 50 with as many logical as physical CPUs.
pub proof fn permits_have_a_floor(logical: int, physical: int)
    ensures
        permits(logical, physical) >= 25,
        logical == physical ==> permits(logical, physical) >= 50,
{
}

} // verus!
