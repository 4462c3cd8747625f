//! What holds of the steps through a sitemap: the way goes through every entry, no page that may be
//! visited and no further sitemap is left out, and the sitemaps are read in their order.

use crate::link_laws::{
    can_be_asked, is_right_decision, is_same_but_links, verdicts_are_right,
};
use crate::sitemap_course::{is_sitemap_move, SitemapMove, SitemapState};
use crate::sitemap_walk::{
    entity_views, sitemap_address, sitemap_entities, SitemapEntity, SitemapEntityView, SitemapStep,
    SitemapWalk,
};
use crate::text::{fold, option_text, texts};
use crate::website::Website;
use vstd::prelude::*;

verus! {

/// `address` is `domain` and `path` with one slash where they meet: the one that either has there,
/// one of the two where both have, and one more where neither has. An empty path adds nothing.
pub open spec fn is_joined_by_slash(
    address: Seq<char>,
    domain: Seq<char>,
    path: Seq<char>,
) -> bool {
    let ends = domain.len() > 0 && domain[domain.len() - 1] == '/';
    let starts = path.len() > 0 && path[0] == '/';
    if path.len() == 0 {
        address == domain
    } else if ends && starts {
        address == domain + path.subrange(1, path.len() as int)
    } else if ends || starts {
        address == domain + path
    } else {
        address == domain.push('/') + path
    }
}

/// One of the sitemaps of the list has the address `url`.
pub open spec fn is_among(sitemaps: Seq<String>, url: Seq<char>) -> bool {
    exists|i: int| 0 <= i < sitemaps.len() && (#[trigger] sitemaps[i])@ == url
}

/// The list goes on with `url` behind everything that was in it, and nothing else.
pub open spec fn goes_on_with(before: Seq<String>, url: Seq<char>, after: Seq<String>) -> bool {
    &&& after.len() == before.len() + 1
    &&& forall|i: int| 0 <= i < before.len() ==> (#[trigger] after[i])@ == before[i]@
    &&& after[before.len() as int]@ == url
}

/// The address of a sitemap is the domain and the configured path with one slash between them, or
/// `sitemap.xml` where no path is configured.
proof fn addresses_have_one_slash(domain: Seq<char>, path: Option<Seq<char>>)
    ensures
        is_joined_by_slash(
            sitemap_address(domain, path),
            domain,
            match path {
                Some(path) => path,
                None => "sitemap.xml"@,
            },
        ),
{
    let whole = sitemap_address(domain, path);
    let path = match path {
        Some(path) => path,
        None => "sitemap.xml"@,
    };
    if path.len() > 0 {
        let ends = domain.len() > 0 && domain[domain.len() - 1] == '/';
        let starts = path[0] == '/';
        if ends && starts {
            assert(whole =~= domain + path.subrange(1, path.len() as int));
        } else if ends || starts {
            assert(whole =~= domain + path);
        } else {
            assert(whole =~= domain.push('/') + path);
        }
    }
}

/// A crawl through the sitemaps starts with the one at the domain and the configured path, with one
/// slash between them, or `sitemap.xml` where none is configured; no other is known or pending, and
/// nothing else changes.
pub proof fn sitemap_crawls_start_at_the_domain<P>(site: &mut Website<P>)
    requires
        call_ensures(Website::<P>::sitemap_crawl, (site,), ()),
    ensures
        final(site).sitemap_url is Some,
        old(site).configuration.sitemap_path is Some ==> is_joined_by_slash(
            final(site).sitemap_url->0@,
            old(site).domain@,
            old(site).configuration.sitemap_path->0@,
        ),
        old(site).configuration.sitemap_path is None ==> is_joined_by_slash(
            final(site).sitemap_url->0@,
            old(site).domain@,
            "sitemap.xml"@,
        ),
        final(site).sitemaps_pending@.len() == 0,
        final(site).sitemaps_known@.len() == 1,
        final(site).sitemaps_known@[0]@ == final(site).sitemap_url->0@,
        final(site).configuration == old(site).configuration,
        final(site).domain == old(site).domain,
        final(site).domain_parsed == old(site).domain_parsed,
        final(site).robot_file_parser == old(site).robot_file_parser,
        final(site).links == old(site).links,
        final(site).links_visited == old(site).links_visited,
{
    addresses_have_one_slash(
        old(site).domain@,
        option_text(old(site).configuration.sitemap_path),
    );
    assert(texts(final(site).sitemaps_known@).len() == 1);
    assert(texts(final(site).sitemaps_known@)[0] == final(site).sitemaps_known@[0]@);
}

/// While the client wants the crawl, the present sitemap is requested, where there is one; once the
/// crawl was called off, none is.
pub proof fn present_sitemaps_are_requested<P>(
    site: Website<P>,
    active: bool,
    url: Option<String>,
)
    requires
        call_ensures(Website::<P>::sitemap_request, (&site, active), url),
    ensures
        url is Some <==> active && site.sitemap_url is Some,
        url is Some ==> url->0@ == site.sitemap_url->0@,
{
}

/// The way through a sitemap is over exactly where no entry is left or the client has called the
/// crawl off, and then nothing changes; else the next entry is taken, one after the other, and the
/// entries stay as they are.
pub proof fn ways_go_through_every_entry<P, F: Fn(&P, &str, &str) -> bool>(
    walk: &mut SitemapWalk,
    site: &mut Website<P>,
    active: bool,
    can_fetch: F,
    step: SitemapStep,
)
    requires
        call_ensures(
            SitemapWalk::next_entry::<P, F>,
            (walk, site, active, can_fetch),
            step,
        ),
    ensures
        step is Done <==> !active || old(walk).position >= old(walk).entities@.len(),
        step is Done ==> *final(site) == *old(site) && final(walk).position == old(walk).position,
        step !is Done ==> final(walk).position == old(walk).position + 1,
        final(walk).entities == old(walk).entities,
{
}

/// A page that the next entry lists becomes a link to be visited, and the pages are crawled,
/// exactly where that is right: it is passed over, and the way goes on with nothing changed, only
/// where it has been visited, is blacklisted or `robots.txt` forbids it.
pub proof fn listed_pages_are_decided_on<P, F: Fn(&P, &str, &str) -> bool>(
    walk: &mut SitemapWalk,
    site: &mut Website<P>,
    can_fetch: F,
    step: SitemapStep,
    link: String,
)
    requires
        call_ensures(SitemapWalk::next_entry::<P, F>, (walk, site, true, can_fetch), step),
        old(walk).position < old(walk).entities@.len(),
        old(walk).entities@[old(walk).position as int] == SitemapEntity::Url(Some(link)),
    ensures
        step is Crawl || step is Continue,
        is_right_decision(*old(site), can_fetch, link@, step is Crawl),
        step is Continue ==> *final(site) == *old(site),
        step is Crawl ==> forall|k: Seq<char>| #[trigger]
            final(site).links@.contains_key(k) <==> old(site).links@.contains_key(k) || k == fold(
                link@,
            ),
        step is Crawl && !old(site).links@.contains_key(fold(link@)) ==> final(site).links@[fold(
            link@,
        )] == link@,
        forall|k: Seq<char>|
            old(site).links@.contains_key(k) ==> #[trigger] final(site).links@[k] == old(
                site,
            ).links@[k],
        is_same_but_links(*old(site), *final(site)),
        final(site).links_visited == old(site).links_visited,
{
    let fetched = step is Crawl;
    let spelled = choose|spelled: &str| #[trigger]
        spelled@ == link@ && old(site).allowed_verdict(can_fetch, spelled, fetched);
    verdicts_are_right(*old(site), can_fetch, spelled, fetched);
}

/// A further sitemap that the next entry names is pending or was known before, and is known from
/// then on; those that were pending stay so, in their order, and the one that is read at present
/// stays it. Nothing else changes, and the way goes on.
pub proof fn named_sitemaps_are_kept<P, F: Fn(&P, &str, &str) -> bool>(
    walk: &mut SitemapWalk,
    site: &mut Website<P>,
    can_fetch: F,
    step: SitemapStep,
    url: String,
)
    requires
        call_ensures(SitemapWalk::next_entry::<P, F>, (walk, site, true, can_fetch), step),
        old(walk).position < old(walk).entities@.len(),
        old(walk).entities@[old(walk).position as int] == SitemapEntity::SiteMap(Some(url)),
    ensures
        step is Continue,
        is_among(old(site).sitemaps_known@, url@) ==> *final(site) == *old(site),
        !is_among(old(site).sitemaps_known@, url@) ==> {
            &&& goes_on_with(old(site).sitemaps_pending@, url@, final(site).sitemaps_pending@)
            &&& goes_on_with(old(site).sitemaps_known@, url@, final(site).sitemaps_known@)
        },
        final(site).sitemap_url == old(site).sitemap_url,
        final(site).links == old(site).links,
        final(site).links_visited == old(site).links_visited,
        final(site).configuration == old(site).configuration,
        final(site).domain == old(site).domain,
        final(site).domain_parsed == old(site).domain_parsed,
        final(site).robot_file_parser == old(site).robot_file_parser,
{
    let known = old(site).sitemaps_known@;
    if texts(known).contains(url@) {
        let i = choose|i: int| 0 <= i < texts(known).len() && texts(known)[i] == url@;
        assert(known[i]@ == url@);
    } else {
        if is_among(known, url@) {
            let i = choose|i: int| 0 <= i < known.len() && (#[trigger] known[i])@ == url@;
            assert(texts(known)[i] == url@);
        }
        pushed_texts_go_on(known, url@, final(site).sitemaps_known@);
        pushed_texts_go_on(old(site).sitemaps_pending@, url@, final(site).sitemaps_pending@);
    }
}

/// Where the texts of a list are those of another and one more, the list goes on with that.
proof fn pushed_texts_go_on(before: Seq<String>, url: Seq<char>, after: Seq<String>)
    requires
        texts(after) == texts(before).push(url),
    ensures
        goes_on_with(before, url, after),
{
    assert(texts(after).len() == after.len());
    assert forall|i: int| 0 <= i < before.len() implies (#[trigger] after[i])@ == before[i]@ by {
        assert(texts(after)[i] == texts(before)[i]);
    }
    assert(texts(after)[before.len() as int] == url);
}

/// An entry without an address, or one that is not well formed, changes nothing, and the way goes
/// on.
pub proof fn entries_without_address_are_passed_over<P, F: Fn(&P, &str, &str) -> bool>(
    walk: &mut SitemapWalk,
    site: &mut Website<P>,
    can_fetch: F,
    step: SitemapStep,
)
    requires
        call_ensures(SitemapWalk::next_entry::<P, F>, (walk, site, true, can_fetch), step),
        old(walk).position < old(walk).entities@.len(),
        match old(walk).entities@[old(walk).position as int] {
            SitemapEntity::Url(address) => address is None,
            SitemapEntity::SiteMap(address) => address is None,
            SitemapEntity::Malformed(_) => true,
        },
    ensures
        step is Continue,
        *final(site) == *old(site),
{
}

/// Whatever taking the next entry gives is a move of the crawl through the sitemaps: the entry was
/// taken, or the sitemap is done with and the next one follows.
pub proof fn entries_are_moves_of_the_crawl<P, F: Fn(&P, &str, &str) -> bool>(
    walk: &mut SitemapWalk,
    site: &mut Website<P>,
    active: bool,
    can_fetch: F,
    step: SitemapStep,
    next: Website<P>,
)
    requires
        call_ensures(
            SitemapWalk::next_entry::<P, F>,
            (walk, site, active, can_fetch),
            step,
        ),
        final(site).ends_sitemap(next),
    ensures
        step !is Done ==> is_sitemap_move(
            can_fetch,
            active,
            SitemapState { site: *old(site), walk: Some(*old(walk)), crawling: false },
            SitemapMove::Entry(step),
            SitemapState {
                site: *final(site),
                walk: Some(*final(walk)),
                crawling: step is Crawl,
            },
        ),
        step is Done ==> is_sitemap_move(
            can_fetch,
            active,
            SitemapState { site: *old(site), walk: Some(*old(walk)), crawling: false },
            SitemapMove::End,
            SitemapState { site: next, walk: None, crawling: false },
        ),
{
}

/// When a sitemap is done with, the first one that is pending is read next, and the others stay
/// pending in their order; where none is pending, none is read. Nothing else changes.
pub proof fn pending_sitemaps_follow_in_order<P>(site: &mut Website<P>)
    requires
        call_ensures(Website::<P>::end_sitemap, (site,), ()),
    ensures
        final(site).sitemap_url is None <==> old(site).sitemaps_pending@.len() == 0,
        old(site).sitemaps_pending@.len() == 0 ==> final(site).sitemaps_pending@.len() == 0,
        old(site).sitemaps_pending@.len() > 0 ==> {
            &&& final(site).sitemap_url->0@ == old(site).sitemaps_pending@[0]@
            &&& final(site).sitemaps_pending@.len() + 1 == old(site).sitemaps_pending@.len()
            &&& forall|i: int|
                0 <= i < final(site).sitemaps_pending@.len() ==> (
                #[trigger] final(site).sitemaps_pending@[i])@ == old(
                    site,
                ).sitemaps_pending@[i + 1]@
        },
        final(site).sitemaps_known == old(site).sitemaps_known,
        final(site).links == old(site).links,
        final(site).links_visited == old(site).links_visited,
        final(site).configuration == old(site).configuration,
        final(site).domain == old(site).domain,
        final(site).domain_parsed == old(site).domain_parsed,
        final(site).robot_file_parser == old(site).robot_file_parser,
{
}

/// What is read of an entry.
pub open spec fn is_read_as(entity: SitemapEntity, read: SitemapEntityView) -> bool {
    match entity {
        SitemapEntity::Url(None) => read == SitemapEntityView::Url(None),
        SitemapEntity::Url(Some(link)) => read == SitemapEntityView::Url(Some(link@)),
        SitemapEntity::SiteMap(None) => read == SitemapEntityView::SiteMap(None),
        SitemapEntity::SiteMap(Some(url)) => read == SitemapEntityView::SiteMap(Some(url@)),
        SitemapEntity::Malformed(fault) => read == SitemapEntityView::Malformed(fault@),
    }
}

/// The way through an answer has every entry that its text holds, each in its place, and starts
/// before the first; the way through a failed request has none.
pub proof fn ways_have_every_entry_of_the_text(
    text: &str,
    walk: SitemapWalk,
    answer: Option<&str>,
    answered: SitemapWalk,
)
    requires
        call_ensures(SitemapWalk::read, (text,), walk),
        call_ensures(SitemapWalk::of_answer, (answer,), answered),
    ensures
        walk.position == 0,
        walk.entities@.len() == sitemap_entities(text@).len(),
        forall|i: int|
            0 <= i < walk.entities@.len() ==> is_read_as(
                #[trigger] walk.entities@[i],
                sitemap_entities(text@)[i],
            ),
        answered.position == 0,
        answer is None ==> answered.entities@.len() == 0,
        answer is Some ==> answered.entities@.len() == sitemap_entities(answer->0@).len(),
        answer is Some ==> forall|i: int|
            0 <= i < answered.entities@.len() ==> is_read_as(
                #[trigger] answered.entities@[i],
                sitemap_entities(answer->0@)[i],
            ),
{
    assert(entity_views(walk.entities@).len() == walk.entities@.len());
    assert(entity_views(answered.entities@).len() == answered.entities@.len());
    assert forall|i: int| 0 <= i < walk.entities@.len() implies is_read_as(
        #[trigger] walk.entities@[i],
        sitemap_entities(text@)[i],
    ) by {
        assert(entity_views(walk.entities@)[i] == walk.entities@[i]@);
    }
    if answer is Some {
        assert forall|i: int| 0 <= i < answered.entities@.len() implies is_read_as(
            #[trigger] answered.entities@[i],
            sitemap_entities(answer->0@)[i],
        ) by {
            assert(entity_views(answered.entities@)[i] == answered.entities@[i]@);
        }
    }
}

/// The way through given entries has these, and starts before the first.
pub proof fn ways_start_before_the_first(entities: Vec<SitemapEntity>, walk: SitemapWalk)
    requires
        call_ensures(SitemapWalk::through, (entities,), walk),
    ensures
        walk.entities@ == entities@,
        walk.position == 0,
{
}

/// The way through a sitemap can go on from any entry, where `robots.txt` is not followed or there is
/// a parser that can be asked; a crawl through the sitemaps can start, and end one, at any time.
pub proof fn ways_can_go_on<P, F: Fn(&P, &str, &str) -> bool>(
    walk: &mut SitemapWalk,
    site: &mut Website<P>,
    active: bool,
    can_fetch: F,
    answer: Option<&str>,
)
    requires
        forall|link: &str| #[trigger] can_be_asked(*old(site), can_fetch, link),
    ensures
        call_requires(SitemapWalk::next_entry::<P, F>, (walk, site, active, can_fetch)),
        call_requires(SitemapWalk::of_answer, (answer,)),
        call_requires(Website::<P>::sitemap_crawl, (site,)),
        call_requires(Website::<P>::sitemap_request, (old(site), active)),
        call_requires(Website::<P>::end_sitemap, (site,)),
{
    assert forall|link: &str| old(site).can_ask(can_fetch, link) by {
        assert(can_be_asked(*old(site), can_fetch, link));
    }
}

} // verus!
