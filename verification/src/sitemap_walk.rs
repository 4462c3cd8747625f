//! The crawl through a sitemap: where it is, and what is done with its entries.

use crate::link_set::with_link;
use crate::text::{
    ends_slash, ends_with_slash, fold, holds_text, option_text, starts_slash, starts_with_slash,
    texts,
};
use crate::website::Website;
use sitemap::reader::{SiteMapEntity, SiteMapReader};
use vstd::prelude::*;
use vstd::string::*;

verus! {

/// An entry of a sitemap.
#[derive(Debug)]
pub enum SitemapEntity {
    /// A page, with its address where that is a URL.
    Url(Option<String>),
    /// A further sitemap, with its address where that is a URL.
    SiteMap(Option<String>),
    /// The text is not well formed here, with what is wrong.
    Malformed(String),
}

/// An entry of a sitemap with the address, or what is wrong, as a text.
pub enum SitemapEntityView {
    Url(Option<Seq<char>>),
    SiteMap(Option<Seq<char>>),
    Malformed(Seq<char>),
}

impl View for SitemapEntity {
    type V = SitemapEntityView;

    open spec fn view(&self) -> SitemapEntityView {
        match self {
            SitemapEntity::Url(address) => SitemapEntityView::Url(option_text(*address)),
            SitemapEntity::SiteMap(address) => SitemapEntityView::SiteMap(option_text(*address)),
            SitemapEntity::Malformed(fault) => SitemapEntityView::Malformed(fault@),
        }
    }
}

/// The entries that `sitemap::reader::SiteMapReader` reads from a text, in their order.
pub uninterp spec fn sitemap_entities(text: Seq<char>) -> Seq<SitemapEntityView>;

/// The entries as texts.
pub open spec fn entity_views(entities: Seq<SitemapEntity>) -> Seq<SitemapEntityView> {
    entities.map_values(|entity: SitemapEntity| entity@)
}

/// `sitemap::reader::SiteMapReader::new` on the bytes of the text and its `next` until there is
/// no further entry: the entries in their order, each with its kind and the URL of its location,
/// written out, where there is one, or the message of the error. What it reads depends on the text
/// alone.
#[verifier::external_body]
fn read_entities(text: &str) -> (entities: Vec<SitemapEntity>)
    ensures
        entity_views(entities@) == sitemap_entities(text@),
{
    SiteMapReader::new(text.as_bytes()).map(|entity| match entity {
        SiteMapEntity::Url(entry) => SitemapEntity::Url(entry.loc.get_url().map(String::from)),
        SiteMapEntity::SiteMap(entry) => {
            SitemapEntity::SiteMap(entry.loc.get_url().map(String::from))
        },
        SiteMapEntity::Err(error) => SitemapEntity::Malformed(error.msg()),
    }).collect()
}

/// `domain` without a slash at its end, if there is one.
pub open spec fn without_last_slash(domain: Seq<char>) -> Seq<char> {
    if ends_slash(domain) {
        domain.drop_last()
    } else {
        domain
    }
}

/// `path` without a slash at its start, if there is one.
pub open spec fn without_first_slash(path: Seq<char>) -> Seq<char> {
    if starts_slash(path) {
        path.drop_first()
    } else {
        path
    }
}

/// The address of the sitemap: the domain and the path, `sitemap.xml` where none is given, with
/// one slash between them; the domain alone where the path is empty.
pub open spec fn sitemap_address(domain: Seq<char>, path: Option<Seq<char>>) -> Seq<char> {
    let path = match path {
        Some(path) => path,
        None => "sitemap.xml"@,
    };
    if path.len() == 0 {
        domain
    } else {
        without_last_slash(domain) + seq!['/'] + without_first_slash(path)
    }
}

/// What is done after an entry of the sitemap.
#[derive(Debug, Clone, Copy, PartialEq, Eq, Structural)]
pub enum SitemapStep {
    /// The pages are crawled from the link that was added.
    Crawl,
    /// The next entry is taken.
    Continue,
    /// The sitemap is done with.
    Done,
}

/// The way through one sitemap: its entries and the place of the next one.
#[derive(Debug)]
pub struct SitemapWalk {
    pub entities: Vec<SitemapEntity>,
    pub position: usize,
}

impl<P> Website<P> {
    /// Everything but the links still to be visited and the sitemaps is as in `other`.
    pub open spec fn same_but_frontier(self, other: Self) -> bool {
        &&& self.configuration == other.configuration
        &&& self.domain == other.domain
        &&& self.links_visited == other.links_visited
        &&& self.robot_file_parser == other.robot_file_parser
        &&& self.domain_parsed == other.domain_parsed
    }

    /// What starting the crawl through the sitemap does: the sitemap of the domain is the only one
    /// that is known, and it is read first.
    pub open spec fn starts_sitemaps(self, after: Self) -> bool {
        let first = sitemap_address(self.domain@, option_text(self.configuration.sitemap_path));
        &&& option_text(after.sitemap_url) == Some(first)
        &&& after.sitemaps_pending@.len() == 0
        &&& texts(after.sitemaps_known@) == seq![first]
        &&& after.links == self.links
        &&& after.same_but_frontier(self)
    }

    /// What finding a further sitemap does: it is to be read after all that are pending, unless it
    /// was known before.
    pub open spec fn finds_sitemap(self, url: Seq<char>, after: Self) -> bool {
        if texts(self.sitemaps_known@).contains(url) {
            after == self
        } else {
            &&& after.sitemap_url == self.sitemap_url
            &&& texts(after.sitemaps_pending@) == texts(self.sitemaps_pending@).push(url)
            &&& texts(after.sitemaps_known@) == texts(self.sitemaps_known@).push(url)
            &&& after.links == self.links
            &&& after.same_but_frontier(self)
        }
    }

    /// What taking an entry of a sitemap does: a page that is allowed becomes a link to be
    /// visited, and the pages are crawled from it; a further sitemap is kept to be read. An entry
    /// without an address and one that is not well formed are passed over.
    pub open spec fn takes_entry<F: Fn(&P, &str, &str) -> bool>(
        self,
        can_fetch: F,
        entity: SitemapEntityView,
        step: SitemapStep,
        after: Self,
    ) -> bool {
        match entity {
            SitemapEntityView::Url(Some(link)) => {
                &&& step is Crawl || step is Continue
                &&& exists|spelled: &str| #[trigger]
                    spelled@ == link && self.allowed_verdict(can_fetch, spelled, step is Crawl)
                &&& if step is Crawl {
                    &&& after.links@ == with_link(self.links@, link)
                    &&& after.same_but_links(self)
                } else {
                    after == self
                }
            },
            SitemapEntityView::SiteMap(Some(url)) => {
                &&& step is Continue
                &&& self.finds_sitemap(url, after)
            },
            _ => {
                &&& step is Continue
                &&& after == self
            },
        }
    }

    /// What ending the way through one sitemap does: the first one that is pending is read next,
    /// and none if there is none.
    pub open spec fn ends_sitemap(self, after: Self) -> bool {
        &&& if self.sitemaps_pending@.len() == 0 {
            &&& after.sitemap_url is None
            &&& after.sitemaps_pending == self.sitemaps_pending
        } else {
            &&& after.sitemap_url == Some(self.sitemaps_pending@[0])
            &&& after.sitemaps_pending@ == self.sitemaps_pending@.drop_first()
        }
        &&& after.sitemaps_known == self.sitemaps_known
        &&& after.links == self.links
        &&& after.same_but_frontier(self)
    }

    /// Starts the crawl through the sitemap: says where the sitemap is.
    pub fn sitemap_crawl(&mut self)
        ensures
            old(self).starts_sitemaps(*final(self)),
    {
        proof {
            reveal_strlit("/");
            assert("/"@ =~= seq!['/']);
            reveal_strlit("sitemap.xml");
        }
        let ends: bool = ends_with_slash(self.domain.as_str());
        let (path, needs_trailing) = match &self.configuration.sitemap_path {
            Some(path) => {
                let path = path.as_str();
                if ends && starts_with_slash(path) {
                    (path.substring_char(1, path.unicode_len()), false)
                } else if !ends && !path.is_empty() && !starts_with_slash(path) {
                    (path, true)
                } else {
                    (path, false)
                }
            },
            None => ("sitemap.xml", !ends),
        };
        let mut url = self.domain.as_str().to_owned();
        if needs_trailing {
            url.append("/");
        }
        url.append(path);
        assert(url@ =~= sitemap_address(self.domain@, option_text(self.configuration.sitemap_path)));
        self.sitemaps_pending = Vec::new();
        self.sitemaps_known = Vec::new();
        self.sitemaps_known.push(url.as_str().to_owned());
        assert(texts(self.sitemaps_known@) =~= seq![url@]);
        self.sitemap_url = Some(url);
    }

    /// Keeps a further sitemap to be read, unless it was known before.
    fn find_sitemap(&mut self, url: &str)
        ensures
            old(self).finds_sitemap(url@, *final(self)),
    {
        if !holds_text(&self.sitemaps_known, url) {
            self.sitemaps_pending.push(url.to_owned());
            self.sitemaps_known.push(url.to_owned());
            assert(texts(self.sitemaps_pending@) =~= texts(old(self).sitemaps_pending@).push(url@));
            assert(texts(self.sitemaps_known@) =~= texts(old(self).sitemaps_known@).push(url@));
        }
    }

    /// The sitemap that is to be fetched next: none if the crawl was called off or no sitemap is
    /// left.
    pub fn sitemap_request(&self, active: bool) -> (url: Option<String>)
        ensures
            option_text(url) == (if active {
                option_text(self.sitemap_url)
            } else {
                None
            }),
    {
        if !active {
            return None;
        }
        match &self.sitemap_url {
            Some(url) => Some(url.as_str().to_owned()),
            None => None,
        }
    }

    /// Ends the way through one sitemap: the next one that is pending takes its place.
    pub fn end_sitemap(&mut self)
        ensures
            old(self).ends_sitemap(*final(self)),
    {
        if self.sitemaps_pending.is_empty() {
            self.sitemap_url = None;
        } else {
            let next = self.sitemaps_pending.remove(0);
            assert(self.sitemaps_pending@ =~= old(self).sitemaps_pending@.drop_first());
            self.sitemap_url = Some(next);
        }
    }
}

impl SitemapWalk {
    /// The way through the sitemap that a request was answered with, before the first entry; a
    /// request that failed counts as answered with no entry.
    pub open spec fn answers(self, text: Option<Seq<char>>) -> bool {
        &&& entity_views(self.entities@) == (match text {
            Some(text) => sitemap_entities(text),
            None => Seq::empty(),
        })
        &&& self.position == 0
    }

    /// What taking the next entry does. There is nothing left to do behind the last entry, and in
    /// a crawl that was called off.
    pub open spec fn moves<P, F: Fn(&P, &str, &str) -> bool>(
        self,
        site: Website<P>,
        active: bool,
        can_fetch: F,
        step: SitemapStep,
        after: Self,
        site_after: Website<P>,
    ) -> bool {
        if !active || self.position >= self.entities@.len() {
            &&& step is Done
            &&& after == self
            &&& site_after == site
        } else {
            &&& after.entities == self.entities
            &&& after.position == self.position + 1
            &&& site.takes_entry(
                can_fetch,
                self.entities@[self.position as int]@,
                step,
                site_after,
            )
        }
    }

    /// The way through the given entries, before the first.
    pub fn through(entities: Vec<SitemapEntity>) -> (walk: Self)
        ensures
            walk.entities == entities,
            walk.position == 0,
    {
        SitemapWalk { entities, position: 0 }
    }

    /// The way through the sitemap that `text` is.
    pub fn read(text: &str) -> (walk: Self)
        ensures
            entity_views(walk.entities@) == sitemap_entities(text@),
            walk.position == 0,
    {
        Self::through(read_entities(text))
    }

    /// The way through the sitemap that a request was answered with; without entries where it
    /// failed.
    pub fn of_answer(text: Option<&str>) -> (walk: Self)
        ensures
            match text {
                Some(text) => walk.answers(Some(text@)),
                None => walk.answers(None),
            },
    {
        match text {
            Some(text) => Self::read(text),
            None => {
                let walk = Self::through(Vec::new());
                assert(entity_views(walk.entities@) =~= Seq::empty());
                walk
            },
        }
    }

    /// Takes the next entry; `active` says whether the client still wants the crawl.
    pub fn next_entry<P, F: Fn(&P, &str, &str) -> bool>(
        &mut self,
        site: &mut Website<P>,
        active: bool,
        can_fetch: F,
    ) -> (step: SitemapStep)
        requires
            active && old(self).position < old(self).entities.len() ==> (match old(
                self,
            ).entities@[old(self).position as int]@ {
                SitemapEntityView::Url(Some(link)) => old(site).can_ask_of(can_fetch, link),
                _ => true,
            }),
        ensures
            old(self).moves(
                *old(site),
                active,
                can_fetch,
                step,
                *final(self),
                *final(site),
            ),
            old(site).links_unvisited() ==> final(site).links_unvisited(),
    {
        if !active || self.position >= self.entities.len() {
            return SitemapStep::Done;
        }
        let place: usize = self.position;
        self.position = place + 1;
        match &self.entities[place] {
            SitemapEntity::Url(Some(link)) => {
                if site.is_allowed(link.as_str(), can_fetch) {
                    site.links.insert(link.as_str());
                    SitemapStep::Crawl
                } else {
                    SitemapStep::Continue
                }
            },
            SitemapEntity::SiteMap(Some(url)) => {
                site.find_sitemap(url.as_str());
                SitemapStep::Continue
            },
            _ => SitemapStep::Continue,
        }
    }
}

} // verus!
