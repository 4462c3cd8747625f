//! Sets of links that are compared without regard to ASCII case.

use crate::text::{fold, texts};
use case_insensitive_string::CaseInsensitiveString;
use vstd::prelude::*;

verus! {

/// A set of links, held as a `hashbrown::HashSet` of `CaseInsensitiveString`s.
///
/// Its view maps the folded form of each member to the spelling that the set keeps of it. The
/// struct is opaque as a whole: `hashbrown::HashSet` has a parameter for the allocator, bound by a
/// trait that `hashbrown` keeps to itself, so that no declaration can repeat its header.
#[derive(Debug)]
#[verifier::external_body]
pub struct LinkSet {
    inner: hashbrown::HashSet<CaseInsensitiveString>,
}

/// What a link set holds: the folded form of each member, with the spelling that is kept.
pub uninterp spec fn link_map(set: LinkSet) -> Map<Seq<char>, Seq<char>>;

impl View for LinkSet {
    type V = Map<Seq<char>, Seq<char>>;

    open spec fn view(&self) -> Map<Seq<char>, Seq<char>> {
        link_map(*self)
    }
}

/// The members of a set that has none.
pub open spec fn no_links() -> Map<Seq<char>, Seq<char>> {
    Map::empty()
}

/// `items` names every member of `members` once, in the spelling that is kept.
pub open spec fn lists(items: Seq<Seq<char>>, members: Map<Seq<char>, Seq<char>>) -> bool {
    &&& forall|i: int|
        0 <= i < items.len() ==> members.contains_key(fold(#[trigger] items[i]))
            && members[fold(items[i])] == items[i]
    &&& forall|i: int, j: int|
        0 <= i < j < items.len() ==> fold(#[trigger] items[i]) != fold(#[trigger] items[j])
    &&& forall|k: Seq<char>| #[trigger]
        members.contains_key(k) ==> exists|i: int| 0 <= i < items.len() && fold(items[i]) == k
}

/// The members after `link` is added: a member that is already there keeps its spelling.
pub open spec fn with_link(
    members: Map<Seq<char>, Seq<char>>,
    link: Seq<char>,
) -> Map<Seq<char>, Seq<char>> {
    if members.contains_key(fold(link)) {
        members
    } else {
        members.insert(fold(link), link)
    }
}

/// `hashbrown::HashSet::new`: a set without members.
#[verifier::external_body]
fn set_new() -> (set: LinkSet)
    ensures
        link_map(set) == no_links(),
{
    LinkSet { inner: hashbrown::HashSet::new() }
}

/// `hashbrown::HashSet::insert` of a `CaseInsensitiveString` made from `link`: the link becomes
/// a member unless one that differs only in ASCII case is there already, which then stays as it
/// is; the result says whether the link was added.
#[verifier::external_body]
fn set_insert(set: &mut LinkSet, link: &str) -> (added: bool)
    ensures
        added == !link_map(*old(set)).contains_key(fold(link@)),
        link_map(*final(set)) == with_link(link_map(*old(set)), link@),
{
    set.inner.insert(CaseInsensitiveString::from(link))
}

/// `hashbrown::HashSet::contains` of a `CaseInsensitiveString` made from `link`: whether a
/// member equals the link up to ASCII case.
#[verifier::external_body]
fn set_contains(set: &LinkSet, link: &str) -> (r: bool)
    ensures
        r == link_map(*set).contains_key(fold(link@)),
{
    set.inner.contains(&CaseInsensitiveString::from(link))
}

/// `hashbrown::HashSet::is_empty`: whether there is no member.
#[verifier::external_body]
fn set_is_empty(set: &LinkSet) -> (r: bool)
    ensures
        r == (link_map(*set) == no_links()),
{
    set.inner.is_empty()
}

/// `hashbrown::HashSet::iter`: each member once, in the spelling that is kept, in an order that
/// is left open.
#[verifier::external_body]
fn set_iter(set: &LinkSet) -> (items: Vec<String>)
    ensures
        lists(texts(items@), link_map(*set)),
{
    set.inner.iter().map(|link| link.inner().to_string()).collect()
}

/// `hashbrown::HashSet::drain`: each member once, in the spelling that is kept, in an order that
/// is left open; the set is empty afterwards.
#[verifier::external_body]
fn set_drain(set: &mut LinkSet) -> (items: Vec<String>)
    ensures
        lists(texts(items@), link_map(*old(set))),
        link_map(*final(set)) == no_links(),
{
    set.inner.drain().map(|link| link.inner().to_string()).collect()
}

/// `Extend::extend` of `hashbrown::HashSet`: the members of `other` join those of `set`; where
/// both hold a link, the spelling in `set` stays.
#[verifier::external_body]
fn set_extend(set: &mut LinkSet, other: LinkSet)
    ensures
        link_map(*final(set)) == link_map(other).union_prefer_right(link_map(*old(set))),
{
    set.inner.extend(other.inner)
}

/// `Sub::sub` of `&hashbrown::HashSet`: the members of `a` that `b` does not hold, in the
/// spelling of `a`.
#[verifier::external_body]
fn set_difference(a: &LinkSet, b: &LinkSet) -> (set: LinkSet)
    ensures
        link_map(set) == link_map(*a).remove_keys(link_map(*b).dom()),
{
    LinkSet { inner: &a.inner - &b.inner }
}

impl LinkSet {
    /// A set without members.
    pub fn new() -> (set: Self)
        ensures
            set@ == no_links(),
    {
        set_new()
    }

    /// Adds `link`, unless a link that differs only in case is there; says whether it was added.
    pub fn insert(&mut self, link: &str) -> (added: bool)
        ensures
            added == !old(self)@.contains_key(fold(link@)),
            final(self)@ == with_link(old(self)@, link@),
    {
        set_insert(self, link)
    }

    /// Whether the set holds `link`, in any spelling.
    pub fn contains(&self, link: &str) -> (r: bool)
        ensures
            r == self@.contains_key(fold(link@)),
    {
        set_contains(self, link)
    }

    /// Whether the set has no member.
    pub fn is_empty(&self) -> (r: bool)
        ensures
            r == (self@ == no_links()),
    {
        set_is_empty(self)
    }

    /// The members, each once, in some order.
    pub fn to_vec(&self) -> (items: Vec<String>)
        ensures
            lists(texts(items@), self@),
    {
        set_iter(self)
    }

    /// Takes the members out, each once, in some order.
    pub fn drain(&mut self) -> (items: Vec<String>)
        ensures
            lists(texts(items@), old(self)@),
            final(self)@ == no_links(),
    {
        set_drain(self)
    }

    /// Adds the members of `other`; a link that both hold keeps the spelling it has here.
    pub fn extend(&mut self, other: LinkSet)
        ensures
            final(self)@ == other@.union_prefer_right(old(self)@),
    {
        set_extend(self, other)
    }

    /// The members that `other` does not hold.
    pub fn difference(&self, other: &LinkSet) -> (set: LinkSet)
        ensures
            set@ == self@.remove_keys(other@.dom()),
    {
        set_difference(self, other)
    }
}

} // verus!
