//! What holds of texts and of sets of links: which links count as the same, and what becomes of
//! the members of a set.

use crate::link_set::{lists, LinkSet};
use crate::text::{
    ends_with_slash, fold, holds_text, option_text, same_text, starts_with_slash, texts,
};
use vstd::prelude::*;

verus! {

/// `lower` is the lower case form of the ASCII letter `upper`.
pub open spec fn is_lower_of(lower: char, upper: char) -> bool {
    'A' <= upper && upper <= 'Z' && lower as u32 == upper as u32 + 32
}

/// The two characters are the same but for the case of an ASCII letter.
pub open spec fn is_same_letter(a: char, b: char) -> bool {
    a == b || is_lower_of(a, b) || is_lower_of(b, a)
}

/// Two links count as the same exactly where they have the same characters in the same places, but
/// for the case of ASCII letters.
pub proof fn links_are_the_same_but_for_case(a: Seq<char>, b: Seq<char>)
    ensures
        fold(a) == fold(b) <==> a.len() == b.len() && forall|i: int|
            0 <= i < a.len() ==> is_same_letter(#[trigger] a[i], b[i]),
{
    if fold(a) == fold(b) {
        assert(fold(a).len() == a.len() && fold(b).len() == b.len());
        assert forall|i: int| 0 <= i < a.len() implies is_same_letter(#[trigger] a[i], b[i]) by {
            assert(fold(a)[i] == fold(b)[i]);
        }
    }
    if a.len() == b.len() && forall|i: int|
        0 <= i < a.len() ==> is_same_letter(#[trigger] a[i], b[i]) {
        assert forall|i: int| 0 <= i < a.len() implies fold(a)[i] == fold(b)[i] by {
            assert(is_same_letter(a[i], b[i]));
        }
        assert(fold(a) =~= fold(b));
    }
}

/// The form under which a link is known counts as the same link.
pub proof fn folded_links_are_the_same(link: Seq<char>)
    ensures
        fold(fold(link)) == fold(link),
        fold(link).len() == link.len(),
{
    assert(fold(fold(link)) =~= fold(link));
}

/// The texts of a list are those of its members, each in its place.
pub proof fn texts_stand_in_their_places(items: Seq<String>)
    ensures
        texts(items).len() == items.len(),
        forall|i: int| 0 <= i < items.len() ==> #[trigger] texts(items)[i] == items[i]@,
        option_text(None) is None,
        forall|item: String| #[trigger] option_text(Some(item)) == Some(item@),
{
}

/// A text ends, or starts, with a slash exactly where its last, or first, character is one.
pub proof fn slashes_are_seen(s: &str, ends: bool, starts: bool)
    requires
        call_ensures(ends_with_slash, (s,), ends),
        call_ensures(starts_with_slash, (s,), starts),
    ensures
        s@.len() == 0 ==> !ends && !starts,
        s@.len() > 0 ==> ends == (s@[s@.len() - 1] == '/') && starts == (s@[0] == '/'),
{
}

/// A list holds a text exactly where one of its members is that text, letter for letter.
pub proof fn lists_hold_their_members(items: &Vec<String>, text: &str, r: bool)
    requires
        call_ensures(holds_text, (items, text), r),
    ensures
        r <==> exists|i: int| 0 <= i < items@.len() && (#[trigger] items@[i])@ == text@,
{
    if r {
        let i = choose|i: int| 0 <= i < texts(items@).len() && texts(items@)[i] == text@;
        assert(items@[i]@ == text@);
    }
    if exists|i: int| 0 <= i < items@.len() && (#[trigger] items@[i])@ == text@ {
        let i = choose|i: int| 0 <= i < items@.len() && (#[trigger] items@[i])@ == text@;
        assert(texts(items@)[i] == text@);
    }
}

/// Two texts are the same exactly where they have the same characters.
pub proof fn texts_are_compared_in_full(a: &str, b: &str, r: bool)
    requires
        call_ensures(same_text, (a, b), r),
    ensures
        r <==> a@.len() == b@.len() && forall|i: int|
            0 <= i < a@.len() ==> #[trigger] a@[i] == b@[i],
{
    if a@.len() == b@.len() && forall|i: int| 0 <= i < a@.len() ==> #[trigger] a@[i] == b@[i] {
        assert(a@ =~= b@);
    }
}

/// A new set has no member.
pub proof fn new_sets_are_empty(set: LinkSet, link: &str, r: bool, empty: bool)
    requires
        call_ensures(LinkSet::new, (), set),
        call_ensures(LinkSet::contains, (&set, link), r),
        call_ensures(LinkSet::is_empty, (&set,), empty),
    ensures
        !r,
        empty,
{
}

/// After a link was added, the set holds it in any spelling, and every other link exactly where it
/// held it before; the link was added exactly where no spelling of it was there.
pub proof fn added_links_are_held(
    set: &mut LinkSet,
    link: &str,
    added: bool,
    other: &str,
    before: bool,
    after: bool,
)
    requires
        call_ensures(LinkSet::insert, (set, link), added),
        call_ensures(LinkSet::contains, (old(set), other), before),
        call_ensures(LinkSet::contains, (final(set), other), after),
    ensures
        fold(other@) == fold(link@) ==> after && added == !before,
        fold(other@) != fold(link@) ==> after == before,
{
}

/// A member keeps the spelling in which it was added first.
pub proof fn first_spellings_are_kept(set: &mut LinkSet, link: &str, added: bool)
    requires
        call_ensures(LinkSet::insert, (set, link), added),
    ensures
        forall|k: Seq<char>| #[trigger]
            old(set)@.contains_key(k) ==> final(set)@.contains_key(k) && final(set)@[k] == old(
                set,
            )@[k],
        added ==> final(set)@[fold(link@)] == link@,
        !final(set)@.is_empty(),
{
    assert(final(set)@.dom().contains(fold(link@)));
}

/// The items name each member once, in the spelling that is kept, and nothing else.
pub open spec fn names_each_once(
    items: Seq<String>,
    members: Map<Seq<char>, Seq<char>>,
) -> bool {
    &&& forall|k: Seq<char>| #[trigger]
        members.contains_key(k) ==> exists|i: int|
            0 <= i < items.len() && (#[trigger] items[i])@ == members[k] && fold(items[i]@) == k
    &&& forall|i: int|
        0 <= i < items.len() ==> members.contains_key(fold((#[trigger] items[i])@))
            && members[fold(items[i]@)] == items[i]@
    &&& forall|i: int, j: int|
        0 <= i < j < items.len() ==> fold((#[trigger] items[i])@) != fold((#[trigger] items[j])@)
}

/// A list of the members of a set names each of them once, and nothing else.
pub proof fn lists_name_each_once(items: Seq<String>, members: Map<Seq<char>, Seq<char>>)
    requires
        lists(texts(items), members),
    ensures
        names_each_once(items, members),
{
    assert forall|k: Seq<char>| #[trigger] members.contains_key(k) implies exists|i: int|
        0 <= i < items.len() && (#[trigger] items[i])@ == members[k] && fold(items[i]@) == k by {
        let i = choose|i: int| 0 <= i < texts(items).len() && fold(texts(items)[i]) == k;
        assert(items[i]@ == texts(items)[i]);
    }
    assert forall|i: int| 0 <= i < items.len() implies members.contains_key(
        fold((#[trigger] items[i])@),
    ) && members[fold(items[i]@)] == items[i]@ by {
        assert(texts(items)[i] == items[i]@);
    }
    assert forall|i: int, j: int| 0 <= i < j < items.len() implies fold((#[trigger] items[i])@)
        != fold((#[trigger] items[j])@) by {
        assert(texts(items)[i] == items[i]@ && texts(items)[j] == items[j]@);
    }
}

/// The members of a set are each named once, whether they stay in it or are taken out; a set whose
/// members are taken out is empty.
pub proof fn members_are_named_once(
    set: &LinkSet,
    items: Vec<String>,
    drained: &mut LinkSet,
    taken: Vec<String>,
)
    requires
        call_ensures(LinkSet::to_vec, (set,), items),
        call_ensures(LinkSet::drain, (drained,), taken),
    ensures
        names_each_once(items@, set@),
        names_each_once(taken@, old(drained)@),
        forall|k: Seq<char>| !final(drained)@.contains_key(k),
{
    lists_name_each_once(items@, set@);
    lists_name_each_once(taken@, old(drained)@);
}

/// A set is empty exactly where it holds no link.
pub proof fn empty_sets_hold_nothing(set: &LinkSet, r: bool)
    requires
        call_ensures(LinkSet::is_empty, (set,), r),
    ensures
        r <==> forall|k: Seq<char>| !#[trigger] set@.contains_key(k),
{
    if forall|k: Seq<char>| !#[trigger] set@.contains_key(k) {
        assert(set@ =~= Map::empty());
    }
}

/// A set that another joined holds the links of both, those that it held before in the spelling
/// that it kept.
pub proof fn joined_sets_hold_both(set: &mut LinkSet, other: LinkSet)
    requires
        call_ensures(LinkSet::extend, (set, other), ()),
    ensures
        forall|k: Seq<char>| #[trigger]
            final(set)@.contains_key(k) <==> old(set)@.contains_key(k) || other@.contains_key(k),
        forall|k: Seq<char>| #[trigger]
            final(set)@.contains_key(k) ==> final(set)@[k] == (if old(set)@.contains_key(k) {
                old(set)@[k]
            } else {
                other@[k]
            }),
{
}

/// A difference holds exactly the links of the one set that the other does not hold.
pub proof fn differences_leave_out_the_other(set: &LinkSet, other: &LinkSet, rest: LinkSet)
    requires
        call_ensures(LinkSet::difference, (set, other), rest),
    ensures
        forall|k: Seq<char>| #[trigger]
            rest@.contains_key(k) <==> set@.contains_key(k) && !other@.contains_key(k),
        forall|k: Seq<char>| #[trigger] rest@.contains_key(k) ==> rest@[k] == set@[k],
{
}

} // verus!
