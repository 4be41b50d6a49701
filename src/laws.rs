//! Properties that relate several catalog operations, stated over the
//! catalog's view and the listings that `list_item` hands back.

use vstd::prelude::*;
use crate::catalog::{Collection, Item, lists_exactly, records};

verus! {

/// Upserting the same name twice leaves the catalog as the second upsert
/// alone would, and any listing of it holds exactly one record for that
/// name, with the second quantity: the last write wins.
pub proof fn lemma_upsert_twice_last_write_wins(
    c: Collection,
    name: Seq<char>,
    first: u8,
    second: u8,
    listed: Seq<Item>,
)
    requires
        lists_exactly(listed, c@.insert(name, first).insert(name, second)),
    ensures
        c@.insert(name, first).insert(name, second) == c@.insert(name, second),
        c@.insert(name, first).insert(name, second)[name] == second,
        exists|i: int| 0 <= i < listed.len() && listed[i].name@ == name && listed[i].quantity == second,
        forall|i: int, j: int|
            0 <= i < listed.len() && 0 <= j < listed.len() && listed[i].name@ == name
                && listed[j].name@ == name ==> i == j,
{
    let m = c@.insert(name, first).insert(name, second);
    assert(m =~= c@.insert(name, second));
    assert(m.contains_key(name));
    let i = choose|i: int| 0 <= i < listed.len() && listed[i].name@ == name;
    assert(m.contains_key(listed[i].name@));
    assert forall|a: int, b: int|
        0 <= a < listed.len() && 0 <= b < listed.len() && listed[a].name@ == name
            && listed[b].name@ == name implies a == b by {
        if a < b {
            assert(listed[a].name@ != listed[b].name@);
        } else if b < a {
            assert(listed[b].name@ != listed[a].name@);
        }
    }
}

/// A listing of a catalog that received one upsert after being created
/// empty holds exactly that one record, and is not the empty report.
pub proof fn lemma_single_upsert_lists_one(name: Seq<char>, quantity: u8, listed: Seq<Item>)
    requires
        lists_exactly(listed, Map::<Seq<char>, u8>::empty().insert(name, quantity)),
    ensures
        Map::<Seq<char>, u8>::empty().insert(name, quantity) != Map::<Seq<char>, u8>::empty(),
        listed.len() == 1,
        listed[0].name@ == name,
        listed[0].quantity == quantity,
{
    let m = Map::<Seq<char>, u8>::empty().insert(name, quantity);
    assert(m.contains_key(name));
    assert(!Map::<Seq<char>, u8>::empty().contains_key(name));
    let i = choose|i: int| 0 <= i < listed.len() && listed[i].name@ == name;
    if listed.len() > 1 {
        assert(m.contains_key(listed[0].name@));
        assert(m.contains_key(listed[1].name@));
        assert(listed[0].name@ != listed[1].name@);
    }
    assert(m.contains_key(listed[0].name@));
}

/// Two listings of the same catalog contents hold the same records: listing
/// is a snapshot and can be repeated.
pub proof fn lemma_listing_is_repeatable(c: Collection, first: Seq<Item>, second: Seq<Item>)
    requires
        lists_exactly(first, c@),
        lists_exactly(second, c@),
    ensures
        records(first) == records(second),
{
    assert forall|p: (Seq<char>, u8)| records(first).contains(p) implies records(
        second,
    ).contains(p) by {
        let i = choose|i: int|
            0 <= i < first.len() && first[i].name@ == p.0 && first[i].quantity == p.1;
        assert(c@.contains_key(first[i].name@));
        let j = choose|j: int| 0 <= j < second.len() && second[j].name@ == p.0;
        assert(c@.contains_key(second[j].name@));
    }
    assert forall|p: (Seq<char>, u8)| records(second).contains(p) implies records(
        first,
    ).contains(p) by {
        let i = choose|i: int|
            0 <= i < second.len() && second[i].name@ == p.0 && second[i].quantity == p.1;
        assert(c@.contains_key(second[i].name@));
        let j = choose|j: int| 0 <= j < first.len() && first[j].name@ == p.0;
        assert(c@.contains_key(first[j].name@));
    }
    assert(records(first) =~= records(second));
}

} // verus!
