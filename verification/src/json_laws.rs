//! What is read out of a JSON document, and what stands in a written one.
use crate::json::{list_member, member, members, record, text_member, Json};
use vstd::prelude::*;

verus! {

/// A text is read under a key exactly where the document is a record with that
/// text under that key, and a list exactly where it is a record with that list
/// there. Whatever stands under a key of a record is its member.
pub proof fn law_members_are_read(document: Json, key: Seq<char>)
    ensures
        forall|value: Json| #[trigger]
            is_under(document, key, value) <==> member(document, key) == Some(value),
        forall|text: Seq<char>|
            #[trigger] is_under(document, key, Json::Text(text)) <==> text_member(document, key)
                == Some(text),
        forall|items: Seq<Json>|
            #[trigger] is_under(document, key, Json::List(items)) <==> list_member(document, key)
                == Some(items),
{
}

/// The document is a record that holds a value under a key.
pub open spec fn is_under(document: Json, key: Seq<char>, value: Json) -> bool {
    document matches Json::Record(held) && held.contains_key(key) && held[key] == value
}

/// What stands under a row of keys, each in the record under the one before it.
pub open spec fn reached(document: Json, keys: Seq<Seq<char>>) -> Option<Json>
    decreases keys.len(),
{
    if keys.len() == 0 {
        Some(document)
    } else {
        match document {
            Json::Record(held) => if held.contains_key(keys[0]) {
                reached(held[keys[0]], keys.skip(1))
            } else {
                None
            },
            _ => None,
        }
    }
}

/// A record holds the entries it was made of, and nothing under any other key.
pub proof fn law_record_holds_its_entries(entries: Seq<(Seq<char>, Json)>)
    requires
        forall|i: int, j: int| 0 <= i < j < entries.len() ==> entries[i].0 != entries[j].0,
    ensures
        record(entries) matches Json::Record(held) && {
            &&& forall|i: int|
                0 <= i < entries.len() ==> held.contains_key((#[trigger] entries[i]).0)
                    && held[entries[i].0] == entries[i].1
            &&& forall|key: Seq<char>|
                held.contains_key(key) ==> exists|i: int|
                    0 <= i < entries.len() && (#[trigger] entries[i]).0 == key
        },
    decreases entries.len(),
{
    if entries.len() > 0 {
        let rest = entries.drop_last();
        law_record_holds_its_entries(rest);
        let held = members(entries);
        assert forall|i: int| 0 <= i < entries.len() implies held.contains_key(
            (#[trigger] entries[i]).0,
        ) && held[entries[i].0] == entries[i].1 by {
            if i < rest.len() {
                assert(rest[i] == entries[i]);
            }
        }
        assert forall|key: Seq<char>| held.contains_key(key) implies exists|i: int|
            0 <= i < entries.len() && (#[trigger] entries[i]).0 == key by {
            if members(rest).contains_key(key) {
                let i = choose|i: int| 0 <= i < rest.len() && (#[trigger] rest[i]).0 == key;
                assert(entries[i].0 == key);
            } else {
                assert(entries[entries.len() - 1].0 == key);
            }
        }
    }
}

/// A record of one entry.
pub proof fn lemma_one_entry(key: Seq<char>, value: Json)
    ensures
        record(seq![(key, value)]) == Json::Record(Map::empty().insert(key, value)),
{
    let entries = seq![(key, value)];
    reveal_with_fuel(members, 2);
    assert(entries.drop_last() =~= Seq::empty());
}

/// A record of two entries.
pub proof fn lemma_two_entries(one: (Seq<char>, Json), two: (Seq<char>, Json))
    ensures
        record(seq![one, two]) == Json::Record(
            Map::empty().insert(one.0, one.1).insert(two.0, two.1),
        ),
{
    let entries = seq![one, two];
    reveal_with_fuel(members, 3);
    assert(entries.drop_last() =~= seq![one]);
    assert(entries.drop_last().drop_last() =~= Seq::empty());
}

/// A record of three entries.
pub proof fn lemma_three_entries(
    one: (Seq<char>, Json),
    two: (Seq<char>, Json),
    three: (Seq<char>, Json),
)
    ensures
        record(seq![one, two, three]) == Json::Record(
            Map::empty().insert(one.0, one.1).insert(two.0, two.1).insert(three.0, three.1),
        ),
{
    let entries = seq![one, two, three];
    reveal_with_fuel(members, 4);
    assert(entries.drop_last() =~= seq![one, two]);
    assert(entries.drop_last().drop_last() =~= seq![one]);
    assert(entries.drop_last().drop_last().drop_last() =~= Seq::empty());
}

} // verus!
