//! What holds of the store across several operations.

use vstd::prelude::*;
use crate::ident::parsed_id;
use crate::reading::{ReadingModel, Timestamp};
use crate::samples::is_seeded;
use crate::store::{
    distinct_ids, distinct_times, found_in, holds, is_listing_of, lemma_count, lemma_position,
    newest_first, strictly_newest_first, Store,
};

verus! {

/// The identifiers of a list of records are pairwise different, and none of
/// them is a key of the map.
pub open spec fn all_new(m: Map<u128, ReadingModel>, created: Seq<ReadingModel>) -> bool {
    &&& forall|i: int| 0 <= i < created.len() ==> !m.contains_key((#[trigger] created[i]).id)
    &&& distinct_ids(created)
}

/// The records after a run of insertions: each record of the list put under
/// its identifier, in order.
pub open spec fn with_all(m: Map<u128, ReadingModel>, created: Seq<ReadingModel>) -> Map<
    u128,
    ReadingModel,
>
    decreases created.len(),
{
    if created.len() == 0 {
        m
    } else {
        with_all(m, created.drop_last()).insert(created.last().id, created.last())
    }
}

/// Insertions under new, pairwise different identifiers add one key each.
pub proof fn lemma_with_all_count(m: Map<u128, ReadingModel>, created: Seq<ReadingModel>)
    requires
        m.dom().finite(),
        all_new(m, created),
    ensures
        with_all(m, created).dom().finite(),
        with_all(m, created).dom().len() == m.dom().len() + created.len(),
        forall|id: u128|
            #[trigger] with_all(m, created).contains_key(id) <==> (m.contains_key(id) || holds(
                created,
                id,
            )),
    decreases created.len(),
{
    if created.len() == 0 {
        assert forall|id: u128| !holds(created, id) by {
            if holds(created, id) {
                let i = choose|i: int| 0 <= i < created.len() && #[trigger] created[i].id == id;
                assert(false);
            }
        }
    } else {
        let p = created.drop_last();
        let r = created.last();
        assert forall|i: int, j: int| 0 <= i < j < p.len() implies #[trigger] p[i].id
            != #[trigger] p[j].id by {
            assert(created[i].id != created[j].id);
        }
        assert forall|i: int| 0 <= i < p.len() implies !m.contains_key((#[trigger] p[i]).id) by {
            assert(p[i] == created[i]);
        }
        lemma_with_all_count(m, p);
        if holds(p, r.id) {
            let i = choose|i: int| 0 <= i < p.len() && #[trigger] p[i].id == r.id;
            assert(created[i].id != created[created.len() - 1].id);
        }
        assert(!m.contains_key(created[created.len() - 1].id));
        assert forall|id: u128|
            #[trigger] with_all(m, created).contains_key(id) <==> (m.contains_key(id) || holds(
                created,
                id,
            )) by {
            if holds(created, id) && id != r.id {
                let i = choose|i: int| 0 <= i < created.len() && #[trigger] created[i].id == id;
                assert(p[i].id == id);
            }
            if holds(p, id) {
                let i = choose|i: int| 0 <= i < p.len() && #[trigger] p[i].id == id;
                assert(created[i].id == id);
            }
            if id == r.id {
                assert(created[created.len() - 1].id == id);
            }
        }
    }
}

/// No identifier is listed twice: two places of a listing that carry the
/// same identifier are one place, and the record found under an identifier
/// is the one listed with it.
pub proof fn law_one_record_per_identifier(s: Store, l: Seq<ReadingModel>, i: int, j: int)
    requires
        is_listing_of(l, s@),
        0 <= i < l.len(),
        0 <= j < l.len(),
        l[i].id == l[j].id,
    ensures
        i == j,
        found_in(s@, Some(l[i].id)) == Some(l[i]),
{
    lemma_position(l, i);
    lemma_position(l, j);
}

/// A reading recorded under an identifier that was not on record leaves every
/// earlier record as it was, under an identifier other than its own, and
/// makes the records one more.
pub proof fn law_new_identifier_is_unique(before: Store, after: Store, r: ReadingModel, earlier: u128)
    requires
        before.wf(),
        after@ == before@.insert(r.id, r),
        !before@.contains_key(r.id),
        before@.contains_key(earlier),
    ensures
        earlier != r.id,
        found_in(after@, Some(earlier)) == found_in(before@, Some(earlier)),
        after@.dom().len() == before@.dom().len() + 1,
{
}

/// A listing has one record for each identifier on record.
pub proof fn law_listing_counts_records(s: Store, l: Seq<ReadingModel>)
    requires
        is_listing_of(l, s@),
    ensures
        s@.dom().finite(),
        l.len() == s@.dom().len(),
{
    lemma_count(l);
}

/// After any number of readings recorded under new, pairwise different
/// identifiers, a listing is longer by that number, and it runs from newest
/// to oldest: strictly so where no two records were made at the same time.
pub proof fn law_listing_after_creates(
    before: Store,
    created: Seq<ReadingModel>,
    after: Store,
    l: Seq<ReadingModel>,
)
    requires
        before.wf(),
        all_new(before@, created),
        after@ == with_all(before@, created),
        is_listing_of(l, after@),
    ensures
        l.len() == before@.dom().len() + created.len(),
        newest_first(l),
        distinct_times(l) ==> strictly_newest_first(l),
{
    lemma_count(l);
    lemma_with_all_count(before@, created);
    if distinct_times(l) {
        assert forall|i: int, j: int| 0 <= i < j < l.len() implies (#[trigger] l[i]).created_at.after(
            (#[trigger] l[j]).created_at,
        ) by {
            assert(l[i].created_at.not_before(l[j].created_at));
            assert(l[i].created_at != l[j].created_at);
        }
    }
}

/// A store seeded under three different identifiers, after any number of
/// readings recorded under new, pairwise different identifiers, lists three
/// records more than were recorded.
pub proof fn law_seeded_listing_after_creates(
    seeded: Store,
    a: u128,
    b: u128,
    c: u128,
    now: Timestamp,
    created: Seq<ReadingModel>,
    after: Store,
    l: Seq<ReadingModel>,
)
    requires
        is_seeded(seeded, a, b, c, now),
        a != b && a != c && b != c,
        all_new(seeded@, created),
        after@ == with_all(seeded@, created),
        is_listing_of(l, after@),
    ensures
        l.len() == created.len() + 3,
{
    law_listing_after_creates(seeded, created, after, l);
    let e = Set::<u128>::empty();
    assert(seeded@.dom() =~= e.insert(a).insert(b).insert(c));
    assert(e.insert(a).len() == 1);
    assert(e.insert(a).insert(b).len() == 2);
}

/// A reading that was just recorded is found under its identifier, equal in
/// every field to what was recorded, whatever text denotes that identifier.
pub proof fn law_created_is_found(before: Store, after: Store, r: ReadingModel, text: Seq<char>)
    requires
        after@ == before@.insert(r.id, r),
        parsed_id(text) == Some(r.id),
    ensures
        found_in(after@, parsed_id(text)) == Some(r),
{
}

/// A reading stays found, unchanged, when another is recorded under a
/// different identifier.
pub proof fn law_found_survives_create(before: Store, after: Store, r: ReadingModel, id: u128)
    requires
        after@ == before@.insert(r.id, r),
        id != r.id,
    ensures
        found_in(after@, Some(id)) == found_in(before@, Some(id)),
{
}

/// A text that denotes no identifier and an identifier that is not on record
/// get the same answer: nothing.
pub proof fn law_unknown_and_malformed_alike(s: Store, unused: u128, text: Seq<char>)
    requires
        !s@.contains_key(unused),
        parsed_id(text) is None,
    ensures
        found_in(s@, Some(unused)) == found_in(s@, parsed_id(text)),
        found_in(s@, parsed_id(text)) is None,
{
}

} // verus!
