//! The store: every reading on record, found by its identifier and listed
//! newest first.

use vstd::prelude::*;
use std::collections::HashMap;
use crate::clock::current_time;
use crate::ident::{fresh_id, parse_id, parsed_id, is_random_kind};
use crate::reading::{models_of, texts_of, Reading, ReadingModel, Timestamp};

verus! {

/// Some record of the list has this identifier.
pub open spec fn holds(l: Seq<ReadingModel>, id: u128) -> bool {
    exists|i: int| 0 <= i < l.len() && #[trigger] l[i].id == id
}

/// Where in the list a record with this identifier stands.
pub open spec fn position(l: Seq<ReadingModel>, id: u128) -> int {
    choose|i: int| 0 <= i < l.len() && #[trigger] l[i].id == id
}

/// No two records of the list share an identifier.
pub open spec fn distinct_ids(l: Seq<ReadingModel>) -> bool {
    forall|i: int, j: int| 0 <= i < j < l.len() ==> #[trigger] l[i].id != #[trigger] l[j].id
}

/// No record of the list is older than one that comes after it.
pub open spec fn newest_first(l: Seq<ReadingModel>) -> bool {
    forall|i: int, j: int|
        0 <= i < j < l.len() ==> (#[trigger] l[i]).created_at.not_before((#[trigger] l[j]).created_at)
}

/// Every record of the list is strictly newer than each one after it.
pub open spec fn strictly_newest_first(l: Seq<ReadingModel>) -> bool {
    forall|i: int, j: int|
        0 <= i < j < l.len() ==> (#[trigger] l[i]).created_at.after((#[trigger] l[j]).created_at)
}

/// No two records of the list were made at the same time.
pub open spec fn distinct_times(l: Seq<ReadingModel>) -> bool {
    forall|i: int, j: int|
        0 <= i < j < l.len() ==> (#[trigger] l[i]).created_at != (#[trigger] l[j]).created_at
}

/// The records of a list, each under its identifier.
pub open spec fn records_of(l: Seq<ReadingModel>) -> Map<u128, ReadingModel> {
    Map::new(|id: u128| holds(l, id), |id: u128| l[position(l, id)])
}

/// What a search of the records gives for a text that was read as an
/// identifier: the record under that identifier, and nothing where the text
/// denoted none or no record has it.
pub open spec fn found_in(m: Map<u128, ReadingModel>, parsed: Option<u128>) -> Option<ReadingModel> {
    match parsed {
        Some(id) => if m.contains_key(id) {
            Some(m[id])
        } else {
            None
        },
        None => None,
    }
}

/// What an optional reading is, as a mathematical value.
pub open spec fn model_of(r: Option<Reading>) -> Option<ReadingModel> {
    match r {
        Some(x) => Some(x@),
        None => None,
    }
}

/// In a list without repeated identifiers, a record's identifier leads back
/// to the record's own place.
pub proof fn lemma_position(l: Seq<ReadingModel>, i: int)
    requires
        distinct_ids(l),
        0 <= i < l.len(),
    ensures
        holds(l, l[i].id),
        position(l, l[i].id) == i,
        records_of(l).contains_key(l[i].id),
        records_of(l)[l[i].id] == l[i],
{
    let p = position(l, l[i].id);
    assert(0 <= p < l.len() && l[p].id == l[i].id);
    if p < i {
        assert(l[p].id != l[i].id);
    } else if i < p {
        assert(l[i].id != l[p].id);
    }
}

/// Putting a record with a new identifier at a place where the order allows
/// it adds that record and keeps the others.
pub proof fn lemma_with(l: Seq<ReadingModel>, j: int, r: ReadingModel)
    requires
        distinct_ids(l),
        newest_first(l),
        !holds(l, r.id),
        0 <= j <= l.len(),
        forall|k: int| 0 <= k < j ==> (#[trigger] l[k]).created_at.after(r.created_at),
        j < l.len() ==> r.created_at.not_before(l[j].created_at),
    ensures
        distinct_ids(l.insert(j, r)),
        newest_first(l.insert(j, r)),
        records_of(l.insert(j, r)) == records_of(l).insert(r.id, r),
        forall|id: u128| holds(l.insert(j, r), id) <==> (holds(l, id) || id == r.id),
{
    let m = l.insert(j, r);
    assert forall|a: int, b: int| 0 <= a < b < m.len() implies #[trigger] m[a].id
        != #[trigger] m[b].id by {
        let x = if a < j { a } else { a - 1 };
        let y = if b < j { b } else { b - 1 };
        if a == j {
            assert(m[b] == l[y]);
            assert(l[y].id != r.id);
        } else if b == j {
            assert(m[a] == l[x]);
            assert(l[x].id != r.id);
        } else {
            assert(m[a] == l[x] && m[b] == l[y]);
            assert(l[x].id != l[y].id);
        }
    }
    assert forall|a: int, b: int| 0 <= a < b < m.len() implies (#[trigger] m[a]).created_at.not_before(
        (#[trigger] m[b]).created_at,
    ) by {
        let x = if a < j { a } else { a - 1 };
        let y = if b < j { b } else { b - 1 };
        if a == j {
            assert(m[b] == l[y]);
            if y > j {
                assert(l[j].created_at.not_before(l[y].created_at));
            }
        } else if b == j {
            assert(m[a] == l[x]);
        } else {
            assert(m[a] == l[x] && m[b] == l[y]);
            assert(l[x].created_at.not_before(l[y].created_at));
        }
    }
    assert(m[j] == r);
    lemma_position(m, j);
    assert forall|id: u128| #[trigger] holds(m, id) <==> (holds(l, id) || id == r.id) by {
        if holds(m, id) && id != r.id {
            let a = position(m, id);
            let x = if a < j { a } else { a - 1 };
            assert(m[a] == l[x]);
            assert(l[x].id == id);
        }
        if holds(l, id) {
            let x = position(l, id);
            let a = if x < j { x } else { x + 1 };
            assert(m[a] == l[x]);
            assert(m[a].id == id);
        }
    }
    assert forall|id: u128| holds(l, id) implies m[position(m, id)] == l[position(l, id)] by {
        let x = position(l, id);
        let a = if x < j { x } else { x + 1 };
        assert(m[a] == l[x]);
        lemma_position(m, a);
    }
    assert(records_of(m) =~= records_of(l).insert(r.id, r));
}

/// A list without repeated identifiers has as many records as identifiers.
pub proof fn lemma_count(l: Seq<ReadingModel>)
    requires
        distinct_ids(l),
    ensures
        records_of(l).dom().finite(),
        records_of(l).dom().len() == l.len(),
    decreases l.len(),
{
    if l.len() == 0 {
        assert(records_of(l).dom() =~= Set::<u128>::empty());
    } else {
        let p = l.drop_last();
        let id = l.last().id;
        assert forall|i: int, j: int| 0 <= i < j < p.len() implies #[trigger] p[i].id
            != #[trigger] p[j].id by {
            assert(l[i].id != l[j].id);
        }
        lemma_count(p);
        if holds(p, id) {
            let i = choose|i: int| 0 <= i < p.len() && #[trigger] p[i].id == id;
            assert(l[i].id != l[l.len() - 1].id);
        }
        assert forall|x: u128| holds(l, x) <==> (holds(p, x) || x == id) by {
            if holds(l, x) && x != id {
                let i = choose|i: int| 0 <= i < l.len() && #[trigger] l[i].id == x;
                assert(p[i].id == x);
            }
            if holds(p, x) {
                let i = choose|i: int| 0 <= i < p.len() && #[trigger] p[i].id == x;
                assert(l[i].id == x);
            }
            if x == id {
                assert(l[l.len() - 1].id == x);
            }
        }
        assert(records_of(l).dom() =~= records_of(p).dom().insert(id));
    }
}

/// The list is a listing of the records: it holds each of them once, under
/// its own identifier, and runs from the newest to the oldest. Records made
/// at the same time may stand in either order.
pub open spec fn is_listing_of(l: Seq<ReadingModel>, m: Map<u128, ReadingModel>) -> bool {
    &&& distinct_ids(l)
    &&& newest_first(l)
    &&& records_of(l) == m
}

/// Puts a reading into a list that runs from newest to oldest, before the
/// first record that is not newer than it.
fn place(out: &mut Vec<Reading>, reading: Reading)
    requires
        distinct_ids(models_of(old(out)@)),
        newest_first(models_of(old(out)@)),
        !holds(models_of(old(out)@), reading.id),
    ensures
        distinct_ids(models_of(final(out)@)),
        newest_first(models_of(final(out)@)),
        final(out)@.len() == old(out)@.len() + 1,
        records_of(models_of(final(out)@)) == records_of(models_of(old(out)@)).insert(
            reading.id,
            reading@,
        ),
        forall|id: u128|
            holds(models_of(final(out)@), id) <==> (holds(models_of(old(out)@), id) || id
                == reading.id),
{
    let ghost rest = models_of(out@);
    let mut j: usize = 0;
    while j < out.len() && out[j].created_at.is_after(&reading.created_at)
        invariant
            j <= out.len(),
            models_of(out@) == rest,
            forall|k: int| 0 <= k < j ==> (#[trigger] rest[k]).created_at.after(reading.created_at),
        decreases out.len() - j,
    {
        j += 1;
    }
    proof {
        lemma_with(rest, j as int, reading@);
    }
    let ghost added = reading@;
    out.insert(j, reading);
    assert(models_of(out@) =~= rest.insert(j as int, added));
}

/// The readings on record, each under its identifier.
pub struct Store {
    map: HashMap<u128, Reading>,
}

impl View for Store {
    type V = Map<u128, ReadingModel>;

    /// The records, each under its identifier.
    closed spec fn view(&self) -> Map<u128, ReadingModel> {
        Map::new(|id: u128| self.map@.contains_key(id), |id: u128| self.map@[id]@)
    }
}

impl Store {
    /// Each record is kept under its own identifier.
    #[verifier::type_invariant]
    spec fn keyed(self) -> bool {
        forall|id: u128| self.map@.contains_key(id) ==> (#[trigger] self.map@[id]).id == id
    }

    /// What holds of every store: there are finitely many records, and each
    /// is found under its own identifier.
    pub open spec fn wf(&self) -> bool {
        &&& self@.dom().finite()
        &&& forall|id: u128| self@.contains_key(id) ==> (#[trigger] self@[id]).id == id
    }

    /// A store with nothing on record.
    pub fn new() -> (s: Store)
        ensures
            s.wf(),
            s@ == Map::<u128, ReadingModel>::empty(),
    {
        let s = Store { map: HashMap::new() };
        assert(s@ =~= Map::<u128, ReadingModel>::empty());
        s
    }

    /// How many readings are on record.
    pub fn len(&self) -> (n: usize)
        ensures
            n == self@.dom().len(),
    {
        assert(self@.dom() =~= self.map@.dom());
        self.map.len()
    }

    /// The reading with this identifier, if one is on record.
    pub fn lookup(&self, id: u128) -> (r: Option<Reading>)
        ensures
            model_of(r) == found_in(self@, Some(id)),
    {
        broadcast use vstd::std_specs::hash::group_hash_axioms;

        match self.map.get(&id) {
            Some(found) => Some(found.clone()),
            None => None,
        }
    }

    /// What `get` returns, once the text has been read as an identifier: the
    /// record under that identifier, and nothing where the text was none.
    pub fn lookup_parsed(&self, parsed: Option<u128>) -> (r: Option<Reading>)
        ensures
            model_of(r) == found_in(self@, parsed),
    {
        match parsed {
            Some(id) => self.lookup(id),
            None => None,
        }
    }

    /// The reading whose identifier the text denotes. A text that denotes no
    /// identifier is answered like an identifier that is not on record.
    pub fn get(&self, id: &str) -> (r: Option<Reading>)
        ensures
            model_of(r) == found_in(self@, parsed_id(id@)),
    {
        self.lookup_parsed(parse_id(id))
    }

    /// All readings on record, newest first.
    pub fn list(&self) -> (r: Vec<Reading>)
        ensures
            self.wf(),
            is_listing_of(models_of(r@), self@),
            r@.len() == self@.dom().len(),
    {
        broadcast use vstd::std_specs::hash::group_hash_axioms;

        let mut out: Vec<Reading> = Vec::new();
        proof {
            use_type_invariant(self);
            assert(self@.dom() =~= self.map@.dom());
        }
        for key in walk: self.map.keys()
            invariant
                self.wf(),
                self@.dom() == self.map@.dom(),
                walk.seq().len() == self.map@.dom().len(),
                walk.seq().no_duplicates(),
                walk.seq().unref().to_set() == self.map@.dom(),
                out@.len() == walk.index(),
                distinct_ids(models_of(out@)),
                newest_first(models_of(out@)),
                forall|id: u128|
                    holds(models_of(out@), id) ==> exists|j: int|
                        0 <= j < walk.index() && *(#[trigger] walk.seq()[j]) == id,
                forall|i: int|
                    0 <= i < out@.len() ==> self@.contains_key((#[trigger] out@[i]).id) && self@[out@[i].id]
                        == out@[i]@,
        {
            let ghost at = walk.index() as int;
            let ghost before = models_of(out@);
            proof {
                assert(walk.seq().unref()[at] == *key);
                assert(walk.seq().unref().to_set().contains(*key));
                assert(self.map@.contains_key(*key));
                if holds(before, *key) {
                    let j = choose|j: int| 0 <= j < at && *(#[trigger] walk.seq()[j]) == *key;
                    assert(walk.seq()[j] != walk.seq()[at]);
                }
            }
            match self.map.get(key) {
                Some(found) => {
                    let copy = found.clone();
                    assert(copy@ == self@[*key]);
                    assert(copy.id == *key);
                    let ghost added = copy@;
                    place(&mut out, copy);
                    proof {
                        let after = models_of(out@);
                        assert forall|id: u128| holds(after, id) implies exists|j: int|
                            0 <= j < at + 1 && *(#[trigger] walk.seq()[j]) == id by {
                            if id == *key {
                                assert(*walk.seq()[at] == id);
                            } else {
                                assert(holds(before, id));
                            }
                        }
                        assert forall|i: int| 0 <= i < out@.len() implies self@.contains_key(
                            (#[trigger] out@[i]).id,
                        ) && self@[out@[i].id] == out@[i]@ by {
                            assert(after[i] == out@[i]@);
                            lemma_position(after, i);
                            assert(records_of(after) == records_of(before).insert(added.id, added));
                            if out@[i].id != added.id {
                                let p = position(before, out@[i].id);
                                assert(holds(before, out@[i].id));
                                lemma_position(before, p);
                                assert(before[p] == after[i]);
                            }
                        }
                    }
                },
                None => {
                    assert(false);
                },
            }
        }
        proof {
            let l = models_of(out@);
            lemma_count(l);
            assert forall|id: u128| records_of(l).dom().contains(id) implies self@.dom().contains(
                id,
            ) by {
                let p = position(l, id);
                assert(0 <= p < l.len() && l[p].id == id);
                assert(self@.contains_key(out@[p].id));
            }
            vstd::set_lib::lemma_subset_equality(records_of(l).dom(), self@.dom());
            assert forall|id: u128| records_of(l).dom().contains(id) implies records_of(l)[id]
                == self@[id] by {
                let p = position(l, id);
                assert(0 <= p < l.len() && l[p].id == id);
                assert(self@[out@[p].id] == out@[p]@);
            }
            assert(records_of(l) =~= self@);
        }
        out
    }

    /// Puts a reading on record. A record that had the same identifier gives
    /// way to it; every other record stays.
    pub fn insert(&mut self, reading: Reading)
        ensures
            final(self).wf(),
            final(self)@ == old(self)@.insert(reading.id, reading@),
    {
        broadcast use vstd::std_specs::hash::group_hash_axioms;

        proof {
            use_type_invariant(&*self);
        }
        let ghost added = reading@;
        let mut map: HashMap<u128, Reading> = HashMap::new();
        std::mem::swap(&mut map, &mut self.map);
        map.insert(reading.id, reading);
        self.map = map;
        assert(self@ =~= old(self)@.insert(added.id, added));
        assert(self@.dom() =~= self.map@.dom());
    }

    /// Records a new reading: draws a random identifier, reads the clock, and
    /// puts the reading on record. Returns what was recorded.
    pub fn create(&mut self, question: String, cards: Vec<String>, interpretation: String) -> (r:
        Reading)
        ensures
            final(self).wf(),
            final(self)@ == old(self)@.insert(r.id, r@),
            r@.question == question@,
            r@.cards == texts_of(cards@),
            r@.interpretation == interpretation@,
            is_random_kind(r.id),
            r.created_at.wf(),
            r.created_at.secs >= 0,
    {
        let id = fresh_id();
        let now = current_time();
        self.record(id, now, question, cards, interpretation)
    }

    /// Puts a reading with the given identifier and time on record, and
    /// returns a copy of it.
    pub fn record(
        &mut self,
        id: u128,
        now: Timestamp,
        question: String,
        cards: Vec<String>,
        interpretation: String,
    ) -> (r: Reading)
        ensures
            final(self).wf(),
            r@ == (ReadingModel {
                id,
                question: question@,
                cards: texts_of(cards@),
                interpretation: interpretation@,
                created_at: now,
            }),
            final(self)@ == old(self)@.insert(id, r@),
    {
        let reading = Reading::new(id, question, cards, interpretation, now);
        let copy = reading.clone();
        self.insert(reading);
        copy
    }
}

} // verus!
