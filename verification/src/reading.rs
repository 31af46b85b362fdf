//! Timestamps and reading records, with their mathematical models.

use vstd::prelude::*;

verus! {

/// Seconds in one day.
pub const SECONDS_PER_DAY: i64 = 86_400;

/// A point in time: whole seconds since the Unix epoch and the nanoseconds
/// into that second. Two timestamps are ordered by the seconds first and by
/// the nanoseconds second.
#[derive(Clone, Copy, Debug, PartialEq, Eq, Structural)]
pub struct Timestamp {
    pub secs: i64,
    pub nanos: u32,
}

impl Timestamp {
    /// A timestamp is well formed when its fraction is less than one second.
    pub open spec fn wf(self) -> bool {
        self.nanos < 1_000_000_000
    }

    /// `self` is strictly later than `other`.
    pub open spec fn after(self, other: Timestamp) -> bool {
        self.secs > other.secs || (self.secs == other.secs && self.nanos > other.nanos)
    }

    /// `self` is `other` or later.
    pub open spec fn not_before(self, other: Timestamp) -> bool {
        self == other || self.after(other)
    }

    /// The timestamp a number of whole days before `self`.
    pub open spec fn days_earlier(self, days: int) -> Timestamp
        recommends
            i64::MIN <= self.secs - SECONDS_PER_DAY * days <= i64::MAX,
    {
        Timestamp { secs: (self.secs - SECONDS_PER_DAY * days) as i64, nanos: self.nanos }
    }

    /// Tells whether `self` is strictly later than `other`.
    pub fn is_after(&self, other: &Timestamp) -> (r: bool)
        ensures
            r == self.after(*other),
    {
        self.secs > other.secs || (self.secs == other.secs && self.nanos > other.nanos)
    }

    /// Moves a timestamp back by whole days, keeping the fraction of the second.
    pub fn back_by_days(&self, days: u8) -> (r: Timestamp)
        requires
            self.secs - SECONDS_PER_DAY * days >= i64::MIN,
        ensures
            r == self.days_earlier(days as int),
            self.wf() ==> r.wf(),
            days > 0 ==> self.after(r),
    {
        let span: i64 = SECONDS_PER_DAY * (days as i64);
        Timestamp { secs: self.secs - span, nanos: self.nanos }
    }
}

/// What a reading is, as a mathematical value.
pub ghost struct ReadingModel {
    pub id: u128,
    pub question: Seq<char>,
    pub cards: Seq<Seq<char>>,
    pub interpretation: Seq<char>,
    pub created_at: Timestamp,
}

/// One tarot consultation: the question asked, the cards drawn in order, the
/// interpretation given, and when it was recorded. The identifier is the
/// 128-bit value of a UUID.
#[derive(Debug)]
pub struct Reading {
    pub id: u128,
    pub question: String,
    pub cards: Vec<String>,
    pub interpretation: String,
    pub created_at: Timestamp,
}

/// The contents of a list of texts.
pub open spec fn texts_of(v: Seq<String>) -> Seq<Seq<char>> {
    Seq::new(v.len(), |i: int| v[i]@)
}

/// The models of a list of readings, in the same order.
pub open spec fn models_of(v: Seq<Reading>) -> Seq<ReadingModel> {
    Seq::new(v.len(), |i: int| v[i]@)
}

impl View for Reading {
    type V = ReadingModel;

    open spec fn view(&self) -> ReadingModel {
        ReadingModel {
            id: self.id,
            question: self.question@,
            cards: texts_of(self.cards@),
            interpretation: self.interpretation@,
            created_at: self.created_at,
        }
    }
}

/// Copies a list of texts, text by text.
pub fn copy_texts(v: &Vec<String>) -> (r: Vec<String>)
    ensures
        texts_of(r@) == texts_of(v@),
{
    let mut out: Vec<String> = Vec::new();
    let mut i: usize = 0;
    while i < v.len()
        invariant
            i <= v.len(),
            out.len() == i,
            forall|k: int| 0 <= k < i ==> out@[k]@ == v@[k]@,
        decreases v.len() - i,
    {
        out.push(v[i].clone());
        i += 1;
    }
    assert(texts_of(out@) =~= texts_of(v@));
    out
}

impl Clone for Reading {
    /// A copy that is equal to `self` in every field.
    fn clone(&self) -> (r: Self)
        ensures
            r@ == self@,
    {
        Reading {
            id: self.id,
            question: self.question.clone(),
            cards: copy_texts(&self.cards),
            interpretation: self.interpretation.clone(),
            created_at: self.created_at,
        }
    }
}

impl Reading {
    /// Builds a record from its five parts.
    pub fn new(
        id: u128,
        question: String,
        cards: Vec<String>,
        interpretation: String,
        created_at: Timestamp,
    ) -> (r: Reading)
        ensures
            r.id == id,
            r.question == question,
            r.cards == cards,
            r.interpretation == interpretation,
            r.created_at == created_at,
    {
        Reading { id, question, cards, interpretation, created_at }
    }
}

} // verus!
