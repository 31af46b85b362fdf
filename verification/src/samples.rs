//! The three readings that a fresh store starts with.

use vstd::prelude::*;
use vstd::string::*;
use crate::clock::current_time;
use crate::ident::{fresh_id, is_random_kind};
use crate::reading::{texts_of, Reading, ReadingModel, Timestamp, SECONDS_PER_DAY};
use crate::store::{is_listing_of, lemma_count, lemma_position, position, Store};

verus! {

/// The question of the career reading.
pub const CAREER_QUESTION: &'static str = "What does the future hold for my career?";

/// The interpretation of the career reading.
pub const CAREER_INTERPRETATION: &'static str =
    "The Fool suggests new beginnings and taking a leap of faith in your career. The Magician indicates you have all the tools and skills necessary for success. The High Priestess advises trusting your intuition when making important career decisions.";

/// The question of the relationship reading.
pub const RELATIONSHIP_QUESTION: &'static str = "Should I pursue this new relationship?";

/// The interpretation of the relationship reading.
pub const RELATIONSHIP_INTERPRETATION: &'static str =
    "The Lovers card strongly indicates a meaningful connection. The Two of Cups reinforces partnership and mutual attraction. The Sun brings joy and positivity, suggesting this relationship has great potential for happiness.";

/// The question of the financial reading.
pub const FINANCIAL_QUESTION: &'static str = "How can I improve my financial situation?";

/// The interpretation of the financial reading.
pub const FINANCIAL_INTERPRETATION: &'static str =
    "The Nine of Pentacles suggests financial independence is within reach through self-discipline. The Emperor advises taking control and creating structure in your financial planning. The Three of Wands indicates your long-term investments and planning will pay off.";

/// The career reading, recorded two days before `now`.
pub open spec fn career_sample(id: u128, now: Timestamp) -> ReadingModel {
    ReadingModel {
        id,
        question: CAREER_QUESTION@,
        cards: seq!["The Fool"@, "The Magician"@, "The High Priestess"@],
        interpretation: CAREER_INTERPRETATION@,
        created_at: now.days_earlier(2),
    }
}

/// The relationship reading, recorded one day before `now`.
pub open spec fn relationship_sample(id: u128, now: Timestamp) -> ReadingModel {
    ReadingModel {
        id,
        question: RELATIONSHIP_QUESTION@,
        cards: seq!["The Lovers"@, "Two of Cups"@, "The Sun"@],
        interpretation: RELATIONSHIP_INTERPRETATION@,
        created_at: now.days_earlier(1),
    }
}

/// The financial reading, recorded at `now`.
pub open spec fn financial_sample(id: u128, now: Timestamp) -> ReadingModel {
    ReadingModel {
        id,
        question: FINANCIAL_QUESTION@,
        cards: seq!["Nine of Pentacles"@, "The Emperor"@, "Three of Wands"@],
        interpretation: FINANCIAL_INTERPRETATION@,
        created_at: now,
    }
}

/// The records of a store that was seeded with the three samples under the
/// identifiers `a`, `b` and `c`, in this order. Where two identifiers are
/// equal, the later sample has taken the earlier one's place.
pub open spec fn sample_records(a: u128, b: u128, c: u128, now: Timestamp) -> Map<
    u128,
    ReadingModel,
> {
    Map::<u128, ReadingModel>::empty().insert(a, career_sample(a, now)).insert(
        b,
        relationship_sample(b, now),
    ).insert(c, financial_sample(c, now))
}

/// The store holds the three samples and nothing else.
pub open spec fn is_seeded(s: Store, a: u128, b: u128, c: u128, now: Timestamp) -> bool {
    &&& s.wf()
    &&& s@ == sample_records(a, b, c, now)
}

/// Every listing of a freshly seeded store is led by the financial reading.
/// Where the three identifiers differ, the listing is the financial, the
/// relationship and the career reading, in this order; where some are equal,
/// it is shorter.
pub proof fn law_seed_listing(l: Seq<ReadingModel>, a: u128, b: u128, c: u128, now: Timestamp)
    requires
        is_listing_of(l, sample_records(a, b, c, now)),
        now.secs - 2 * SECONDS_PER_DAY >= i64::MIN,
    ensures
        1 <= l.len() <= 3,
        l[0] == financial_sample(c, now),
        (a != b && a != c && b != c) <==> l.len() == 3,
        l.len() == 3 ==> l == seq![
            financial_sample(c, now),
            relationship_sample(b, now),
            career_sample(a, now),
        ],
{
    let m = sample_records(a, b, c, now);
    lemma_count(l);
    let e = Set::<u128>::empty();
    assert(m.dom() =~= e.insert(a).insert(b).insert(c));
    assert(e.insert(a).len() == 1);
    assert(e.insert(a).insert(b).len() == 1 + (if a == b { 0int } else { 1int }));
    assert(m.dom().len() == e.insert(a).insert(b).len() + (if c == a || c == b { 0int } else { 1int }));
    assert(m.contains_key(c));
    let k = position(l, c);
    assert(0 <= k < l.len() && l[k].id == c);
    lemma_position(l, k);
    lemma_position(l, 0);
    if k != 0 {
        assert(l[0].id != l[k].id);
        assert(l[0].created_at.not_before(l[k].created_at));
    }
    if l.len() == 3 {
        lemma_position(l, 1);
        lemma_position(l, 2);
        assert(l[0].id != l[1].id && l[0].id != l[2].id && l[1].id != l[2].id);
        assert(l[0].created_at.not_before(l[1].created_at));
        assert(l[1].created_at.not_before(l[2].created_at));
        assert(l =~= seq![
            financial_sample(c, now),
            relationship_sample(b, now),
            career_sample(a, now),
        ]);
    }
}

/// A reading of three cards.
fn three_card_reading(
    id: u128,
    question: &str,
    first: &str,
    second: &str,
    third: &str,
    interpretation: &str,
    created_at: Timestamp,
) -> (r: Reading)
    ensures
        r@ == (ReadingModel {
            id,
            question: question@,
            cards: seq![first@, second@, third@],
            interpretation: interpretation@,
            created_at,
        }),
{
    let mut cards: Vec<String> = Vec::new();
    cards.push(first.to_owned());
    cards.push(second.to_owned());
    cards.push(third.to_owned());
    assert(texts_of(cards@) =~= seq![first@, second@, third@]);
    Reading::new(id, question.to_owned(), cards, interpretation.to_owned(), created_at)
}

/// A store seeded with the three samples under the given identifiers, the
/// newest of them recorded at `now`.
pub fn seeded_store(a: u128, b: u128, c: u128, now: Timestamp) -> (s: Store)
    requires
        now.secs - 2 * SECONDS_PER_DAY >= i64::MIN,
    ensures
        is_seeded(s, a, b, c, now),
{
    let mut s = Store::new();
    s.insert(
        three_card_reading(
            a,
            CAREER_QUESTION,
            "The Fool",
            "The Magician",
            "The High Priestess",
            CAREER_INTERPRETATION,
            now.back_by_days(2),
        ),
    );
    s.insert(
        three_card_reading(
            b,
            RELATIONSHIP_QUESTION,
            "The Lovers",
            "Two of Cups",
            "The Sun",
            RELATIONSHIP_INTERPRETATION,
            now.back_by_days(1),
        ),
    );
    s.insert(
        three_card_reading(
            c,
            FINANCIAL_QUESTION,
            "Nine of Pentacles",
            "The Emperor",
            "Three of Wands",
            FINANCIAL_INTERPRETATION,
            now,
        ),
    );
    s
}

/// The store that the service starts with: the three samples, under random
/// identifiers, the newest of them recorded at the time of the call.
pub fn initialize_sample_data() -> (s: Store)
    ensures
        s.wf(),
        exists|a: u128, b: u128, c: u128, now: Timestamp|
            is_random_kind(a) && is_random_kind(b) && is_random_kind(c) && now.wf() && now.secs >= 0
                && #[trigger] is_seeded(s, a, b, c, now),
{
    let a = fresh_id();
    let b = fresh_id();
    let c = fresh_id();
    let now = current_time();
    seeded_store(a, b, c, now)
}

} // verus!
