use tarot_reader::reading::{Reading, Timestamp};
use tarot_reader::store::Store;

fn at(secs: i64, nanos: u32) -> Timestamp {
    Timestamp { secs, nanos }
}

fn text(s: &str) -> String {
    s.to_string()
}

fn put(store: &mut Store, id: u128, secs: i64, nanos: u32, question: &str) -> Reading {
    store.record(id, at(secs, nanos), text(question), vec![text("The Star")], text("Hope."))
}

fn ids(list: &[Reading]) -> Vec<u128> {
    list.iter().map(|r| r.id).collect()
}

#[test]
fn new_store_is_empty() {
    let store = Store::new();
    assert_eq!(store.len(), 0);
    assert!(store.list().is_empty());
    assert!(store.lookup(1).is_none());
}

#[test]
fn record_returns_what_it_stored() {
    let mut store = Store::new();
    let r = store.record(
        7,
        at(100, 5),
        text("Will it rain?"),
        vec![text("The Star"), text("The Moon")],
        text("Hope."),
    );
    assert_eq!(r.id, 7);
    assert_eq!(r.question, "Will it rain?");
    assert_eq!(r.cards, vec![text("The Star"), text("The Moon")]);
    assert_eq!(r.interpretation, "Hope.");
    assert_eq!(r.created_at, at(100, 5));
    let found = store.lookup(7).unwrap();
    assert_eq!(found.id, 7);
    assert_eq!(found.question, "Will it rain?");
    assert_eq!(found.cards, vec![text("The Star"), text("The Moon")]);
    assert_eq!(found.interpretation, "Hope.");
    assert_eq!(found.created_at, at(100, 5));
    assert_eq!(store.len(), 1);
}

#[test]
fn lookup_of_unknown_identifier_finds_nothing() {
    let mut store = Store::new();
    put(&mut store, 1, 10, 0, "a");
    assert!(store.lookup(2).is_none());
}

#[test]
fn list_runs_from_newest_to_oldest() {
    let mut store = Store::new();
    put(&mut store, 1, 20, 0, "middle");
    put(&mut store, 2, 10, 0, "oldest");
    put(&mut store, 3, 30, 0, "newest");
    put(&mut store, 4, 20, 1, "just after middle");
    assert_eq!(ids(&store.list()), vec![3, 4, 1, 2]);
    assert_eq!(store.len(), 4);
}

#[test]
fn nanoseconds_decide_within_a_second() {
    let mut store = Store::new();
    put(&mut store, 1, 50, 999_999_999, "late");
    put(&mut store, 2, 50, 0, "early");
    put(&mut store, 3, 49, 999_999_999, "second before");
    put(&mut store, 4, -5, 0, "before the epoch");
    assert_eq!(ids(&store.list()), vec![1, 2, 3, 4]);
}

#[test]
fn equal_times_keep_both_records() {
    let mut store = Store::new();
    put(&mut store, 1, 50, 0, "one");
    put(&mut store, 2, 50, 0, "two");
    let list = store.list();
    assert_eq!(list.len(), 2);
    let mut got = ids(&list);
    got.sort();
    assert_eq!(got, vec![1, 2]);
}

#[test]
fn same_identifier_replaces_the_record() {
    let mut store = Store::new();
    put(&mut store, 1, 10, 0, "first");
    put(&mut store, 2, 20, 0, "other");
    put(&mut store, 1, 30, 0, "second");
    assert_eq!(store.len(), 2);
    assert_eq!(ids(&store.list()), vec![1, 2]);
    let found = store.lookup(1).unwrap();
    assert_eq!(found.question, "second");
    assert_eq!(found.created_at, at(30, 0));
    assert_eq!(store.lookup(2).unwrap().question, "other");
}

#[test]
fn insert_places_a_ready_made_record() {
    let mut store = Store::new();
    let r = Reading::new(9, text("q"), vec![], text("i"), at(1, 2));
    store.insert(r.clone());
    let found = store.lookup(9).unwrap();
    assert_eq!(found.question, "q");
    assert!(found.cards.is_empty());
    assert_eq!(found.interpretation, "i");
    assert_eq!(found.created_at, at(1, 2));
}

#[test]
fn get_reads_the_text_as_a_uuid() {
    let mut store = Store::new();
    put(&mut store, 0x0123_4567_89ab_cdef_0123_4567_89ab_cdef, 10, 0, "mine");
    put(&mut store, 0x67e5_5044_10b1_426f_9247_bb68_0e5f_e0c8, 20, 0, "other");
    let found = store.get("01234567-89ab-cdef-0123-456789abcdef").unwrap();
    assert_eq!(found.id, 0x0123_4567_89ab_cdef_0123_4567_89ab_cdef);
    assert_eq!(found.question, "mine");
    let plain = store.get("67e5504410b1426f9247bb680e5fe0c8").unwrap();
    assert_eq!(plain.question, "other");
}

#[test]
fn get_of_malformed_text_and_of_unused_uuid_are_alike() {
    let mut store = Store::new();
    put(&mut store, 5, 10, 0, "a");
    assert!(store.get("not-a-uuid").is_none());
    assert!(store.get("").is_none());
    assert!(store.get("5").is_none());
    assert!(store.get("67e55044-10b1-426f-9247-bb680e5fe0c8").is_none());
    assert!(store.get(&uuid::Uuid::new_v4().to_string()).is_none());
}

#[test]
fn create_makes_a_random_uuid_and_a_current_time() {
    let mut store = Store::new();
    let before = chrono::Utc::now().timestamp();
    let r = store.create(text("Will it rain?"), vec![text("The Star")], text("Hope."));
    let after = chrono::Utc::now().timestamp();
    assert_eq!(r.question, "Will it rain?");
    assert_eq!(r.cards, vec![text("The Star")]);
    assert_eq!(r.interpretation, "Hope.");
    assert!(before <= r.created_at.secs && r.created_at.secs <= after);
    assert!(r.created_at.nanos < 1_000_000_000);
    let u = uuid::Uuid::from_u128(r.id);
    assert_eq!(u.get_version_num(), 4);
    assert_eq!(u.get_variant(), uuid::Variant::RFC4122);
    assert_eq!(store.len(), 1);
}

#[test]
fn created_identifiers_are_all_different() {
    let mut store = Store::new();
    let mut seen: Vec<u128> = Vec::new();
    for i in 0..50 {
        let r = store.create(format!("q{}", i), vec![], text("i"));
        assert!(!seen.contains(&r.id));
        seen.push(r.id);
    }
    assert_eq!(store.len(), 50);
}

#[test]
fn created_reading_is_found_equal_in_all_fields() {
    let mut store = Store::new();
    let made = store.create(text("first"), vec![text("The Fool"), text("The Sun")], text("go"));
    store.create(text("second"), vec![], text("stay"));
    let found = store.get(&uuid::Uuid::from_u128(made.id).to_string()).unwrap();
    assert_eq!(found.id, made.id);
    assert_eq!(found.question, made.question);
    assert_eq!(found.cards, made.cards);
    assert_eq!(found.interpretation, made.interpretation);
    assert_eq!(found.created_at, made.created_at);
    assert_eq!(found.question, "first");
}

#[test]
fn created_readings_are_listed_newest_first() {
    let mut store = Store::new();
    for i in 0..20 {
        store.create(format!("q{}", i), vec![], text("i"));
    }
    let list = store.list();
    assert_eq!(list.len(), 20);
    for w in list.windows(2) {
        let (a, b) = (w[0].created_at, w[1].created_at);
        assert!((a.secs, a.nanos) >= (b.secs, b.nanos));
    }
}
