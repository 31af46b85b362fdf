use tarot_reader::reading::{Reading, Timestamp};
use tarot_reader::samples::{
    initialize_sample_data, seeded_store, CAREER_QUESTION, FINANCIAL_INTERPRETATION,
    FINANCIAL_QUESTION, RELATIONSHIP_QUESTION,
};
use tarot_reader::service::{
    create_reading, created, get_reading, get_readings, health_at, health_check, index,
    location_of, CreateReadingRequest, API_VERSION, READINGS_PATH, VERSION_HEADER,
};
use tarot_reader::store::Store;

fn text(s: &str) -> String {
    s.to_string()
}

fn rain() -> CreateReadingRequest {
    CreateReadingRequest {
        question: text("Will it rain?"),
        cards: vec![text("The Star")],
        interpretation: text("Hope."),
    }
}

#[test]
fn index_describes_the_service() {
    let info = index();
    assert_eq!(info.message, "Tarot Reader API");
    assert_eq!(info.version, "1.0.0");
    assert_eq!(info.endpoints.health, "GET /health");
    assert_eq!(info.endpoints.readings, "GET /api/readings");
    assert_eq!(info.endpoints.reading, "GET /api/readings/{id}");
    assert_eq!(info.endpoints.create_reading, "POST /api/readings");
}

#[test]
fn version_and_header_are_fixed() {
    assert_eq!(API_VERSION, "1.0.0");
    assert_eq!(VERSION_HEADER, "X-API-Version");
    assert_eq!(READINGS_PATH, "/api/readings/");
}

#[test]
fn health_is_healthy_at_the_given_time() {
    let h = health_at(Timestamp { secs: 12, nanos: 34 });
    assert_eq!(h.status, "healthy");
    assert_eq!(h.timestamp, Timestamp { secs: 12, nanos: 34 });
}

#[test]
fn health_check_reads_the_clock() {
    let before = chrono::Utc::now().timestamp();
    let h = health_check();
    let after = chrono::Utc::now().timestamp();
    assert_eq!(h.status, "healthy");
    assert!(before <= h.timestamp.secs && h.timestamp.secs <= after);
    assert!(h.timestamp.nanos < 1_000_000_000);
}

#[test]
fn location_is_the_path_and_the_identifier() {
    assert_eq!(location_of("abc"), "/api/readings/abc");
    assert_eq!(location_of(""), "/api/readings/");
}

#[test]
fn created_writes_the_identifier_as_a_hyphenated_uuid() {
    let r = Reading::new(
        0x0123_4567_89ab_cdef_0123_4567_89ab_cdef,
        text("q"),
        vec![],
        text("i"),
        Timestamp { secs: 1, nanos: 0 },
    );
    let c = created(r);
    assert_eq!(c.location, "/api/readings/01234567-89ab-cdef-0123-456789abcdef");
    assert_eq!(c.body.id, 0x0123_4567_89ab_cdef_0123_4567_89ab_cdef);
    assert_eq!(c.body.question, "q");
    let zero = created(Reading::new(0, text("q"), vec![], text("i"), Timestamp { secs: 1, nanos: 0 }));
    assert_eq!(zero.location, "/api/readings/00000000-0000-0000-0000-000000000000");
    let top = created(Reading::new(u128::MAX, text("q"), vec![], text("i"), Timestamp { secs: 1, nanos: 0 }));
    assert_eq!(top.location, "/api/readings/ffffffff-ffff-ffff-ffff-ffffffffffff");
}

#[test]
fn posting_a_reading_answers_with_the_record_and_its_location() {
    let mut store = initialize_sample_data();
    let before = chrono::Utc::now().timestamp();
    let c = create_reading(&mut store, &rain());
    let after = chrono::Utc::now().timestamp();
    assert_eq!(c.body.question, "Will it rain?");
    assert_eq!(c.body.cards, vec![text("The Star")]);
    assert_eq!(c.body.interpretation, "Hope.");
    assert!(before <= c.body.created_at.secs && c.body.created_at.secs <= after);
    let id_text = c.location.strip_prefix("/api/readings/").unwrap();
    let parsed = uuid::Uuid::parse_str(id_text).unwrap();
    assert_eq!(parsed.as_u128(), c.body.id);
    assert_eq!(parsed.get_version_num(), 4);
    assert_eq!(id_text.len(), 36);
    let found = get_reading(&store, id_text).unwrap();
    assert_eq!(found.id, c.body.id);
    assert_eq!(found.question, "Will it rain?");
    assert_eq!(found.cards, vec![text("The Star")]);
    assert_eq!(found.interpretation, "Hope.");
    assert_eq!(found.created_at, c.body.created_at);
    assert_eq!(get_readings(&store)[0].id, c.body.id);
}

#[test]
fn listing_at_startup_has_the_three_samples() {
    let store = initialize_sample_data();
    let list = get_readings(&store);
    assert_eq!(list.len(), 3);
    assert_eq!(list[0].question, "How can I improve my financial situation?");
    assert_eq!(list[1].question, "Should I pursue this new relationship?");
    assert_eq!(list[2].question, "What does the future hold for my career?");
    assert_eq!(
        list[0].cards,
        vec![text("Nine of Pentacles"), text("The Emperor"), text("Three of Wands")]
    );
    assert_eq!(list[1].cards, vec![text("The Lovers"), text("Two of Cups"), text("The Sun")]);
    assert_eq!(list[2].cards, vec![text("The Fool"), text("The Magician"), text("The High Priestess")]);
    assert_eq!(list[0].interpretation, FINANCIAL_INTERPRETATION);
    assert_eq!(list[0].created_at.secs - list[1].created_at.secs, 86_400);
    assert_eq!(list[0].created_at.secs - list[2].created_at.secs, 172_800);
    assert_eq!(list[0].created_at.nanos, list[2].created_at.nanos);
    assert_ne!(list[0].id, list[1].id);
    assert_ne!(list[1].id, list[2].id);
    assert_ne!(list[0].id, list[2].id);
}

#[test]
fn listing_after_creates_has_three_more_than_were_created() {
    let mut store = initialize_sample_data();
    for n in 1..=10usize {
        create_reading(&mut store, &rain());
        let list = get_readings(&store);
        assert_eq!(list.len(), n + 3);
        for w in list.windows(2) {
            let (a, b) = (w[0].created_at, w[1].created_at);
            assert!((a.secs, a.nanos) >= (b.secs, b.nanos));
        }
    }
}

#[test]
fn seeded_store_backdates_the_samples() {
    let now = Timestamp { secs: 1_700_000_000, nanos: 500 };
    let store = seeded_store(1, 2, 3, now);
    let list = store.list();
    assert_eq!(list.len(), 3);
    assert_eq!(list[0].id, 3);
    assert_eq!(list[0].question, FINANCIAL_QUESTION);
    assert_eq!(list[0].created_at, now);
    assert_eq!(list[1].id, 2);
    assert_eq!(list[1].question, RELATIONSHIP_QUESTION);
    assert_eq!(list[1].created_at, Timestamp { secs: 1_699_913_600, nanos: 500 });
    assert_eq!(list[2].id, 1);
    assert_eq!(list[2].question, CAREER_QUESTION);
    assert_eq!(list[2].created_at, Timestamp { secs: 1_699_827_200, nanos: 500 });
}

#[test]
fn seeded_store_with_a_repeated_identifier_keeps_the_later_sample() {
    let now = Timestamp { secs: 1_700_000_000, nanos: 0 };
    let store = seeded_store(1, 2, 1, now);
    let list = store.list();
    assert_eq!(list.len(), 2);
    assert_eq!(list[0].id, 1);
    assert_eq!(list[0].question, FINANCIAL_QUESTION);
    assert_eq!(list[1].id, 2);
    let all_same = seeded_store(4, 4, 4, now);
    assert_eq!(all_same.len(), 1);
    assert_eq!(all_same.list()[0].question, FINANCIAL_QUESTION);
}

#[test]
fn malformed_and_unknown_identifiers_are_not_found() {
    let store = initialize_sample_data();
    assert!(get_reading(&store, "not-a-uuid").is_none());
    assert!(get_reading(&store, "00000000-0000-0000-0000-000000000000").is_none());
    let empty = Store::new();
    assert!(get_reading(&empty, "not-a-uuid").is_none());
}

#[test]
fn a_sample_is_found_by_its_identifier() {
    let store = initialize_sample_data();
    let list = get_readings(&store);
    let id = uuid::Uuid::from_u128(list[1].id).to_string();
    let found = get_reading(&store, &id).unwrap();
    assert_eq!(found.question, RELATIONSHIP_QUESTION);
    let upper = get_reading(&store, &id.to_uppercase()).unwrap();
    assert_eq!(upper.id, list[1].id);
}
