//! What the service answers: its description, its health, the readings on
//! record, and the store it starts with.

use vstd::prelude::*;
use vstd::string::*;
use crate::clock::current_time;
use crate::ident::{id_text, is_random_kind, parsed_id, write_id};
use crate::reading::{copy_texts, models_of, texts_of, Reading, Timestamp};
use crate::store::{found_in, is_listing_of, model_of, Store};

verus! {

/// The version that the service reports of itself, in its description and in
/// the header of each response.
pub const API_VERSION: &'static str = "1.0.0";

/// The name of the response header that carries the version.
pub const VERSION_HEADER: &'static str = "X-API-Version";

/// The path under which the readings are served.
pub const READINGS_PATH: &'static str = "/api/readings/";

/// The endpoints of the service, each as method and path.
#[derive(Debug)]
pub struct Endpoints {
    pub health: String,
    pub readings: String,
    pub reading: String,
    pub create_reading: String,
}

/// The service's description of itself.
#[derive(Debug)]
pub struct ServiceInfo {
    pub message: String,
    pub version: String,
    pub endpoints: Endpoints,
}

/// The answer to a health check.
#[derive(Debug)]
pub struct HealthResponse {
    pub status: String,
    pub timestamp: Timestamp,
}

/// The body of a request to record a reading.
#[derive(Debug)]
pub struct CreateReadingRequest {
    pub question: String,
    pub cards: Vec<String>,
    pub interpretation: String,
}

/// The answer to such a request: the new record and where it can be fetched.
#[derive(Debug)]
pub struct Created {
    pub location: String,
    pub body: Reading,
}

/// The service's description of itself: its name, its version, and its four
/// endpoints.
pub fn index() -> (r: ServiceInfo)
    ensures
        r.message@ == "Tarot Reader API"@,
        r.version@ == API_VERSION@,
        r.endpoints.health@ == "GET /health"@,
        r.endpoints.readings@ == "GET /api/readings"@,
        r.endpoints.reading@ == "GET /api/readings/{id}"@,
        r.endpoints.create_reading@ == "POST /api/readings"@,
{
    ServiceInfo {
        message: "Tarot Reader API".to_owned(),
        version: API_VERSION.to_owned(),
        endpoints: Endpoints {
            health: "GET /health".to_owned(),
            readings: "GET /api/readings".to_owned(),
            reading: "GET /api/readings/{id}".to_owned(),
            create_reading: "POST /api/readings".to_owned(),
        },
    }
}

/// The health answer for a reading of the clock.
pub fn health_at(now: Timestamp) -> (r: HealthResponse)
    ensures
        r.status@ == "healthy"@,
        r.timestamp == now,
{
    HealthResponse { status: "healthy".to_owned(), timestamp: now }
}

/// Reports the service healthy, with the time of the report.
pub fn health_check() -> (r: HealthResponse)
    ensures
        r.status@ == "healthy"@,
        r.timestamp.wf(),
        r.timestamp.secs >= 0,
{
    health_at(current_time())
}

/// All readings on record, newest first.
pub fn get_readings(store: &Store) -> (r: Vec<Reading>)
    ensures
        store.wf(),
        is_listing_of(models_of(r@), store@),
        r@.len() == store@.dom().len(),
{
    store.list()
}

/// The reading whose identifier the text denotes, if it is on record.
pub fn get_reading(store: &Store, id: &str) -> (r: Option<Reading>)
    ensures
        model_of(r) == found_in(store@, parsed_id(id@)),
{
    store.get(id)
}

/// Where a reading can be fetched, given its identifier as text.
pub fn location_of(id: &str) -> (r: String)
    ensures
        r@ == READINGS_PATH@ + id@,
{
    READINGS_PATH.to_owned().concat(id)
}

/// The answer for a reading that was just recorded.
pub fn created(reading: Reading) -> (r: Created)
    ensures
        r.body == reading,
        r.location@ == READINGS_PATH@ + id_text(reading.id),
        parsed_id(id_text(reading.id)) == Some(reading.id),
{
    let text = write_id(reading.id);
    Created { location: location_of(text.as_str()), body: reading }
}

/// Records the reading that a request describes, under a random identifier
/// and the current time, and answers with the record and its location.
pub fn create_reading(store: &mut Store, request: &CreateReadingRequest) -> (r: Created)
    ensures
        final(store).wf(),
        final(store)@ == old(store)@.insert(r.body.id, r.body@),
        r.body@.question == request.question@,
        r.body@.cards == texts_of(request.cards@),
        r.body@.interpretation == request.interpretation@,
        is_random_kind(r.body.id),
        r.body.created_at.wf(),
        r.location@ == READINGS_PATH@ + id_text(r.body.id),
        found_in(final(store)@, parsed_id(id_text(r.body.id))) == Some(r.body@),
{
    let reading = store.create(
        request.question.clone(),
        copy_texts(&request.cards),
        request.interpretation.clone(),
    );
    created(reading)
}

} // verus!
