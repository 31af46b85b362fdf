//! An in-memory register of tarot readings: the records, the store that finds
//! them by identifier and lists them newest first, the operations that a web
//! front end offers on it, and the cross-origin policy that such a front end
//! runs under.

pub mod clock;
pub mod ident;
pub mod laws;
pub mod origins;
pub mod reading;
pub mod samples;
pub mod service;
pub mod store;
