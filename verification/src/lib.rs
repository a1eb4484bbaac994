//! Retrieval core for a city-facts dashboard.
//!
//! A free-text city query is resolved, through a chain of provider
//! responses, into a set of endpoint URLs; the responses fetched from
//! those endpoints are parsed into typed records: livability scores with
//! severity bands, median salaries, city metadata, and a 24-hour average
//! temperature. All parsing and derivation is verified; the HTTP
//! transport and the JSON front end are the callers' concern.

pub mod error;
pub mod num;
pub mod json;
pub mod score;
pub mod salary;
pub mod weather;
pub mod urls;
pub mod facts;
