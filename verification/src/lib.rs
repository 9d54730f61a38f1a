//! A weather skill: it takes a request in JSON, asks a geocoding and a forecast service, and
//! answers with a short report of the current weather and the coming days.
//!
//! The library decides and computes; it does no input or output. [`skill::execute`] takes what
//! has come in and says what is to be done next, until the request is answered.

pub mod calendar;
pub mod conditions;
pub mod decimal;
pub mod error;
pub mod forecast;
pub mod geocode;
pub mod host;
pub mod json;
pub mod laws;
pub mod query;
pub mod report;
pub mod skill;
pub mod text;
pub mod units;
pub mod url;
