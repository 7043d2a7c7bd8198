//! Decoding of the telemetry that an AxeOS mining device reports, with the rules of the
//! decoding stated as contracts and proved.
//!
//! - `client`: which address to ask, and what to make of the status and the body of an answer;
//! - `response`: the telemetry, and its decoding from the payload of an answer;
//! - `fields`: the fields of the telemetry, their names in a payload and their shapes;
//! - `difficulty`: difficulties written as a number and a unit;
//! - `binary64`: arithmetic on binary64 floating-point numbers by their bits;
//! - `json`: JSON documents, read by `serde_json`;
//! - `text`: splitting text into words;
//! - `error`: what can go wrong.
//!
//! The library sends nothing and holds no floating-point type. Its caller sends the request,
//! hands over the status and the body of the answer, and reads the number words of the
//! difficulties as binary64 numbers, which the library takes by their bits.

pub mod binary64;
pub mod client;
pub mod difficulty;
pub mod error;
pub mod fields;
pub mod json;
pub mod response;
pub mod text;
