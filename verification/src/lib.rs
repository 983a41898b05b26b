//! Flat, delimiter-joined encoding of structured values.
//!
//! A value built from booleans, integers, characters, strings, byte blobs,
//! optional values and records is written into one growable text buffer,
//! with a caller-chosen delimiter between segments. Shapes the format
//! cannot represent (sequences, maps, tuples, unit values, enum payloads)
//! are rejected with an error naming the shape.

pub mod base64url;
pub mod error;
pub mod indexed;
pub mod laws;
pub mod numeral;
pub mod value;

pub use error::Error;
