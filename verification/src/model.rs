//! What the decoder hands on: element records and the flat stream of events.

pub mod laws;
pub mod xml;
