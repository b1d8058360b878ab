//! Assembly stage of a binary-XML decoder: element records and stream events.
//!
//! A tokenizer hands over names and typed values. The element builder in `model::xml` pairs
//! attribute names with their values and assembles one element record; the events of
//! `model::xml` lay a whole document out as a flat sequence.

pub mod binxml;
pub mod model;
pub mod order;
pub mod text;
