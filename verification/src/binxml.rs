//! Tokens handed over by the binary tokenizer: names and typed values.

pub mod name;
pub mod value_variant;
