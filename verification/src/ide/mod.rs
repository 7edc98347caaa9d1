//! Pieces of the SQL language server that work on plain text: hover texts,
//! integer literals, quoting, and the kinds of semantic tokens, locations and
//! inlay hints.
pub mod hover;
pub mod infer;
pub mod inlay_hints;
pub mod literals;
pub mod literal_round_trip;
pub mod location;
pub mod name;
pub mod quote;
pub mod semantic_tokens;
