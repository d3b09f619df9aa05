//! Semantic document store for an editing assistant.
//!
//! The crate decomposes a text document into ordered, non-overlapping
//! content chunks, lazily computes a natural-language summary and a
//! vector embedding for both the whole document and each chunk, and
//! persists/reconstructs this structure without losing chunk ordering,
//! ranges, or parent linkage.  A prompt scanner locates inline trigger
//! markers in raw document text and reports their logical positions, and
//! a lookup component answers completion and hover queries over static
//! attribute dictionaries.

pub mod document;
pub mod fill;
pub mod htmx;
pub mod parsing;
pub mod store;
