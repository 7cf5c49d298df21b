//! A DOM-like tree for free-form XML extension content.
//!
//! Strongly typed document formats sometimes carry vendor-specific XML
//! fragments that no schema constrains. This crate preserves such fragments
//! verbatim: it defines serializable name/attribute/namespace value types and
//! a node union mirroring `xml-rs`'s representations, and a tree builder that
//! consumes a bounded event sequence and materializes it into one [`dom::Element`].

pub mod dom;
pub mod extensions;
pub mod interop;
pub mod laws;
