//! The persisted form of a document: its snapshot and its peer bindings in
//! one CBOR blob.

pub mod head;
pub mod item;
pub mod package;
