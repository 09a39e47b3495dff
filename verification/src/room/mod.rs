//! Rooms: the in-memory sessions of documents, and the rules by which a
//! room takes an update, saves and closes.

pub mod admission;
pub mod docctx;
pub mod hub;
pub mod room;
pub mod save;
pub mod subs;
