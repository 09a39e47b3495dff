//! The data that crosses the HTTP surface and the session stream, and the
//! document model that a document is first built from.

pub mod api;
pub mod colab;
pub mod messages;
