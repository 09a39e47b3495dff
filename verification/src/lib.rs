//! Collaborative document rooms: who may edit which document, under which
//! peer, and what is written to the store when.

pub mod admin;
pub mod auth;
pub mod cache;
pub mod client;
pub mod codec;
pub mod config;
pub mod connctx;
pub mod crdt;
pub mod doc;
pub mod encoding;
pub mod error;
pub mod ids;
pub mod json;
pub mod load;
pub mod models;
pub mod room;
pub mod session;
pub mod sql;
pub mod store;
pub mod text;
pub mod token;
pub mod userctx;
