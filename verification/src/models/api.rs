//! Request and answer bodies of the HTTP surface.

use std::collections::HashMap;
use vstd::prelude::*;

verus! {

/// Answer of the health probe.
#[derive(Debug)]
pub struct HealthResponse {
    pub status: String,
    pub message: String,
}

/// Answer of the readiness probe.
#[derive(Debug)]
pub struct ReadyResponse {
    pub status: String,
    pub message: String,
}

/// Body of a request to create an item.
#[derive(Debug)]
pub struct CreateItemRequest {
    pub name: String,
    pub description: String,
}

/// Answer to a request to create an item.
#[derive(Debug)]
pub struct CreateItemResponse {
    pub id: u32,
    pub name: String,
    pub description: String,
}

/// The `format` parameter of a query, as it was sent.
#[derive(Debug)]
pub struct OutputFormatQuery {
    pub format: Option<String>,
}

/// A document as it travels in an `init` message: its name, identifier and
/// snapshot bytes.
#[derive(Debug)]
pub struct SerializedColabDoc {
    pub name: String,
    pub id: String,
    pub loro_doc: Vec<u8>,
}

/// Answer to a request to clear a document's access lists.
#[derive(Debug)]
pub struct DocumentClearAclResponse {
    pub success: bool,
}

/// Body of a request to delete a document.
#[derive(Debug)]
pub struct DocumentDeleteRequest {
    pub by_prpl: String,
}

/// Answer to a request to delete a document.
#[derive(Debug)]
pub struct DocumentDeleteResponse {
    pub success: bool,
}

/// Body of a request to move a document into a library, by document.
#[derive(Debug)]
pub struct DocumentLibraryMoveRequest {
    pub doc_id: String,
}

/// Answer to `DocumentLibraryMoveRequest`.
#[derive(Debug)]
pub struct DocumentLibraryMoveResponse {
    pub success: bool,
}

/// Body of a request to move a document into a library.
#[derive(Debug)]
pub struct DocumentMoveLibRequest {
    pub library_id: String,
    pub by_prpl: String,
}

/// Answer to `DocumentMoveLibRequest`.
#[derive(Debug)]
pub struct DocumentMoveLibResponse {
    pub success: bool,
}

/// Body of a request for a document at a version: the stream version, the
/// version vector to check out (peer to counter), and the wanted format.
#[derive(Debug)]
pub struct DocumentVersionRequest {
    pub version: u32,
    pub version_v: Option<Vec<(u64, i32)>>,
    pub format: Option<String>,
}

/// A document's state as the export endpoint returns it: the state as JSON
/// text, its version vector and its peer bindings.
#[derive(Debug)]
pub struct DocumentExportResponse {
    pub json: String,
    pub version_v: Vec<(u64, i32)>,
    pub peer_map: HashMap<u64, String>,
}

/// A document's latest state: JSON text and base64 of the binary state as
/// far as the format asks for them, the stream version, the version vector
/// and the peer bindings.
#[derive(Debug)]
pub struct DocumentLatestResponse {
    pub json: Option<String>,
    pub binary: Option<String>,
    pub version: u32,
    pub version_v: Vec<(u64, i32)>,
    pub peer_map: HashMap<u64, String>,
}

/// A document's state at a requested version, shaped as
/// `DocumentLatestResponse`.
#[derive(Debug)]
pub struct DocumentVersionResponse {
    pub json: Option<String>,
    pub binary: Option<String>,
    pub version: u32,
    pub version_v: Vec<(u64, i32)>,
    pub peer_map: HashMap<u64, String>,
}

/// What the diagnostics endpoint counts over all hubs.
#[derive(Debug, Clone, Copy, PartialEq, Eq, Structural)]
pub struct HubCounts {
    pub n_conn: u32,
    pub n_rooms: u32,
    pub n_doc_rooms: u32,
    pub n_ephemeral_rooms: u32,
    pub n_dirty_docs: u32,
}

} // verus!
