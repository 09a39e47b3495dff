//! What a room knows about its document besides the document itself.

use std::collections::HashMap;
use vstd::prelude::*;

verus! {

/// The context of a document in a room.
#[derive(Debug)]
pub struct DocContext {
    /// The organisation that the document belongs to.
    pub org: String,
    pub doc_id: u128,
    /// The stream that the document was loaded from and is saved to.
    pub doc_stream_id: u128,
    pub doc_version: u32,
    pub doc_owner: String,
    /// For each peer of the document, the principal that writes under it.
    pub peer_map: HashMap<u64, String>,
    /// The peer of the last update that was taken since the last save.
    pub last_updating_peer: Option<u64>,
}

/// A peer map read as peer to principal text.
pub open spec fn bindings(m: Map<u64, String>) -> Map<u64, Seq<char>> {
    Map::new(|p: u64| m.contains_key(p), |p: u64| m[p]@)
}

/// `later` binds every peer that `earlier` binds, and to the same principal.
pub open spec fn keeps_bindings(earlier: Map<u64, Seq<char>>, later: Map<u64, Seq<char>>) -> bool {
    forall|p: u64| #[trigger]
        earlier.contains_key(p) ==> later.contains_key(p) && later[p] == earlier[p]
}

impl DocContext {
    /// The peer bindings of this context.
    pub open spec fn peers(&self) -> Map<u64, Seq<char>> {
        bindings(self.peer_map@)
    }

    /// Everything but the peer map and the last updating peer is as in
    /// `other`.
    pub open spec fn same_document(&self, other: &DocContext) -> bool {
        &&& self.org == other.org
        &&& self.doc_id == other.doc_id
        &&& self.doc_stream_id == other.doc_stream_id
        &&& self.doc_version == other.doc_version
        &&& self.doc_owner == other.doc_owner
    }
}

/// A binding never changes once it is set: where every step of a chain of
/// changes keeps the bindings that it finds, the whole chain keeps the
/// bindings that it began with.
pub proof fn law_bindings_never_change(
    a: Map<u64, Seq<char>>,
    b: Map<u64, Seq<char>>,
    c: Map<u64, Seq<char>>,
)
    requires
        keeps_bindings(a, b),
        keeps_bindings(b, c),
    ensures
        keeps_bindings(a, c),
{
    assert forall|p: u64| #[trigger] a.contains_key(p) implies c.contains_key(p) && c[p] == a[p] by {
        assert(b.contains_key(p));
    }
}

} // verus!
