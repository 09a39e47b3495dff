//! What is written to the store when a room is saved.

use crate::codec::package::{encode_package, parse_package, ColabPackage, PackageView};
use crate::error::ErrorKind;
use crate::models::colab::{model_type_of, parse_model_type, ColabModelType};
use crate::room::docctx::DocContext;
use std::collections::HashMap;
use vstd::prelude::*;
use vstd::string::*;

verus! {

broadcast use vstd::std_specs::hash::group_hash_axioms;

/// One write to the store: the stream and the document's row of its kind
/// are both brought up to the state in `blob` and `json`.
#[derive(Debug)]
pub struct SaveJob {
    pub org: String,
    pub doc_id: u128,
    pub doc_type: ColabModelType,
    pub doc_stream_id: u128,
    /// The package of snapshot and peer bindings, encoded.
    pub blob: Vec<u8>,
    /// The document's state as JSON text.
    pub json: String,
    /// The version vector of the snapshot.
    pub version_v: Vec<(u64, i32)>,
    pub peer_map: HashMap<u64, String>,
    /// The principal that the write is made for: that of the last updating
    /// peer.
    pub by_prpl: String,
    /// The room's count of changes when the job was made.
    pub mark: u64,
}

/// Every peer of the version vector is bound.
pub open spec fn all_bound(peers: Map<u64, Seq<char>>, versions: Seq<(u64, i32)>) -> bool {
    forall|i: int| 0 <= i < versions.len() ==> peers.contains_key(#[trigger] versions[i].0)
}

/// Why no job can be made for a context, a kind of document and a version
/// vector; `None` where one can be made.
pub open spec fn save_obstacle(ctx: DocContext, doc_type: Seq<char>, versions: Seq<(u64, i32)>)
    -> Option<ErrorKind> {
    if ctx.last_updating_peer is None {
        Some(ErrorKind::Internal)
    } else if !ctx.peers().contains_key(ctx.last_updating_peer->0) {
        Some(ErrorKind::Conflict)
    } else if !all_bound(ctx.peers(), versions) {
        Some(ErrorKind::Conflict)
    } else if model_type_of(doc_type) is None {
        Some(ErrorKind::Unsupported)
    } else {
        None
    }
}

/// Whether every peer of the version vector is bound in the context.
pub fn peers_bound(ctx: &DocContext, versions: &Vec<(u64, i32)>) -> (r: bool)
    ensures
        r == all_bound(ctx.peers(), versions@),
{
    let mut i: usize = 0;
    while i < versions.len()
        invariant
            i <= versions.len(),
            forall|j: int| 0 <= j < i ==> ctx.peers().contains_key(#[trigger] versions@[j].0),
        decreases versions.len() - i,
    {
        if !ctx.peer_map.contains_key(&versions[i].0) {
            return false;
        }
        i += 1;
    }
    true
}

/// The write for a room's state: the snapshot with the peer bindings as one
/// blob, the state as JSON, the version vector, and the principal of the
/// last updating peer. The blob decodes to a package that binds every peer
/// of the version vector. No job is made where no peer has updated since the
/// last save, where that peer or a peer of the version vector is not bound,
/// or where the document is of no known kind.
pub fn build_save_job(
    ctx: &DocContext,
    doc_type: &str,
    snapshot: Vec<u8>,
    versions: Vec<(u64, i32)>,
    json: String,
    mark: u64,
) -> (r: Result<SaveJob, ErrorKind>)
    ensures
        match r {
            Ok(job) => {
                &&& save_obstacle(*ctx, doc_type@, versions@) is None
                &&& parse_package(job.blob@) == Some(
                    PackageView { snapshot: snapshot@, peers: ctx.peers(), extra: Seq::empty() },
                )
                &&& forall|i: int|
                    0 <= i < job.version_v@.len() ==> parse_package(
                        job.blob@,
                    )->0.peers.contains_key(#[trigger] job.version_v@[i].0)
                &&& job.version_v == versions
                &&& job.json == json
                &&& job.peer_map@ == ctx.peer_map@
                &&& job.by_prpl@ == ctx.peers()[ctx.last_updating_peer->0]
                &&& Some(job.doc_type) == model_type_of(doc_type@)
                &&& job.org == ctx.org
                &&& job.doc_id == ctx.doc_id
                &&& job.doc_stream_id == ctx.doc_stream_id
                &&& job.mark == mark
            },
            Err(e) => save_obstacle(*ctx, doc_type@, versions@) == Some(e),
        },
{
    let last = match ctx.last_updating_peer {
        Some(p) => p,
        None => {
            return Err(ErrorKind::Internal);
        },
    };
    let by_prpl = match ctx.peer_map.get(&last) {
        Some(p) => p.clone(),
        None => {
            return Err(ErrorKind::Conflict);
        },
    };
    if !peers_bound(ctx, &versions) {
        return Err(ErrorKind::Conflict);
    }
    let kind = match parse_model_type(doc_type) {
        Some(k) => k,
        None => {
            return Err(ErrorKind::Unsupported);
        },
    };
    let pkg = ColabPackage::new(snapshot, ctx.peer_map.clone());
    let blob = encode_package(&pkg);
    Ok(
        SaveJob {
            org: ctx.org.clone(),
            doc_id: ctx.doc_id,
            doc_type: kind,
            doc_stream_id: ctx.doc_stream_id,
            blob,
            json,
            version_v: versions,
            peer_map: pkg.peer_map,
            by_prpl,
            mark,
        },
    )
}

} // verus!
