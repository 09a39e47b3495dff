//! Loading a document: from the stream that holds its latest state, or,
//! where it has none, from its model.

use crate::codec::package::{
    decode_package, encode_package, parse_package, ColabPackage, PackageView,
};
use crate::crdt::{export_snapshot, own_peer};
use crate::doc::write::colab_to_loro_doc;
use crate::error::ErrorKind;
use crate::models::colab::ColabModel;
use crate::room::docctx::{bindings, DocContext};
use crate::store::{plan_fits, plan_load, ColabDocument, LoadPlan};
use std::collections::HashMap;
use vstd::prelude::*;
use vstd::string::*;

verus! {

/// What the store gave for a document: its snapshot and context; nothing
/// where it has no such document; or the text of its failure.
pub type Fetched = Result<Option<(Vec<u8>, DocContext)>, String>;

broadcast use vstd::std_specs::hash::group_hash_axioms;

/// The version of the stream that is written for a document built from its
/// model.
pub const FIRST_VERSION: u32 = 1;

/// The snapshot and the context of a document, read from its stream at
/// `index`: the stream's content is decoded as a package; the context has
/// the package's peer bindings, the stream's version, the document's owner,
/// and no last updating peer.
pub fn context_from_stream(org: &str, doc: &ColabDocument, index: usize) -> (r: Result<
    (Vec<u8>, DocContext),
    ErrorKind,
>)
    requires
        index < doc.streams@.len(),
        doc.streams@[index as int].content is Some,
    ensures
        match r {
            Ok((snapshot, ctx)) => {
                &&& parse_package(doc.streams@[index as int].content->0@) is Some
                &&& parse_package(doc.streams@[index as int].content->0@)->0.snapshot
                    == snapshot@
                &&& parse_package(doc.streams@[index as int].content->0@)->0.peers == ctx.peers()
                &&& ctx.org@ == org@
                &&& ctx.doc_id == doc.id
                &&& ctx.doc_stream_id == doc.streams@[index as int].id
                &&& ctx.doc_version == doc.streams@[index as int].version
                &&& ctx.doc_owner@ == doc.owner@
                &&& ctx.last_updating_peer is None
            },
            Err(e) => e == ErrorKind::Internal && parse_package(
                doc.streams@[index as int].content->0@,
            ) is None,
        },
{
    let stream = &doc.streams[index];
    let content = match &stream.content {
        Some(c) => c,
        None => {
            return Err(ErrorKind::Internal);
        },
    };
    let pkg = match decode_package(content.as_slice()) {
        Ok(p) => p,
        Err(_) => {
            return Err(ErrorKind::Internal);
        },
    };
    let ctx = DocContext {
        org: String::from_str(org),
        doc_id: doc.id,
        doc_stream_id: stream.id,
        doc_version: stream.version,
        doc_owner: doc.owner.clone(),
        peer_map: pkg.peer_map,
        last_updating_peer: None,
    };
    Ok((pkg.snapshot, ctx))
}

/// A document that was built from its model and waits to be written as a
/// new stream.
pub struct Synthesized {
    pub snapshot: Vec<u8>,
    /// The peer under which the document was built.
    pub peer: u64,
    pub peer_map: HashMap<u64, String>,
    /// The package of snapshot and peer map, encoded: the content of the new
    /// stream.
    pub blob: Vec<u8>,
}

/// Builds a document from its model: the snapshot of the fresh document,
/// the peer map that binds the document's own peer to the service, and both
/// as one blob.
pub fn synthesize(model: &ColabModel, service_prpl: &str) -> (r: Result<Synthesized, ErrorKind>)
    ensures
        match r {
            Ok(s) => {
                &&& bindings(s.peer_map@) == Map::<u64, Seq<char>>::empty().insert(
                    s.peer,
                    service_prpl@,
                )
                &&& parse_package(s.blob@) == Some(
                    PackageView {
                        snapshot: s.snapshot@,
                        peers: bindings(s.peer_map@),
                        extra: Seq::empty(),
                    },
                )
            },
            Err(e) => e == ErrorKind::Internal,
        },
{
    let doc = match colab_to_loro_doc(model) {
        Some(d) => d,
        None => {
            return Err(ErrorKind::Internal);
        },
    };
    let snapshot = match export_snapshot(&doc) {
        Ok(s) => s,
        Err(_) => {
            return Err(ErrorKind::Internal);
        },
    };
    let peer = own_peer(&doc);
    let mut peer_map: HashMap<u64, String> = HashMap::new();
    peer_map.insert(peer, String::from_str(service_prpl));
    assert(bindings(peer_map@) =~= Map::<u64, Seq<char>>::empty().insert(peer, service_prpl@));
    let pkg = ColabPackage::new(snapshot, peer_map);
    let blob = encode_package(&pkg);
    Ok(Synthesized { snapshot: pkg.snapshot, peer, peer_map: pkg.peer_map, blob })
}

/// The context of a document that was built from its model, once its new
/// stream is written under `stream_id`: the first version, the peer map of
/// the build, and the build's peer as the last updating peer, so that the
/// first save writes the document's state.
pub fn context_for_new_stream(
    org: &str,
    doc: &ColabDocument,
    stream_id: u128,
    built: Synthesized,
) -> (r: (Vec<u8>, DocContext))
    ensures
        r.0 == built.snapshot,
        r.1.org@ == org@,
        r.1.doc_id == doc.id,
        r.1.doc_stream_id == stream_id,
        r.1.doc_version == FIRST_VERSION,
        r.1.doc_owner@ == doc.owner@,
        r.1.peer_map == built.peer_map,
        r.1.last_updating_peer == Some(built.peer),
{
    let ctx = DocContext {
        org: String::from_str(org),
        doc_id: doc.id,
        doc_stream_id: stream_id,
        doc_version: FIRST_VERSION,
        doc_owner: doc.owner.clone(),
        peer_map: built.peer_map,
        last_updating_peer: Some(built.peer),
    };
    (built.snapshot, ctx)
}

/// What a load came to.
pub enum Loaded {
    /// The document is loaded: its snapshot and its context.
    Ready(Vec<u8>, DocContext),
    /// The document was built from its model: its blob has to be written
    /// as a new stream, and `context_for_new_stream` then gives the context.
    MustInsert(Synthesized),
    /// The store has no such document, or not in the version asked for.
    Missing,
}

/// Whether `r` is what loading the document `doc` by the plan `plan` comes
/// to. A stream whose content is a package gives the package's snapshot and
/// a context with the package's bindings, the document's identity and
/// owner, the stream's identifier and version, and no last updating peer; a
/// stream whose content is no package is an internal error. A document
/// that is built from its model gives the blob to insert, whose package
/// binds the document's own peer to the service, or an internal error
/// where the model could not be read or written. A version that is not
/// there is missing; a document without content is not found.
pub open spec fn load_fits(
    org: Seq<char>,
    doc: ColabDocument,
    model: Option<&ColabModel>,
    service_prpl: Seq<char>,
    plan: LoadPlan,
    r: Result<Loaded, ErrorKind>,
) -> bool {
    match plan {
        LoadPlan::FromStream { index } => {
            let stream = doc.streams@[index as int];
            match parse_package(stream.content->0@) {
                Some(pkg) => {
                    &&& r matches Ok(Loaded::Ready(snapshot, ctx))
                    &&& snapshot@ == pkg.snapshot
                    &&& ctx.peers() == pkg.peers
                    &&& ctx.org@ == org
                    &&& ctx.doc_id == doc.id
                    &&& ctx.doc_owner@ == doc.owner@
                    &&& ctx.doc_stream_id == stream.id
                    &&& ctx.doc_version == stream.version
                    &&& ctx.last_updating_peer is None
                },
                None => r matches Err(e) && e == ErrorKind::Internal,
            }
        },
        LoadPlan::FromModel => match r {
            Ok(Loaded::MustInsert(built)) => {
                &&& model is Some
                &&& parse_package(built.blob@) == Some(
                    PackageView {
                        snapshot: built.snapshot@,
                        peers: bindings(built.peer_map@),
                        extra: Seq::empty(),
                    },
                )
                &&& bindings(built.peer_map@) == Map::<u64, Seq<char>>::empty().insert(
                    built.peer,
                    service_prpl,
                )
            },
            Err(e) => e == ErrorKind::Internal,
            _ => false,
        },
        LoadPlan::NoSuchVersion => r matches Ok(Loaded::Missing),
        LoadPlan::NoContent => r matches Err(e) && e == ErrorKind::NotFound,
    }
}

/// The snapshot and the context of a document, from what the store gave
/// for it: the document with its streams, and its model where the store has
/// one and it could be read. The stream is chosen as `plan_load` says, and
/// the load then comes to what `load_fits` says: a stream that holds a
/// package is loaded; a document without a stream is built from its model,
/// and must then be written to the store as a new stream. Without a
/// document there is nothing to load.
pub fn fetch_doc_snapshot_from_db(
    org: &str,
    found: Option<&ColabDocument>,
    model: Option<&ColabModel>,
    version: Option<u32>,
    service_prpl: &str,
) -> (r: Result<Loaded, ErrorKind>)
    ensures
        found is None ==> r matches Ok(Loaded::Missing),
        found matches Some(doc) ==> exists|plan: LoadPlan|
            plan_fits(doc.streams@, doc.json is Some, version, plan) && #[trigger] load_fits(
                org@,
                *doc,
                model,
                service_prpl@,
                plan,
                r,
            ),
{
    let doc = match found {
        Some(d) => d,
        None => {
            return Ok(Loaded::Missing);
        },
    };
    let plan = plan_load(&doc.streams, doc.json.is_some(), version);
    let ghost chosen = plan;
    let r = match plan {
        LoadPlan::FromStream { index } => {
            match context_from_stream(org, doc, index) {
                Ok((snapshot, ctx)) => Ok(Loaded::Ready(snapshot, ctx)),
                Err(e) => Err(e),
            }
        },
        LoadPlan::FromModel => match model {
            Some(m) => match synthesize(m, service_prpl) {
                Ok(built) => Ok(Loaded::MustInsert(built)),
                Err(e) => Err(e),
            },
            None => Err(ErrorKind::Internal),
        },
        LoadPlan::NoSuchVersion => Ok(Loaded::Missing),
        LoadPlan::NoContent => Err(ErrorKind::NotFound),
    };
    assert(load_fits(org@, *doc, model, service_prpl@, chosen, r));
    r
}

} // verus!
