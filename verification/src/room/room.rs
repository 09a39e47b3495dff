//! One room: a document in memory with its context and its subscribers.

use crate::codec::package::parse_package;
use crate::connctx::SYSTEM_CONN;
use crate::doc::acl::clears;
use crate::doc::tree::Tree;
use crate::doc::write::doc_reads;
use crate::crdt::{
    deep_json, export_snapshot, fork_doc, import_bytes, state_versions, string_at, Step,
};
use crate::error::ErrorKind;
use crate::room::admission::{admission_of, decide_update, peers_after, record_update, Admission};
use crate::room::docctx::{keeps_bindings, DocContext};
use crate::room::save::{build_save_job, SaveJob};
use crate::room::subs::{add_conn, has_conn, lemma_without, others, without};
use crate::text::{list_of, text_of};
use vstd::prelude::*;
use vstd::string::*;

verus! {

/// The kinds of replicated data that a room may hold.
#[derive(Debug, Clone, Copy, PartialEq, Eq, Structural)]
pub enum CrdtKind {
    Loro,
    LoroEphemeralStore,
    LoroEphemeralStorePersisted,
    Yjs,
    YjsAwareness,
    Elo,
    Flock,
}

/// What names a room within its organisation.
#[derive(Debug)]
pub struct RoomKey {
    pub crdt: CrdtKind,
    pub room: String,
}

impl RoomKey {
    /// The key names the room `room` of kind `crdt`.
    pub open spec fn names(&self, crdt: CrdtKind, room: Seq<char>) -> bool {
        self.crdt == crdt && self.room@ == room
    }

    /// Whether the key names the room `room` of kind `crdt`.
    pub fn is(&self, crdt: CrdtKind, room: &str) -> (r: bool)
        ensures
            r == self.names(crdt, room@),
    {
        self.crdt == crdt && crate::text::str_eq(self.room.as_str(), room)
    }
}

/// A room.
pub struct Room {
    pub key: RoomKey,
    /// The document, once it is loaded.
    pub doc: Option<loro::LoroDoc>,
    /// The document's context, once it is loaded.
    pub ctx: Option<DocContext>,
    /// The connections that are subscribed, none of them twice.
    pub subs: Vec<u64>,
    /// Whether an update was taken since the last save.
    pub dirty: bool,
    /// How many updates were taken, counted round.
    pub changes: u64,
}

/// The outcome is what the admission rule gives for some pair of version
/// vectors: those of the document before the batch and with it.
pub open spec fn by_rule(
    peers: Map<u64, Seq<char>>,
    user_prpls: Option<Seq<String>>,
    by_prpl: Option<Seq<char>>,
    outcome: Admission,
) -> bool {
    exists|before: Seq<(u64, i32)>, after: Seq<(u64, i32)>|
        outcome == #[trigger] admission_of(peers, before, after, user_prpls, by_prpl)
}

/// What became of a batch, and to which connections it goes on.
pub struct UpdateOutcome {
    pub admission: Admission,
    pub fan_out: Vec<u64>,
}

/// The outcome of a batch that is refused.
fn refused(kind: ErrorKind) -> (r: UpdateOutcome)
    ensures
        r.admission == (Admission::Denied { kind }),
        r.fan_out@.len() == 0,
{
    UpdateOutcome { admission: Admission::Denied { kind }, fan_out: Vec::new() }
}

/// The version vectors of the document as it is, and as it would be with
/// the batch: the batch is applied to a copy. A batch that cannot be read is
/// an invalid argument.
fn preview(doc: &loro::LoroDoc, bytes: &[u8]) -> (r: Result<
    (Vec<(u64, i32)>, Vec<(u64, i32)>),
    ErrorKind,
>)
    ensures
        r matches Err(e) ==> e == ErrorKind::Internal || e == ErrorKind::InvalidArgument,
{
    let before = match state_versions(doc) {
        Ok(v) => v,
        Err(_) => {
            return Err(ErrorKind::Internal);
        },
    };
    let mut trial = fork_doc(doc);
    if import_bytes(&mut trial, bytes).is_err() {
        return Err(ErrorKind::InvalidArgument);
    }
    match state_versions(&trial) {
        Ok(after) => Ok((before, after)),
        Err(_) => Err(ErrorKind::Internal),
    }
}

impl Room {
    /// What holds of every room: no connection is subscribed twice; a room
    /// with subscribers has its context; a room with a context has its
    /// document; a dirty room knows the peer of its last update.
    pub open spec fn wf(&self) -> bool {
        &&& self.subs@.no_duplicates()
        &&& self.subs@.len() > 0 ==> self.ctx is Some
        &&& self.ctx is Some ==> self.doc is Some
        &&& self.dirty ==> self.ctx is Some && self.ctx->0.last_updating_peer is Some
    }

    /// A room that waits for its document: no context, no subscribers.
    pub fn new(crdt: CrdtKind, room: &str) -> (r: Room)
        ensures
            r.wf(),
            r.key.names(crdt, room@),
            r.ctx is None,
            r.doc is None,
            r.subs@.len() == 0,
            !r.dirty,
    {
        Room {
            key: RoomKey { crdt, room: String::from_str(room) },
            doc: None,
            ctx: None,
            subs: Vec::new(),
            dirty: false,
            changes: 0,
        }
    }

    /// Gives the room its document and context after a load. A context
    /// that names a last updating peer makes the room dirty: that state was
    /// never saved.
    pub fn install(&mut self, doc: loro::LoroDoc, ctx: DocContext)
        requires
            old(self).wf(),
        ensures
            final(self).wf(),
            final(self).ctx == Some(ctx),
            final(self).doc == Some(doc),
            final(self).dirty == ctx.last_updating_peer is Some,
            final(self).key == old(self).key,
            final(self).subs == old(self).subs,
    {
        self.dirty = ctx.last_updating_peer.is_some();
        self.doc = Some(doc);
        self.ctx = Some(ctx);
    }

    /// Subscribes a connection. A room without its context takes no
    /// subscriber.
    pub fn subscribe(&mut self, conn: u64) -> (r: Result<(), ErrorKind>)
        requires
            old(self).wf(),
        ensures
            final(self).wf(),
            final(self).key == old(self).key,
            final(self).ctx == old(self).ctx,
            final(self).doc == old(self).doc,
            final(self).dirty == old(self).dirty,
            match r {
                Ok(()) => {
                    &&& old(self).ctx is Some
                    &&& final(self).subs@.to_set() == old(self).subs@.to_set().insert(conn)
                },
                Err(e) => old(self).ctx is None && e == ErrorKind::NotFound && final(self).subs
                    == old(self).subs,
            },
    {
        if self.ctx.is_none() {
            return Err(ErrorKind::NotFound);
        }
        add_conn(&mut self.subs, conn);
        Ok(())
    }

    /// Takes a connection out of the subscribers. The result says whether
    /// the room is left without subscribers.
    pub fn unsubscribe(&mut self, conn: u64) -> (r: bool)
        requires
            old(self).wf(),
        ensures
            final(self).wf(),
            final(self).key == old(self).key,
            final(self).ctx == old(self).ctx,
            final(self).doc == old(self).doc,
            final(self).dirty == old(self).dirty,
            final(self).subs@ == without(old(self).subs@, conn),
            r == (final(self).subs@.len() == 0),
    {
        proof {
            lemma_without(self.subs@, conn);
        }
        let rest = others(&self.subs, conn);
        self.subs = rest;
        self.subs.len() == 0
    }

    /// Whether this room and the outcome `r` are what taking a batch from
    /// the connection `conn` makes of the room `before`.
    ///
    /// What is decided before the batch is read: a room without its context
    /// is not found; a sender whose principals are not known is
    /// unauthenticated; a connection that is neither subscribed nor the
    /// system's is denied. Every other outcome is given by the admission
    /// rule on some pair of version vectors, or is that the batch cannot be
    /// read (an invalid argument) or that the document failed (internal).
    ///
    /// A batch that is taken is recorded in the context: its peer is the
    /// last updating peer and is bound as the rule says, every binding that
    /// was there stays, the room is dirty, and the batch goes on to the
    /// other subscribers. Any other batch goes on to nobody and leaves the
    /// context and the dirty mark as they were, and the whole room too
    /// unless the document failed.
    pub open spec fn takes(
        &self,
        before: &Room,
        conn: u64,
        user_prpls: Option<&Vec<String>>,
        by_prpl: Option<&str>,
        r: UpdateOutcome,
    ) -> bool {
        &&& self.key == before.key
        &&& self.subs == before.subs
        &&& if before.ctx is None {
            r.admission == (Admission::Denied { kind: ErrorKind::NotFound })
        } else if user_prpls is None {
            r.admission == (Admission::Denied { kind: ErrorKind::Unauthenticated })
        } else if conn != SYSTEM_CONN && !before.subs@.contains(conn) {
            r.admission == (Admission::Denied { kind: ErrorKind::PermissionDenied })
        } else {
            ||| by_rule(before.ctx->0.peers(), list_of(user_prpls), text_of(by_prpl), r.admission)
            ||| r.admission == (Admission::Denied { kind: ErrorKind::InvalidArgument })
            ||| r.admission == (Admission::Denied { kind: ErrorKind::Internal })
        }
        &&& match r.admission {
            Admission::Accepted { peer } => {
                &&& self.ctx is Some
                &&& self.ctx->0.same_document(&before.ctx->0)
                &&& keeps_bindings(before.ctx->0.peers(), self.ctx->0.peers())
                &&& self.ctx->0.peers().contains_key(peer)
                &&& self.ctx->0.peers() == peers_after(
                    before.ctx->0.peers(),
                    r.admission,
                    text_of(by_prpl),
                )
                &&& self.ctx->0.last_updating_peer == Some(peer)
                &&& self.dirty
                &&& r.fan_out@ == without(before.subs@, conn)
            },
            Admission::NoChange => *self == *before && r.fan_out@.len() == 0,
            Admission::Denied { kind } => {
                &&& self.ctx == before.ctx
                &&& self.dirty == before.dirty
                &&& self.changes == before.changes
                &&& kind != ErrorKind::Internal ==> *self == *before
                &&& r.fan_out@.len() == 0
            },
        }
    }

    /// Takes or refuses a batch of operations from the connection `conn`,
    /// which must be subscribed to the room unless it is the system's, as
    /// `takes` says. The batch is first applied to a copy of the document;
    /// the version vectors of the document and of the copy decide by the
    /// admission rule. Only a batch that is taken is applied to the
    /// document.
    pub fn take_update(
        &mut self,
        conn: u64,
        bytes: &[u8],
        user_prpls: Option<&Vec<String>>,
        by_prpl: Option<&str>,
    ) -> (r: UpdateOutcome)
        requires
            old(self).wf(),
        ensures
            final(self).wf(),
            final(self).takes(old(self), conn, user_prpls, by_prpl, r),
    {
        if self.ctx.is_none() || self.doc.is_none() {
            return refused(ErrorKind::NotFound);
        }
        if user_prpls.is_none() {
            return refused(ErrorKind::Unauthenticated);
        }
        if conn != SYSTEM_CONN && !has_conn(&self.subs, conn) {
            return refused(ErrorKind::PermissionDenied);
        }
        let (before, after) = match preview(self.doc.as_ref().unwrap(), bytes) {
            Ok(vectors) => vectors,
            Err(kind) => {
                return refused(kind);
            },
        };
        let decision = decide_update(
            self.ctx.as_ref().unwrap(),
            &before,
            &after,
            user_prpls,
            by_prpl,
        );
        let peer = match decision {
            Admission::Accepted { peer } => peer,
            _ => {
                return UpdateOutcome { admission: decision, fan_out: Vec::new() };
            },
        };
        let mut doc = self.doc.take().unwrap();
        let applied = import_bytes(&mut doc, bytes);
        self.doc = Some(doc);
        if applied.is_err() {
            return refused(ErrorKind::Internal);
        }
        let mut ctx = self.ctx.take().unwrap();
        record_update(&mut ctx, peer, by_prpl);
        self.ctx = Some(ctx);
        self.dirty = true;
        self.changes = self.changes.wrapping_add(1);
        let fan_out = others(&self.subs, conn);
        UpdateOutcome { admission: decision, fan_out }
    }

    /// Whether `r` is what a save of this room comes to. A room that is
    /// not dirty is not written: there is no job. A dirty room gives a job
    /// or the reason why its state cannot be written. The job carries the
    /// room's mark and the identity of its document, names the principal
    /// of the last updating peer, and holds a package with the room's
    /// bindings that binds every peer of the job's version vector.
    pub open spec fn job_fits(&self, r: Result<Option<SaveJob>, ErrorKind>) -> bool {
        match r {
            Ok(Some(job)) => {
                &&& self.dirty
                &&& self.ctx is Some
                &&& job.mark == self.changes
                &&& job.org == self.ctx->0.org
                &&& job.doc_id == self.ctx->0.doc_id
                &&& job.doc_stream_id == self.ctx->0.doc_stream_id
                &&& job.peer_map@ == self.ctx->0.peer_map@
                &&& job.by_prpl@ == self.ctx->0.peers()[self.ctx->0.last_updating_peer->0]
                &&& parse_package(job.blob@) is Some
                &&& parse_package(job.blob@)->0.peers == self.ctx->0.peers()
                &&& forall|i: int|
                    0 <= i < job.version_v@.len() ==> parse_package(
                        job.blob@,
                    )->0.peers.contains_key(#[trigger] job.version_v@[i].0)
            },
            Ok(None) => !self.dirty,
            Err(_) => self.dirty,
        }
    }

    /// The write that brings the store up to the room's state, if the room
    /// is dirty. A room that is not dirty gives no job, and so does every
    /// room whose context names no last updating peer.
    pub fn save_job(&self) -> (r: Result<Option<SaveJob>, ErrorKind>)
        requires
            self.wf(),
        ensures
            self.job_fits(r),
    {
        if !self.dirty {
            return Ok(None);
        }
        let doc = self.doc.as_ref().unwrap();
        let ctx = self.ctx.as_ref().unwrap();
        let mut place: Vec<Step> = Vec::new();
        place.push(Step::Key(String::from_str("properties")));
        place.push(Step::Key(String::from_str("type")));
        let doc_type = match string_at(doc, &place) {
            Some(t) => t,
            None => {
                return Err(ErrorKind::Unsupported);
            },
        };
        let snapshot = match export_snapshot(doc) {
            Ok(b) => b,
            Err(_) => {
                return Err(ErrorKind::Internal);
            },
        };
        let versions = match state_versions(doc) {
            Ok(v) => v,
            Err(_) => {
                return Err(ErrorKind::Internal);
            },
        };
        let json = deep_json(doc);
        match build_save_job(ctx, doc_type.as_str(), snapshot, versions, json, self.changes) {
            Ok(job) => Ok(Some(job)),
            Err(e) => Err(e),
        }
    }

    /// Records that the job with the mark `mark` was written. Where no
    /// update was taken since the job was made, the room is clean again and
    /// names no last updating peer; where one was, the room stays dirty.
    pub fn saved(&mut self, mark: u64)
        requires
            old(self).wf(),
        ensures
            final(self).wf(),
            final(self).key == old(self).key,
            final(self).subs == old(self).subs,
            final(self).doc == old(self).doc,
            final(self).changes == old(self).changes,
            if old(self).changes == mark && old(self).ctx is Some {
                &&& !final(self).dirty
                &&& final(self).ctx is Some
                &&& final(self).ctx->0.last_updating_peer is None
                &&& final(self).ctx->0.peer_map == old(self).ctx->0.peer_map
                &&& final(self).ctx->0.same_document(&old(self).ctx->0)
            } else {
                *final(self) == *old(self)
            },
    {
        if self.changes == mark && self.ctx.is_some() {
            let mut ctx = self.ctx.take().unwrap();
            ctx.last_updating_peer = None;
            self.ctx = Some(ctx);
            self.dirty = false;
        }
    }

    /// Records an edit that the service itself made under `peer`: the peer
    /// is bound to the service's principal unless it is bound already, it
    /// becomes the last updating peer, and the room is dirty.
    pub fn note_system_edit(&mut self, peer: u64, service_prpl: &str)
        requires
            old(self).wf(),
            old(self).ctx is Some,
        ensures
            final(self).wf(),
            final(self).key == old(self).key,
            final(self).subs == old(self).subs,
            final(self).doc == old(self).doc,
            final(self).dirty,
            final(self).ctx is Some,
            final(self).ctx->0.same_document(&old(self).ctx->0),
            final(self).ctx->0.last_updating_peer == Some(peer),
            keeps_bindings(old(self).ctx->0.peers(), final(self).ctx->0.peers()),
            final(self).ctx->0.peers() == peers_after(
                old(self).ctx->0.peers(),
                Admission::Accepted { peer },
                Some(service_prpl@),
            ),
    {
        let mut ctx = self.ctx.take().unwrap();
        record_update(&mut ctx, peer, Some(service_prpl));
        self.ctx = Some(ctx);
        self.dirty = true;
        self.changes = self.changes.wrapping_add(1);
    }
}

impl Room {
    /// Whether this room and the result `r` are what the system edit that
    /// clears the access lists makes of the room `before`. A room without
    /// its context is not found. An edit that went well gives the peer
    /// that it ran under: the document's access lists are cleared as
    /// `clears` says, the peer is the last updating peer and is bound to
    /// `service_prpl` unless it was bound already, no other binding is
    /// added or changed, and the room is dirty. An edit that failed
    /// records nothing, and leaves the whole room as it was unless the
    /// document failed.
    pub open spec fn acls_cleared(
        &self,
        before: &Room,
        service_prpl: Seq<char>,
        r: Result<u64, ErrorKind>,
    ) -> bool {
        &&& self.key == before.key
        &&& self.subs == before.subs
        &&& before.ctx is None ==> r == Err::<u64, ErrorKind>(ErrorKind::NotFound)
        &&& match r {
            Ok(peer) => {
                &&& before.ctx is Some
                &&& before.doc is Some
                &&& self.ctx is Some
                &&& self.doc is Some
                &&& exists|t: Tree, n: usize|
                    doc_reads(before.doc->0, t) && #[trigger] clears(
                        before.doc->0,
                        t,
                        self.doc->0,
                        Ok(n),
                    )
                &&& self.dirty
                &&& self.ctx->0.same_document(&before.ctx->0)
                &&& self.ctx->0.last_updating_peer == Some(peer)
                &&& keeps_bindings(before.ctx->0.peers(), self.ctx->0.peers())
                &&& self.ctx->0.peers() == peers_after(
                    before.ctx->0.peers(),
                    Admission::Accepted { peer },
                    Some(service_prpl),
                )
            },
            Err(e) => {
                &&& self.ctx == before.ctx
                &&& self.dirty == before.dirty
                &&& self.changes == before.changes
                &&& e != ErrorKind::Internal ==> *self == *before
            },
        }
    }

    /// Clears the access lists of the room's document, as the service
    /// itself and as `acls_cleared` says: the edit is recorded under the
    /// document's own peer.
    pub fn clear_acls(&mut self, service_prpl: &str) -> (r: Result<u64, ErrorKind>)
        requires
            old(self).wf(),
        ensures
            final(self).wf(),
            final(self).acls_cleared(old(self), service_prpl@, r),
    {
        if self.ctx.is_none() || self.doc.is_none() {
            return Err(ErrorKind::NotFound);
        }
        let mut doc = self.doc.take().unwrap();
        let ghost d0 = doc;
        let done = crate::doc::acl::clear_acls(&mut doc);
        let ghost d1 = doc;
        let peer = crate::crdt::own_peer(&doc);
        self.doc = Some(doc);
        match done {
            Ok(n) => {
                self.note_system_edit(peer, service_prpl);
                proof {
                    let t = choose|t: Tree| doc_reads(d0, t) && #[trigger] clears(d0, t, d1, done);
                    let before = old(self).doc->0;
                    let after = self.doc->0;
                    assert(doc_reads(before, t) && clears(before, t, after, Ok(n)));
                }
                Ok(peer)
            },
            Err(e) => {
                proof {
                    let t = choose|t: Tree| doc_reads(d0, t) && #[trigger] clears(d0, t, d1, done);
                    assert(e != ErrorKind::Internal ==> d1 == d0);
                }
                if e == ErrorKind::NotFound {
                    Err(ErrorKind::Internal)
                } else {
                    Err(e)
                }
            },
        }
    }
}

impl Room {
    /// Whether the room is well formed.
    pub fn is_well_formed(&self) -> (r: bool)
        ensures
            r == self.wf(),
    {
        if !crate::room::subs::all_distinct(&self.subs) {
            return false;
        }
        if self.subs.len() > 0 && self.ctx.is_none() {
            return false;
        }
        if self.ctx.is_some() && self.doc.is_none() {
            return false;
        }
        if self.dirty {
            match &self.ctx {
                Some(ctx) => ctx.last_updating_peer.is_some(),
                None => false,
            }
        } else {
            true
        }
    }
}

} // verus!
