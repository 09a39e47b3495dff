//! The rooms of one organisation, and the hubs of all organisations.

use crate::crdt::{export_snapshot, import_bytes, new_doc};
use crate::error::ErrorKind;
use crate::load::Fetched;
use crate::models::api::HubCounts;
use crate::room::admission::Admission;
use crate::room::docctx::DocContext;
use crate::room::room::{CrdtKind, Room, UpdateOutcome};
use crate::room::save::SaveJob;
use crate::room::subs::without;
use vstd::prelude::*;
use vstd::string::*;

verus! {

/// The rooms of one organisation, each under its own key.
pub struct Hub {
    pub org: String,
    pub rooms: Vec<Room>,
}

/// What `open` found.
#[derive(Debug, Clone, Copy, PartialEq, Eq, Structural)]
pub enum Opened {
    /// The room was there already.
    Present,
    /// The room was made and waits for its document: the caller loads it.
    MustLoad,
}

/// What `close` did.
pub enum Closed {
    /// No such room.
    NotOpen,
    /// The room has subscribers and the close was not forced.
    InUse,
    /// The room is gone. `notify` holds the connections that were
    /// subscribed and are to be told; `save` is the last write for a room
    /// that was dirty, or why none could be made.
    Gone { notify: Vec<u64>, save: Result<Option<SaveJob>, ErrorKind> },
}

/// The first position in `rooms` whose key names `(crdt, room)`, or the
/// length of `rooms` where none does.
pub open spec fn slot(rooms: Seq<Room>, crdt: CrdtKind, room: Seq<char>) -> int
    decreases rooms.len(),
{
    if rooms.len() == 0 {
        0
    } else if rooms[0].key.names(crdt, room) {
        0
    } else {
        1 + slot(rooms.drop_first(), crdt, room)
    }
}

/// `slot` is the least position with the key, and within bounds.
pub proof fn lemma_slot(rooms: Seq<Room>, crdt: CrdtKind, room: Seq<char>)
    ensures
        0 <= slot(rooms, crdt, room) <= rooms.len(),
        slot(rooms, crdt, room) < rooms.len() ==> rooms[slot(rooms, crdt, room)].key.names(
            crdt,
            room,
        ),
        forall|j: int| 0 <= j < slot(rooms, crdt, room) ==> !(#[trigger] rooms[j]).key.names(crdt, room),
    decreases rooms.len(),
{
    if rooms.len() > 0 && !rooms[0].key.names(crdt, room) {
        let rest = rooms.drop_first();
        lemma_slot(rest, crdt, room);
        assert forall|j: int| 0 <= j < slot(rooms, crdt, room) implies !(#[trigger] rooms[j]).key.names(
            crdt,
            room,
        ) by {
            if j > 0 {
                assert(rest[j - 1] == rooms[j]);
            }
        }
        if slot(rest, crdt, room) < rest.len() {
            assert(rest[slot(rest, crdt, room)] == rooms[slot(rest, crdt, room) + 1]);
        }
    }
}

/// No two rooms have the same key.
pub open spec fn distinct_keys(rooms: Seq<Room>) -> bool {
    forall|i: int, j: int|
        0 <= i < rooms.len() && 0 <= j < rooms.len() && i != j ==> !(#[trigger] rooms[i]).key.names(
            (#[trigger] rooms[j]).key.crdt,
            rooms[j].key.room@,
        )
}

impl Hub {
    /// What holds of every hub: each room is well formed, and no two rooms
    /// have the same key.
    pub open spec fn wf(&self) -> bool {
        &&& forall|i: int| 0 <= i < self.rooms@.len() ==> (#[trigger] self.rooms@[i]).wf()
        &&& distinct_keys(self.rooms@)
    }

    /// The room under the key `(crdt, room)`, if the hub has it.
    pub open spec fn lookup(&self, crdt: CrdtKind, room: Seq<char>) -> Option<Room> {
        let i = slot(self.rooms@, crdt, room);
        if i < self.rooms@.len() {
            Some(self.rooms@[i])
        } else {
            None
        }
    }

    /// Every room but the one under `(crdt, room)` is in `other` as it is
    /// here, and the other way round.
    pub open spec fn same_but(&self, other: &Hub, crdt: CrdtKind, room: Seq<char>) -> bool {
        &&& self.org == other.org
        &&& forall|c: CrdtKind, r: Seq<char>|
            !(c == crdt && r == room) ==> #[trigger] self.lookup(c, r) == other.lookup(c, r)
    }

    /// A hub without rooms.
    pub fn new(org: &str) -> (r: Hub)
        ensures
            r.wf(),
            r.org@ == org@,
            r.rooms@.len() == 0,
    {
        Hub { org: String::from_str(org), rooms: Vec::new() }
    }

    /// The position of the room under the key, if the hub has it.
    pub fn find(&self, crdt: CrdtKind, room: &str) -> (r: Option<usize>)
        ensures
            match r {
                Some(i) => i == slot(self.rooms@, crdt, room@) && i < self.rooms@.len()
                    && self.lookup(crdt, room@) == Some(self.rooms@[i as int])
                    && self.rooms@[i as int].key.names(crdt, room@),
                None => slot(self.rooms@, crdt, room@) == self.rooms@.len() && self.lookup(
                    crdt,
                    room@,
                ) is None,
            },
    {
        proof {
            lemma_slot(self.rooms@, crdt, room@);
        }
        let mut i: usize = 0;
        while i < self.rooms.len()
            invariant
                i <= self.rooms@.len(),
                i <= slot(self.rooms@, crdt, room@) <= self.rooms@.len(),
                slot(self.rooms@, crdt, room@) < self.rooms@.len() ==> self.rooms@[slot(
                    self.rooms@,
                    crdt,
                    room@,
                )].key.names(crdt, room@),
                forall|j: int|
                    0 <= j < slot(self.rooms@, crdt, room@) ==> !(#[trigger] self.rooms@[j]).key.names(
                        crdt,
                        room@,
                    ),
            decreases self.rooms.len() - i,
        {
            if self.rooms[i].key.is(crdt, room) {
                return Some(i);
            }
            i += 1;
        }
        None
    }
}

/// Where the rooms of a list have no key twice, the room under a key is the
/// one at whichever position has the key.
pub proof fn lemma_slot_is(rooms: Seq<Room>, crdt: CrdtKind, room: Seq<char>, j: int)
    requires
        distinct_keys(rooms),
        0 <= j < rooms.len(),
        rooms[j].key.names(crdt, room),
    ensures
        slot(rooms, crdt, room) == j,
{
    lemma_slot(rooms, crdt, room);
    let s = slot(rooms, crdt, room);
    if s != j {
        assert(rooms[s].key.names(rooms[j].key.crdt, rooms[j].key.room@));
    }
}

/// Where no room of a list has the key, no room is under the key.
pub proof fn lemma_slot_none(rooms: Seq<Room>, crdt: CrdtKind, room: Seq<char>)
    requires
        forall|j: int| 0 <= j < rooms.len() ==> !(#[trigger] rooms[j]).key.names(crdt, room),
    ensures
        slot(rooms, crdt, room) == rooms.len(),
{
    lemma_slot(rooms, crdt, room);
}

impl Hub {
    /// Makes sure that the room under the key exists. A room that was not
    /// there is made without context or subscribers, and the caller has to
    /// load its document.
    pub fn open(&mut self, crdt: CrdtKind, room: &str) -> (r: Opened)
        requires
            old(self).wf(),
        ensures
            final(self).wf(),
            final(self).lookup(crdt, room@) is Some,
            final(self).same_but(old(self), crdt, room@),
            match r {
                Opened::Present => old(self).lookup(crdt, room@) is Some && *final(self) == *old(self),
                Opened::MustLoad => {
                    &&& old(self).lookup(crdt, room@) is None
                    &&& final(self).lookup(crdt, room@)->0.ctx is None
                    &&& final(self).lookup(crdt, room@)->0.subs@.len() == 0
                    &&& !final(self).lookup(crdt, room@)->0.dirty
                },
            },
    {
        match self.find(crdt, room) {
            Some(_) => Opened::Present,
            None => {
                let fresh = Room::new(crdt, room);
                proof {
                    lemma_slot(self.rooms@, crdt, room@);
                }
                self.rooms.push(fresh);
                proof {
                    let before = old(self).rooms@;
                    let after = self.rooms@;
                    let n = before.len() as int;
                    assert(after[n] == fresh);
                    assert forall|i: int, j: int|
                        0 <= i < after.len() && 0 <= j < after.len() && i != j implies !(
                    #[trigger] after[i]).key.names(
                        (#[trigger] after[j]).key.crdt,
                        after[j].key.room@,
                    ) by {
                        if i < n && j < n {
                            assert(before[i] == after[i] && before[j] == after[j]);
                        } else if i < n {
                            assert(before[i] == after[i]);
                        } else {
                            assert(before[j] == after[j]);
                        }
                    }
                    lemma_slot_is(after, crdt, room@, n);
                    assert forall|c: CrdtKind, r: Seq<char>|
                        !(c == crdt && r == room@) implies #[trigger] self.lookup(c, r)
                        == old(self).lookup(c, r) by {
                        lemma_slot(before, c, r);
                        let s = slot(before, c, r);
                        if s < n {
                            assert(after[s] == before[s]);
                            lemma_slot_is(after, c, r, s);
                        } else {
                            assert forall|j: int| 0 <= j < after.len() implies !(
                            #[trigger] after[j]).key.names(c, r) by {
                                if j < n {
                                    assert(after[j] == before[j]);
                                }
                            }
                            lemma_slot_none(after, c, r);
                        }
                    }
                }
                Opened::MustLoad
            },
        }
    }

    /// Subscribes a connection to the room under the key. There must be
    /// such a room, and it must have its context.
    pub fn subscribe(&mut self, crdt: CrdtKind, room: &str, conn: u64) -> (r: Result<
        (),
        ErrorKind,
    >)
        requires
            old(self).wf(),
        ensures
            final(self).wf(),
            final(self).same_but(old(self), crdt, room@),
            match r {
                Ok(()) => {
                    &&& old(self).lookup(crdt, room@) is Some
                    &&& old(self).lookup(crdt, room@)->0.ctx is Some
                    &&& final(self).lookup(crdt, room@) is Some
                    &&& final(self).lookup(crdt, room@)->0.ctx == old(self).lookup(
                        crdt,
                        room@,
                    )->0.ctx
                    &&& final(self).lookup(crdt, room@)->0.subs@.to_set() == old(self).lookup(
                        crdt,
                        room@,
                    )->0.subs@.to_set().insert(conn)
                },
                Err(e) => {
                    &&& e == ErrorKind::NotFound
                    &&& *final(self) == *old(self)
                    &&& (old(self).lookup(crdt, room@) is None || old(self).lookup(
                        crdt,
                        room@,
                    )->0.ctx is None)
                },
            },
    {
        let i = match self.find(crdt, room) {
            Some(i) => i,
            None => {
                return Err(ErrorKind::NotFound);
            },
        };
        if self.rooms[i].ctx.is_none() {
            return Err(ErrorKind::NotFound);
        }
        let it = &mut self.rooms[i];
        let res = it.subscribe(conn);
        proof {
            lemma_replaced(old(self).rooms@, self.rooms@, i as int);
            lemma_slot_is(self.rooms@, crdt, room@, i as int);
        }
        res
    }

    /// Gives the room under the key its document and context after a load.
    /// `false` where the hub has no such room; nothing changes then.
    pub fn install(&mut self, crdt: CrdtKind, room: &str, doc: loro::LoroDoc, ctx: DocContext) -> (r:
        bool)
        requires
            old(self).wf(),
        ensures
            final(self).wf(),
            final(self).same_but(old(self), crdt, room@),
            r == old(self).lookup(crdt, room@) is Some,
            r ==> {
                &&& final(self).lookup(crdt, room@) is Some
                &&& final(self).lookup(crdt, room@)->0.ctx == Some(ctx)
                &&& final(self).lookup(crdt, room@)->0.doc == Some(doc)
                &&& final(self).lookup(crdt, room@)->0.subs == old(self).lookup(
                    crdt,
                    room@,
                )->0.subs
            },
            !r ==> *final(self) == *old(self),
    {
        let i = match self.find(crdt, room) {
            Some(i) => i,
            None => {
                return false;
            },
        };
        let it = &mut self.rooms[i];
        it.install(doc, ctx);
        proof {
            lemma_replaced(old(self).rooms@, self.rooms@, i as int);
            lemma_slot_is(self.rooms@, crdt, room@, i as int);
        }
        true
    }

    /// Lets a connection join the room under the key: the connection is
    /// subscribed and handed the whole document as bytes. There must be
    /// such a room, and it must have its context. Where the document cannot
    /// be written out, the connection is not subscribed.
    pub fn join(&mut self, crdt: CrdtKind, room: &str, conn: u64) -> (r: Result<
        Vec<u8>,
        ErrorKind,
    >)
        requires
            old(self).wf(),
        ensures
            final(self).wf(),
            final(self).same_but(old(self), crdt, room@),
            match r {
                Ok(_) => {
                    &&& old(self).lookup(crdt, room@) matches Some(before)
                    &&& before.ctx is Some
                    &&& final(self).lookup(crdt, room@) matches Some(after)
                    &&& after.ctx == before.ctx
                    &&& after.subs@.to_set() == before.subs@.to_set().insert(conn)
                },
                Err(e) => {
                    &&& *final(self) == *old(self)
                    &&& e == ErrorKind::NotFound || e == ErrorKind::Internal
                    &&& e == ErrorKind::NotFound <==> (old(self).lookup(crdt, room@) is None
                        || old(self).lookup(crdt, room@)->0.ctx is None)
                },
            },
    {
        let i = match self.find(crdt, room) {
            Some(i) => i,
            None => {
                return Err(ErrorKind::NotFound);
            },
        };
        if self.rooms[i].ctx.is_none() {
            return Err(ErrorKind::NotFound);
        }
        let snapshot = match &self.rooms[i].doc {
            Some(doc) => match export_snapshot(doc) {
                Ok(bytes) => bytes,
                Err(_) => {
                    return Err(ErrorKind::Internal);
                },
            },
            None => {
                return Err(ErrorKind::Internal);
            },
        };
        match self.subscribe(crdt, room, conn) {
            Ok(()) => Ok(snapshot),
            Err(e) => Err(e),
        }
    }

    /// Ends the loading of the room under the key with what the store gave
    /// for its document. A snapshot that can be read is installed with its
    /// context. Where the store failed, has no such document, or gave a
    /// snapshot that cannot be read, the room is taken out of the hub again.
    pub fn load(&mut self, crdt: CrdtKind, room: &str, fetched: Fetched) -> (r: Result<
        (),
        ErrorKind,
    >)
        requires
            old(self).wf(),
        ensures
            final(self).wf(),
            final(self).same_but(old(self), crdt, room@),
            match r {
                Ok(()) => {
                    &&& fetched matches Ok(Some(found))
                    &&& old(self).lookup(crdt, room@) is Some
                    &&& final(self).lookup(crdt, room@) is Some
                    &&& final(self).lookup(crdt, room@)->0.ctx == Some(found.1)
                    &&& final(self).lookup(crdt, room@)->0.subs == old(self).lookup(
                        crdt,
                        room@,
                    )->0.subs
                },
                Err(e) => match fetched {
                    Ok(Some(_)) => {
                        ||| e == ErrorKind::Internal && final(self).lookup(crdt, room@) is None
                        ||| e == ErrorKind::NotFound && old(self).lookup(crdt, room@) is None
                            && *final(self) == *old(self)
                    },
                    Ok(None) => e == ErrorKind::NotFound && final(self).lookup(crdt, room@) is None,
                    Err(_) => e == ErrorKind::StoreUnavailable && final(self).lookup(
                        crdt,
                        room@,
                    ) is None,
                },
            },
    {
        let (snapshot, ctx) = match fetched {
            Ok(Some(found)) => found,
            Ok(None) => {
                self.discard(crdt, room);
                return Err(ErrorKind::NotFound);
            },
            Err(_) => {
                self.discard(crdt, room);
                return Err(ErrorKind::StoreUnavailable);
            },
        };
        let mut doc = new_doc();
        if import_bytes(&mut doc, snapshot.as_slice()).is_err() {
            self.discard(crdt, room);
            return Err(ErrorKind::Internal);
        }
        if self.install(crdt, room, doc, ctx) {
            Ok(())
        } else {
            Err(ErrorKind::NotFound)
        }
    }

    /// Takes a connection out of the room under the key. The result says
    /// whether the hub has the room and the room is left without
    /// subscribers: the caller then closes it after the grace period.
    pub fn unsubscribe(&mut self, crdt: CrdtKind, room: &str, conn: u64) -> (r: bool)
        requires
            old(self).wf(),
        ensures
            final(self).wf(),
            final(self).same_but(old(self), crdt, room@),
            match old(self).lookup(crdt, room@) {
                Some(before) => {
                    &&& final(self).lookup(crdt, room@) is Some
                    &&& final(self).lookup(crdt, room@)->0.subs@ == without(before.subs@, conn)
                    &&& final(self).lookup(crdt, room@)->0.ctx == before.ctx
                    &&& final(self).lookup(crdt, room@)->0.dirty == before.dirty
                    &&& r == (without(before.subs@, conn).len() == 0)
                },
                None => !r && *final(self) == *old(self),
            },
    {
        let i = match self.find(crdt, room) {
            Some(i) => i,
            None => {
                return false;
            },
        };
        let it = &mut self.rooms[i];
        let empty = it.unsubscribe(conn);
        proof {
            lemma_replaced(old(self).rooms@, self.rooms@, i as int);
            lemma_slot_is(self.rooms@, crdt, room@, i as int);
        }
        empty
    }

    /// Takes or refuses a batch for the room under the key, as
    /// `Room::takes` says. Without such a room the batch is not found, goes
    /// on to nobody, and the hub stays as it is.
    pub fn update(
        &mut self,
        crdt: CrdtKind,
        room: &str,
        conn: u64,
        bytes: &[u8],
        user_prpls: Option<&Vec<String>>,
        by_prpl: Option<&str>,
    ) -> (r: UpdateOutcome)
        requires
            old(self).wf(),
        ensures
            final(self).wf(),
            final(self).same_but(old(self), crdt, room@),
            match old(self).lookup(crdt, room@) {
                None => {
                    &&& r.admission == (Admission::Denied { kind: ErrorKind::NotFound })
                    &&& r.fan_out@.len() == 0
                    &&& *final(self) == *old(self)
                },
                Some(before) => {
                    &&& final(self).lookup(crdt, room@) matches Some(after)
                    &&& after.takes(&before, conn, user_prpls, by_prpl, r)
                },
            },
    {
        let i = match self.find(crdt, room) {
            Some(i) => i,
            None => {
                return UpdateOutcome {
                    admission: Admission::Denied { kind: ErrorKind::NotFound },
                    fan_out: Vec::new(),
                };
            },
        };
        let it = &mut self.rooms[i];
        let out = it.take_update(conn, bytes, user_prpls, by_prpl);
        proof {
            lemma_replaced(old(self).rooms@, self.rooms@, i as int);
            lemma_slot_is(self.rooms@, crdt, room@, i as int);
        }
        out
    }

    /// The write that brings the store up to the state of the room under
    /// the key, as `Room::save_job` makes it. No job without such a room.
    pub fn save_job(&self, crdt: CrdtKind, room: &str) -> (r: Result<Option<SaveJob>, ErrorKind>)
        requires
            self.wf(),
        ensures
            match self.lookup(crdt, room@) {
                None => r == Ok::<Option<SaveJob>, ErrorKind>(None),
                Some(it) => it.job_fits(r),
            },
    {
        match self.find(crdt, room) {
            Some(i) => self.rooms[i].save_job(),
            None => Ok(None),
        }
    }

    /// Records that the job with the mark `mark` for the room under the key
    /// was written, as `Room::saved` does.
    pub fn saved(&mut self, crdt: CrdtKind, room: &str, mark: u64)
        requires
            old(self).wf(),
        ensures
            final(self).wf(),
            final(self).same_but(old(self), crdt, room@),
            match old(self).lookup(crdt, room@) {
                Some(before) => {
                    &&& final(self).lookup(crdt, room@) is Some
                    &&& final(self).lookup(crdt, room@)->0.subs == before.subs
                    &&& if before.changes == mark && before.ctx is Some {
                        !final(self).lookup(crdt, room@)->0.dirty && final(self).lookup(
                            crdt,
                            room@,
                        )->0.ctx is Some && final(self).lookup(
                            crdt,
                            room@,
                        )->0.ctx->0.last_updating_peer is None
                    } else {
                        final(self).lookup(crdt, room@)->0 == before
                    }
                },
                None => *final(self) == *old(self),
            },
    {
        let i = match self.find(crdt, room) {
            Some(i) => i,
            None => {
                return ;
            },
        };
        let it = &mut self.rooms[i];
        it.saved(mark);
        proof {
            lemma_replaced(old(self).rooms@, self.rooms@, i as int);
            lemma_slot_is(self.rooms@, crdt, room@, i as int);
        }
    }

    /// Whether this hub is what closing the room under the key makes of
    /// the hub `before`, with the result `r`: where the close is forced or
    /// the room has no subscribers, the room leaves the hub; its
    /// subscribers, if any, are handed back to be told, and so is what the
    /// save of the room came to: the last write where the room was dirty. A
    /// room with subscribers stays unless the close is forced. Closing a
    /// room that is not there does nothing.
    pub open spec fn closes(
        &self,
        before: &Hub,
        crdt: CrdtKind,
        room: Seq<char>,
        force: bool,
        r: Closed,
    ) -> bool {
        &&& self.same_but(before, crdt, room)
        &&& match before.lookup(crdt, room) {
            None => r is NotOpen && *self == *before,
            Some(it) => if force || it.subs@.len() == 0 {
                &&& self.lookup(crdt, room) is None
                &&& r matches Closed::Gone { notify, save }
                &&& notify@ == it.subs@
                &&& it.job_fits(save)
            } else {
                r is InUse && *self == *before
            },
        }
    }

    /// Closes the room under the key, as `closes` says.
    pub fn close(&mut self, crdt: CrdtKind, room: &str, force: bool) -> (r: Closed)
        requires
            old(self).wf(),
        ensures
            final(self).wf(),
            final(self).closes(old(self), crdt, room@, force, r),
    {
        let i = match self.find(crdt, room) {
            Some(i) => i,
            None => {
                return Closed::NotOpen;
            },
        };
        if !force && self.rooms[i].subs.len() > 0 {
            return Closed::InUse;
        }
        let save = self.rooms[i].save_job();
        let it = self.rooms.remove(i);
        proof {
            lemma_removed(old(self).rooms@, self.rooms@, i as int);
            assert forall|c: CrdtKind, r: Seq<char>| !(c == crdt && r == room@) implies #[trigger] self.lookup(
                c,
                r,
            ) == old(self).lookup(c, r) by {
                assert(!old(self).rooms@[i as int].key.names(c, r));
                lemma_slot(old(self).rooms@, c, r);
                lemma_slot(self.rooms@, c, r);
                let t = slot(old(self).rooms@, c, r);
                let s = slot(self.rooms@, c, r);
                assert(t == old(self).rooms@.len() ==> s == self.rooms@.len());
                assert(t < old(self).rooms@.len() ==> s < self.rooms@.len() && self.rooms@[s]
                    == old(self).rooms@[t]);
            }
        }
        Closed::Gone { notify: it.subs, save }
    }

    /// Discards the room under the key after a failed load. The
    /// connections that waited in it, if any, are handed back.
    pub fn discard(&mut self, crdt: CrdtKind, room: &str) -> (r: Vec<u64>)
        requires
            old(self).wf(),
        ensures
            final(self).wf(),
            final(self).same_but(old(self), crdt, room@),
            final(self).lookup(crdt, room@) is None,
            match old(self).lookup(crdt, room@) {
                Some(before) => r@ == before.subs@,
                None => r@.len() == 0 && *final(self) == *old(self),
            },
    {
        let i = match self.find(crdt, room) {
            Some(i) => i,
            None => {
                return Vec::new();
            },
        };
        let it = self.rooms.remove(i);
        proof {
            lemma_removed(old(self).rooms@, self.rooms@, i as int);
            assert forall|c: CrdtKind, r: Seq<char>| !(c == crdt && r == room@) implies #[trigger] self.lookup(
                c,
                r,
            ) == old(self).lookup(c, r) by {
                assert(!old(self).rooms@[i as int].key.names(c, r));
                lemma_slot(old(self).rooms@, c, r);
                lemma_slot(self.rooms@, c, r);
                let t = slot(old(self).rooms@, c, r);
                let s = slot(self.rooms@, c, r);
                assert(t == old(self).rooms@.len() ==> s == self.rooms@.len());
                assert(t < old(self).rooms@.len() ==> s < self.rooms@.len() && self.rooms@[s]
                    == old(self).rooms@[t]);
            }
        }
        it.subs
    }
}

/// A list of rooms from which the room at one position was taken: the keys
/// are as distinct as they were, no room is under the key of the room that
/// was taken, and every other key leads to the room it led to.
pub proof fn lemma_removed(before: Seq<Room>, after: Seq<Room>, i: int)
    requires
        distinct_keys(before),
        0 <= i < before.len(),
        after == before.remove(i),
    ensures
        distinct_keys(after),
        slot(after, before[i].key.crdt, before[i].key.room@) == after.len(),
        forall|c: CrdtKind, r: Seq<char>|
            !before[i].key.names(c, r) ==> {
                let s = #[trigger] slot(after, c, r);
                let t = slot(before, c, r);
                (t == before.len() ==> s == after.len()) && (t < before.len() ==> s < after.len()
                    && after[s] == before[t])
            },
{
    assert forall|a: int, b: int|
        0 <= a < after.len() && 0 <= b < after.len() && a != b implies !(#[trigger] after[a]).key.names(
        (#[trigger] after[b]).key.crdt,
        after[b].key.room@,
    ) by {
        let a0 = if a < i {
            a
        } else {
            a + 1
        };
        let b0 = if b < i {
            b
        } else {
            b + 1
        };
        assert(after[a] == before[a0]);
        assert(after[b] == before[b0]);
    }
    assert forall|j: int| 0 <= j < after.len() implies !(#[trigger] after[j]).key.names(
        before[i].key.crdt,
        before[i].key.room@,
    ) by {
        let j0 = if j < i {
            j
        } else {
            j + 1
        };
        assert(after[j] == before[j0]);
    }
    lemma_slot_none(after, before[i].key.crdt, before[i].key.room@);
    assert forall|c: CrdtKind, r: Seq<char>| !before[i].key.names(c, r) implies {
        let s = #[trigger] slot(after, c, r);
        let t = slot(before, c, r);
        (t == before.len() ==> s == after.len()) && (t < before.len() ==> s < after.len()
            && after[s] == before[t])
    } by {
        lemma_slot(before, c, r);
        let t = slot(before, c, r);
        if t < before.len() {
            let s0 = if t < i {
                t
            } else {
                t - 1
            };
            assert(after[s0] == before[t]);
            lemma_slot_is(after, c, r, s0);
        } else {
            assert forall|j: int| 0 <= j < after.len() implies !(#[trigger] after[j]).key.names(
                c,
                r,
            ) by {
                let j0 = if j < i {
                    j
                } else {
                    j + 1
                };
                assert(after[j] == before[j0]);
            }
            lemma_slot_none(after, c, r);
        }
    }
}

/// A list of rooms in which the room at one position was changed and kept
/// its key: the keys are as distinct as they were, and every other key leads
/// to the room it led to.
pub proof fn lemma_replaced(before: Seq<Room>, after: Seq<Room>, i: int)
    requires
        distinct_keys(before),
        0 <= i < before.len(),
        after.len() == before.len(),
        after[i].key == before[i].key,
        forall|j: int| 0 <= j < before.len() && j != i ==> after[j] == before[j],
    ensures
        distinct_keys(after),
        forall|c: CrdtKind, r: Seq<char>|
            !before[i].key.names(c, r) ==> {
                let s = #[trigger] slot(after, c, r);
                s == slot(before, c, r) && (s < after.len() ==> after[s] == before[s])
            },
{
    assert forall|a: int, b: int|
        0 <= a < after.len() && 0 <= b < after.len() && a != b implies !(#[trigger] after[a]).key.names(
        (#[trigger] after[b]).key.crdt,
        after[b].key.room@,
    ) by {
        assert(after[a].key == before[a].key);
        assert(after[b].key == before[b].key);
    }
    assert forall|c: CrdtKind, r: Seq<char>| !before[i].key.names(c, r) implies {
        let s = #[trigger] slot(after, c, r);
        s == slot(before, c, r) && (s < after.len() ==> after[s] == before[s])
    } by {
        lemma_slot(before, c, r);
        let s = slot(before, c, r);
        if s < before.len() {
            assert(after[s].key == before[s].key);
            lemma_slot_is(after, c, r, s);
        } else {
            assert forall|j: int| 0 <= j < after.len() implies !(#[trigger] after[j]).key.names(
                c,
                r,
            ) by {
                assert(after[j].key == before[j].key);
            }
            lemma_slot_none(after, c, r);
        }
    }
}

/// Whether a system edit and the close that follows it made of the room
/// `before` what is there: `edited` is the room between the two, as
/// `Room::acls_cleared` says with the peer `peer`. Where the close is
/// forced or nobody is subscribed, the room has left the hub, its
/// subscribers are handed back to be told, and the save is that of
/// `edited`; else the room is in use and stays in the hub as `edited`.
pub open spec fn edit_closed(
    before: Room,
    edited: Room,
    after: Option<Room>,
    service_prpl: Seq<char>,
    force_close: bool,
    peer: u64,
    closed: Closed,
) -> bool {
    &&& edited.acls_cleared(&before, service_prpl, Ok::<u64, ErrorKind>(peer))
    &&& if force_close || before.subs@.len() == 0 {
        &&& after is None
        &&& closed matches Closed::Gone { notify, save }
        &&& notify@ == before.subs@
        &&& edited.job_fits(save)
    } else {
        &&& closed is InUse
        &&& after == Some(edited)
    }
}

/// Closing a room by force twice closes it once. The first close takes the
/// room out of the hub and hands back every subscriber to be told; the
/// second finds no room, tells nobody, and leaves the hub as it is.
pub proof fn law_forced_close_happens_once(
    a: Hub,
    b: Hub,
    c: Hub,
    crdt: CrdtKind,
    room: Seq<char>,
    first: Closed,
    second: Closed,
)
    requires
        b.closes(&a, crdt, room, true, first),
        c.closes(&b, crdt, room, true, second),
    ensures
        b.lookup(crdt, room) is None,
        a.lookup(crdt, room) matches Some(it) ==> first matches Closed::Gone { notify, save }
            && notify@ == it.subs@,
        second is NotOpen,
        c == b,
{
}

/// While a room has subscribers it has its context.
pub proof fn law_subscribers_have_context(hub: Hub, crdt: CrdtKind, room: Seq<char>)
    requires
        hub.wf(),
        hub.lookup(crdt, room) is Some,
        hub.lookup(crdt, room)->0.subs@.len() > 0,
    ensures
        hub.lookup(crdt, room)->0.ctx is Some,
{
    lemma_slot(hub.rooms@, crdt, room);
}

/// How many of the first `n` rooms meet `pick`.
pub open spec fn count_rooms(rooms: Seq<Room>, n: int, pick: spec_fn(Room) -> bool) -> nat
    decreases n,
{
    if n <= 0 {
        0
    } else {
        count_rooms(rooms, n - 1, pick) + if pick(rooms[n - 1]) {
            1nat
        } else {
            0nat
        }
    }
}

/// How many subscriptions the first `n` rooms have together.
pub open spec fn count_subs(rooms: Seq<Room>, n: int) -> nat
    decreases n,
{
    if n <= 0 {
        0
    } else {
        count_subs(rooms, n - 1) + rooms[n - 1].subs@.len()
    }
}

/// A count as it is reported: itself, or the greatest `u32` where it is
/// greater.
pub open spec fn capped(n: nat) -> u32 {
    if n > u32::MAX {
        u32::MAX
    } else {
        n as u32
    }
}

/// What is counted of a list of rooms: the subscriptions, the rooms, those
/// that hold a document, those that hold an ephemeral store, and the dirty
/// ones.
pub open spec fn counts_of(rooms: Seq<Room>) -> HubCounts {
    HubCounts {
        n_conn: capped(count_subs(rooms, rooms.len() as int)),
        n_rooms: capped(rooms.len()),
        n_doc_rooms: capped(
            count_rooms(rooms, rooms.len() as int, |r: Room| r.key.crdt == CrdtKind::Loro),
        ),
        n_ephemeral_rooms: capped(
            count_rooms(
                rooms,
                rooms.len() as int,
                |r: Room| r.key.crdt == CrdtKind::LoroEphemeralStore,
            ),
        ),
        n_dirty_docs: capped(count_rooms(rooms, rooms.len() as int, |r: Room| r.dirty)),
    }
}

/// Adds one to a capped count.
fn bump(n: u32, Ghost(exact): Ghost<nat>) -> (r: u32)
    requires
        n == capped(exact),
    ensures
        r == capped(exact + 1),
{
    if n < u32::MAX {
        n + 1
    } else {
        n
    }
}

/// Adds `more` to a capped count.
fn bump_by(n: u32, more: usize, Ghost(exact): Ghost<nat>) -> (r: u32)
    requires
        n == capped(exact),
    ensures
        r == capped(exact + more as nat),
{
    let room: u64 = (u32::MAX - n) as u64;
    if (more as u64) < room {
        n + (more as u32)
    } else {
        u32::MAX
    }
}

impl Hub {
    /// What the diagnostics report of this hub.
    pub fn counts(&self) -> (r: HubCounts)
        ensures
            r == counts_of(self.rooms@),
    {
        let mut n_conn: u32 = 0;
        let mut n_rooms: u32 = 0;
        let mut n_doc_rooms: u32 = 0;
        let mut n_ephemeral_rooms: u32 = 0;
        let mut n_dirty_docs: u32 = 0;
        let ghost is_doc = |r: Room| r.key.crdt == CrdtKind::Loro;
        let ghost is_ephemeral = |r: Room| r.key.crdt == CrdtKind::LoroEphemeralStore;
        let ghost is_dirty = |r: Room| r.dirty;
        let mut i: usize = 0;
        while i < self.rooms.len()
            invariant
                i <= self.rooms@.len(),
                is_doc == (|r: Room| r.key.crdt == CrdtKind::Loro),
                is_ephemeral == (|r: Room| r.key.crdt == CrdtKind::LoroEphemeralStore),
                is_dirty == (|r: Room| r.dirty),
                n_conn == capped(count_subs(self.rooms@, i as int)),
                n_rooms == capped(i as nat),
                n_doc_rooms == capped(count_rooms(self.rooms@, i as int, is_doc)),
                n_ephemeral_rooms == capped(count_rooms(self.rooms@, i as int, is_ephemeral)),
                n_dirty_docs == capped(count_rooms(self.rooms@, i as int, is_dirty)),
            decreases self.rooms.len() - i,
        {
            let it = &self.rooms[i];
            n_rooms = bump(n_rooms, Ghost(i as nat));
            if it.key.crdt == CrdtKind::Loro {
                n_doc_rooms = bump(n_doc_rooms, Ghost(count_rooms(self.rooms@, i as int, is_doc)));
            }
            if it.key.crdt == CrdtKind::LoroEphemeralStore {
                n_ephemeral_rooms = bump(
                    n_ephemeral_rooms,
                    Ghost(count_rooms(self.rooms@, i as int, is_ephemeral)),
                );
            }
            if it.dirty {
                n_dirty_docs = bump(
                    n_dirty_docs,
                    Ghost(count_rooms(self.rooms@, i as int, is_dirty)),
                );
            }
            n_conn = bump_by(n_conn, it.subs.len(), Ghost(count_subs(self.rooms@, i as int)));
            i += 1;
        }
        HubCounts { n_conn, n_rooms, n_doc_rooms, n_ephemeral_rooms, n_dirty_docs }
    }
}

impl Hub {
    /// Takes a connection out of every room. The result holds the
    /// positions of the rooms that the connection was subscribed to and
    /// that are left without subscribers, in rising order: the caller closes
    /// them after the grace period.
    pub fn drop_connection(&mut self, conn: u64) -> (r: Vec<usize>)
        requires
            old(self).wf(),
        ensures
            final(self).wf(),
            final(self).org == old(self).org,
            final(self).rooms@.len() == old(self).rooms@.len(),
            forall|i: int|
                0 <= i < final(self).rooms@.len() ==> {
                    let before = old(self).rooms@[i];
                    let after = #[trigger] final(self).rooms@[i];
                    &&& after.key == before.key
                    &&& after.ctx == before.ctx
                    &&& after.doc == before.doc
                    &&& after.dirty == before.dirty
                    &&& after.subs@ == without(before.subs@, conn)
                },
            forall|k: int|
                0 <= k < r@.len() ==> {
                    &&& (#[trigger] r@[k]) < old(self).rooms@.len()
                    &&& old(self).rooms@[r@[k] as int].subs@.contains(conn)
                    &&& final(self).rooms@[r@[k] as int].subs@.len() == 0
                },
            forall|i: int|
                0 <= i < old(self).rooms@.len() && (#[trigger] old(self).rooms@[i]).subs@.contains(conn)
                    && final(self).rooms@[i].subs@.len() == 0 ==> r@.contains(i as usize),
            forall|a: int, b: int| 0 <= a < b < r@.len() ==> r@[a] < r@[b],
    {
        let mut left: Vec<usize> = Vec::new();
        let mut i: usize = 0;
        while i < self.rooms.len()
            invariant
                i <= self.rooms@.len(),
                self.org == old(self).org,
                self.rooms@.len() == old(self).rooms@.len(),
                forall|j: int| 0 <= j < self.rooms@.len() ==> (#[trigger] self.rooms@[j]).wf(),
                forall|j: int|
                    0 <= j < self.rooms@.len() ==> (#[trigger] self.rooms@[j]).key == old(self).rooms@[j].key,
                forall|j: int| i <= j < self.rooms@.len() ==> #[trigger] self.rooms@[j] == old(self).rooms@[j],
                forall|j: int|
                    0 <= j < i ==> {
                        let before = old(self).rooms@[j];
                        let after = #[trigger] self.rooms@[j];
                        &&& after.ctx == before.ctx
                        &&& after.doc == before.doc
                        &&& after.dirty == before.dirty
                        &&& after.subs@ == without(before.subs@, conn)
                    },
                forall|k: int|
                    0 <= k < left@.len() ==> {
                        &&& (#[trigger] left@[k]) < i
                        &&& old(self).rooms@[left@[k] as int].subs@.contains(conn)
                        &&& self.rooms@[left@[k] as int].subs@.len() == 0
                    },
                forall|j: int|
                    0 <= j < i && (#[trigger] old(self).rooms@[j]).subs@.contains(conn)
                        && self.rooms@[j].subs@.len() == 0 ==> left@.contains(j as usize),
                forall|a: int, b: int| 0 <= a < b < left@.len() ==> left@[a] < left@[b],
            decreases self.rooms.len() - i,
        {
            let had = crate::room::subs::has_conn(&self.rooms[i].subs, conn);
            let it = &mut self.rooms[i];
            let empty = it.unsubscribe(conn);
            let ghost before_left = left@;
            if had && empty {
                left.push(i);
                assert(left@[left@.len() - 1] == i);
            }
            proof {
                assert forall|j: int|
                    0 <= j < i + 1 && (#[trigger] old(self).rooms@[j]).subs@.contains(conn)
                        && self.rooms@[j].subs@.len() == 0 implies left@.contains(j as usize) by {
                    if j < i {
                        assert(before_left.contains(j as usize));
                        let k = choose|k: int| 0 <= k < before_left.len() && before_left[k] == j as usize;
                        assert(left@[k] == j as usize);
                    } else {
                        assert(left@[left@.len() - 1] == j as usize);
                    }
                }
            }
            i += 1;
        }
        proof {
            assert forall|a: int, b: int|
                0 <= a < self.rooms@.len() && 0 <= b < self.rooms@.len() && a != b implies !(
            #[trigger] self.rooms@[a]).key.names(
                (#[trigger] self.rooms@[b]).key.crdt,
                self.rooms@[b].key.room@,
            ) by {
                assert(self.rooms@[a].key == old(self).rooms@[a].key);
                assert(self.rooms@[b].key == old(self).rooms@[b].key);
            }
        }
        left
    }

    /// The positions of the dirty rooms, in rising order: those that the
    /// save tick has to look at.
    pub fn dirty_rooms(&self) -> (r: Vec<usize>)
        ensures
            forall|k: int|
                0 <= k < r@.len() ==> (#[trigger] r@[k]) < self.rooms@.len()
                    && self.rooms@[r@[k] as int].dirty,
            forall|i: int|
                0 <= i < self.rooms@.len() && (#[trigger] self.rooms@[i]).dirty ==> r@.contains(
                    i as usize,
                ),
            forall|a: int, b: int| 0 <= a < b < r@.len() ==> r@[a] < r@[b],
    {
        let mut out: Vec<usize> = Vec::new();
        let mut i: usize = 0;
        while i < self.rooms.len()
            invariant
                i <= self.rooms@.len(),
                forall|k: int|
                    0 <= k < out@.len() ==> (#[trigger] out@[k]) < i && self.rooms@[out@[k] as int].dirty,
                forall|j: int|
                    0 <= j < i && (#[trigger] self.rooms@[j]).dirty ==> out@.contains(j as usize),
                forall|a: int, b: int| 0 <= a < b < out@.len() ==> out@[a] < out@[b],
            decreases self.rooms.len() - i,
        {
            let ghost before = out@;
            if self.rooms[i].dirty {
                out.push(i);
                assert(out@[out@.len() - 1] == i);
            }
            proof {
                assert forall|j: int| 0 <= j < i + 1 && (#[trigger] self.rooms@[j]).dirty implies out@.contains(
                    j as usize,
                ) by {
                    if j < i {
                        assert(before.contains(j as usize));
                        let k = choose|k: int| 0 <= k < before.len() && before[k] == j as usize;
                        assert(out@[k] == j as usize);
                    } else {
                        assert(out@[out@.len() - 1] == j as usize);
                    }
                }
            }
            i += 1;
        }
        out
    }

    /// What a save tick comes to: for each dirty room, in rising order of
    /// the rooms' positions, the room's position with the write that is due
    /// or the reason why the room's state cannot be written. A hub without
    /// a dirty room has none.
    pub fn save_jobs(&self) -> (r: Vec<(usize, Result<SaveJob, ErrorKind>)>)
        requires
            self.wf(),
        ensures
            forall|k: int|
                0 <= k < r@.len() ==> {
                    let at = (#[trigger] r@[k]).0;
                    &&& at < self.rooms@.len()
                    &&& self.rooms@[at as int].dirty
                    &&& match r@[k].1 {
                        Ok(job) => self.rooms@[at as int].job_fits(Ok(Some(job))),
                        Err(e) => self.rooms@[at as int].job_fits(Err(e)),
                    }
                },
            forall|i: int|
                0 <= i < self.rooms@.len() && (#[trigger] self.rooms@[i]).dirty ==> exists|k: int|
                    0 <= k < r@.len() && (#[trigger] r@[k]).0 == i,
            forall|a: int, b: int| 0 <= a < b < r@.len() ==> r@[a].0 < r@[b].0,
    {
        let mut out: Vec<(usize, Result<SaveJob, ErrorKind>)> = Vec::new();
        let mut i: usize = 0;
        while i < self.rooms.len()
            invariant
                i <= self.rooms@.len(),
                self.wf(),
                forall|k: int|
                    0 <= k < out@.len() ==> {
                        let at = (#[trigger] out@[k]).0;
                        &&& at < i
                        &&& self.rooms@[at as int].dirty
                        &&& match out@[k].1 {
                            Ok(job) => self.rooms@[at as int].job_fits(Ok(Some(job))),
                            Err(e) => self.rooms@[at as int].job_fits(Err(e)),
                        }
                    },
                forall|j: int|
                    0 <= j < i && (#[trigger] self.rooms@[j]).dirty ==> exists|k: int|
                        0 <= k < out@.len() && (#[trigger] out@[k]).0 == j,
                forall|a: int, b: int| 0 <= a < b < out@.len() ==> out@[a].0 < out@[b].0,
            decreases self.rooms.len() - i,
        {
            assert(self.rooms@[i as int].wf());
            let ghost before = out@;
            match self.rooms[i].save_job() {
                Ok(Some(job)) => {
                    out.push((i, Ok(job)));
                },
                Ok(None) => {},
                Err(e) => {
                    out.push((i, Err(e)));
                },
            }
            proof {
                assert forall|j: int|
                    0 <= j < i + 1 && (#[trigger] self.rooms@[j]).dirty implies exists|k: int|
                    0 <= k < out@.len() && (#[trigger] out@[k]).0 == j by {
                    if j < i {
                        let k = choose|k: int| 0 <= k < before.len() && (#[trigger] before[k]).0 == j;
                        assert(out@[k].0 == j);
                    } else {
                        assert(out@[out@.len() - 1].0 == j);
                    }
                }
            }
            i += 1;
        }
        out
    }
}

/// The hubs of all organisations, each under its organisation's name.
pub struct HubRegistry {
    pub hubs: Vec<Hub>,
}

/// The sum of two reports, each number capped.
pub open spec fn add_counts(a: HubCounts, b: HubCounts) -> HubCounts {
    HubCounts {
        n_conn: capped((a.n_conn + b.n_conn) as nat),
        n_rooms: capped((a.n_rooms + b.n_rooms) as nat),
        n_doc_rooms: capped((a.n_doc_rooms + b.n_doc_rooms) as nat),
        n_ephemeral_rooms: capped((a.n_ephemeral_rooms + b.n_ephemeral_rooms) as nat),
        n_dirty_docs: capped((a.n_dirty_docs + b.n_dirty_docs) as nat),
    }
}

/// The report of the first `n` hubs together.
pub open spec fn totals_of(hubs: Seq<Hub>, n: int) -> HubCounts
    decreases n,
{
    if n <= 0 {
        HubCounts { n_conn: 0, n_rooms: 0, n_doc_rooms: 0, n_ephemeral_rooms: 0, n_dirty_docs: 0 }
    } else {
        add_counts(totals_of(hubs, n - 1), counts_of(hubs[n - 1].rooms@))
    }
}

/// The sum of two numbers, capped.
fn add_capped(a: u32, b: u32) -> (r: u32)
    ensures
        r == capped((a + b) as nat),
{
    if a <= u32::MAX - b {
        a + b
    } else {
        u32::MAX
    }
}

impl HubRegistry {
    /// What holds of the registry: every hub is well formed, and no two
    /// hubs are of the same organisation.
    pub open spec fn wf(&self) -> bool {
        &&& forall|i: int| 0 <= i < self.hubs@.len() ==> (#[trigger] self.hubs@[i]).wf()
        &&& forall|i: int, j: int|
            0 <= i < self.hubs@.len() && 0 <= j < self.hubs@.len() && i != j ==> (
            #[trigger] self.hubs@[i]).org@ != (#[trigger] self.hubs@[j]).org@
    }

    /// A registry without hubs.
    pub fn new() -> (r: HubRegistry)
        ensures
            r.wf(),
            r.hubs@.len() == 0,
    {
        HubRegistry { hubs: Vec::new() }
    }

    /// The position of the hub of organisation `org`, if there is one.
    pub fn hub_index(&self, org: &str) -> (r: Option<usize>)
        ensures
            match r {
                Some(i) => i < self.hubs@.len() && self.hubs@[i as int].org@ == org@,
                None => forall|j: int| 0 <= j < self.hubs@.len() ==> (#[trigger] self.hubs@[j]).org@ != org@,
            },
    {
        let mut i: usize = 0;
        while i < self.hubs.len()
            invariant
                i <= self.hubs@.len(),
                forall|j: int| 0 <= j < i ==> (#[trigger] self.hubs@[j]).org@ != org@,
            decreases self.hubs.len() - i,
        {
            if crate::text::str_eq(self.hubs[i].org.as_str(), org) {
                return Some(i);
            }
            i += 1;
        }
        None
    }

    /// The position of the hub of organisation `org`; a hub without rooms
    /// is made where there was none.
    pub fn ensure_hub(&mut self, org: &str) -> (r: usize)
        requires
            old(self).wf(),
        ensures
            final(self).wf(),
            r < final(self).hubs@.len(),
            final(self).hubs@[r as int].org@ == org@,
            forall|j: int| 0 <= j < old(self).hubs@.len() ==> final(self).hubs@[j] == old(self).hubs@[j],
            final(self).hubs@.len() == old(self).hubs@.len() || {
                &&& final(self).hubs@.len() == old(self).hubs@.len() + 1
                &&& r == old(self).hubs@.len()
                &&& final(self).hubs@[r as int].rooms@.len() == 0
            },
    {
        match self.hub_index(org) {
            Some(i) => i,
            None => {
                self.hubs.push(Hub::new(org));
                self.hubs.len() - 1
            },
        }
    }

    /// What the diagnostics report of all hubs together.
    pub fn totals(&self) -> (r: HubCounts)
        ensures
            r == totals_of(self.hubs@, self.hubs@.len() as int),
    {
        let mut sum = HubCounts {
            n_conn: 0,
            n_rooms: 0,
            n_doc_rooms: 0,
            n_ephemeral_rooms: 0,
            n_dirty_docs: 0,
        };
        let mut i: usize = 0;
        while i < self.hubs.len()
            invariant
                i <= self.hubs@.len(),
                sum == totals_of(self.hubs@, i as int),
            decreases self.hubs.len() - i,
        {
            let c = self.hubs[i].counts();
            sum = HubCounts {
                n_conn: add_capped(sum.n_conn, c.n_conn),
                n_rooms: add_capped(sum.n_rooms, c.n_rooms),
                n_doc_rooms: add_capped(sum.n_doc_rooms, c.n_doc_rooms),
                n_ephemeral_rooms: add_capped(sum.n_ephemeral_rooms, c.n_ephemeral_rooms),
                n_dirty_docs: add_capped(sum.n_dirty_docs, c.n_dirty_docs),
            };
            i += 1;
        }
        sum
    }
}

impl Hub {
    /// Clears the access lists of the document in the room under the key,
    /// as `Room::acls_cleared` says. Without such a room nothing happens
    /// and the room is not found.
    pub fn clear_acls(&mut self, crdt: CrdtKind, room: &str, service_prpl: &str) -> (r: Result<
        u64,
        ErrorKind,
    >)
        requires
            old(self).wf(),
        ensures
            final(self).wf(),
            final(self).same_but(old(self), crdt, room@),
            match old(self).lookup(crdt, room@) {
                None => r == Err::<u64, ErrorKind>(ErrorKind::NotFound) && *final(self) == *old(
                    self,
                ),
                Some(before) => {
                    &&& final(self).lookup(crdt, room@) matches Some(after)
                    &&& after.acls_cleared(&before, service_prpl@, r)
                },
            },
    {
        let i = match self.find(crdt, room) {
            Some(i) => i,
            None => {
                return Err(ErrorKind::NotFound);
            },
        };
        let it = &mut self.rooms[i];
        let done = it.clear_acls(service_prpl);
        proof {
            lemma_replaced(old(self).rooms@, self.rooms@, i as int);
            lemma_slot_is(self.rooms@, crdt, room@, i as int);
        }
        done
    }

    /// A system edit of the document in the room under the key: its access
    /// lists are cleared, the peer of the edit is bound to the service, and
    /// the room is then closed, by force or only where nobody is subscribed.
    /// The result names the peer and what became of the room. The room as
    /// it stood between the edit and the close is what `Room::acls_cleared`
    /// says; a room that is closed is saved from that state, so the package
    /// of its last write holds the bindings of that state. Where the edit
    /// fails the room is not closed.
    pub fn edit_doc(
        &mut self,
        crdt: CrdtKind,
        room: &str,
        service_prpl: &str,
        force_close: bool,
    ) -> (r: Result<(u64, Closed), ErrorKind>)
        requires
            old(self).wf(),
        ensures
            final(self).wf(),
            final(self).same_but(old(self), crdt, room@),
            match r {
                Ok((peer, closed)) => {
                    &&& old(self).lookup(crdt, room@) is Some
                    &&& exists|edited: Room| #[trigger]
                        edit_closed(
                            old(self).lookup(crdt, room@)->0,
                            edited,
                            final(self).lookup(crdt, room@),
                            service_prpl@,
                            force_close,
                            peer,
                            closed,
                        )
                },
                Err(e) => match old(self).lookup(crdt, room@) {
                    None => e == ErrorKind::NotFound && *final(self) == *old(self),
                    Some(before) => {
                        &&& final(self).lookup(crdt, room@) matches Some(after)
                        &&& after.acls_cleared(&before, service_prpl@, Err::<u64, ErrorKind>(e))
                    },
                },
            },
    {
        let ghost start = *self;
        let peer = match self.clear_acls(crdt, room, service_prpl) {
            Ok(peer) => peer,
            Err(e) => {
                return Err(e);
            },
        };
        let ghost edited = self.lookup(crdt, room@)->0;
        let closed = self.close(crdt, room, force_close);
        let r: Result<(u64, Closed), ErrorKind> = Ok((peer, closed));
        proof {
            let before = old(self).lookup(crdt, room@)->0;
            let after = self.lookup(crdt, room@);
            assert(edit_closed(before, edited, after, service_prpl@, force_close, r->Ok_0.0, r->Ok_0.1));
        }
        r
    }
}

impl Hub {
    /// Whether the hub is well formed.
    pub fn is_well_formed(&self) -> (r: bool)
        ensures
            r == self.wf(),
    {
        let mut i: usize = 0;
        while i < self.rooms.len()
            invariant
                i <= self.rooms.len(),
                forall|a: int| 0 <= a < i ==> (#[trigger] self.rooms@[a]).wf(),
                forall|a: int, b: int|
                    0 <= a < i && 0 <= b < self.rooms@.len() && a != b ==> !(
                    #[trigger] self.rooms@[a]).key.names(
                        (#[trigger] self.rooms@[b]).key.crdt,
                        self.rooms@[b].key.room@,
                    ),
            decreases self.rooms.len() - i,
        {
            if !self.rooms[i].is_well_formed() {
                return false;
            }
            let mut k: usize = 0;
            while k < self.rooms.len()
                invariant
                    i < self.rooms.len(),
                    k <= self.rooms.len(),
                    forall|b: int|
                        0 <= b < k && b != i ==> !self.rooms@[i as int].key.names(
                            (#[trigger] self.rooms@[b]).key.crdt,
                            self.rooms@[b].key.room@,
                        ),
                decreases self.rooms.len() - k,
            {
                if k != i && self.rooms[i].key.is(self.rooms[k].key.crdt, self.rooms[k].key.room.as_str()) {
                    return false;
                }
                k += 1;
            }
            i += 1;
        }
        true
    }

    /// The room under the key, if the hub has it.
    pub fn room(&self, crdt: CrdtKind, room: &str) -> (r: Option<&Room>)
        ensures
            match r {
                Some(it) => self.lookup(crdt, room@) == Some(*it),
                None => self.lookup(crdt, room@) is None,
            },
    {
        match self.find(crdt, room) {
            Some(i) => Some(&self.rooms[i]),
            None => None,
        }
    }
}

impl HubRegistry {
    /// Whether the registry is well formed.
    pub fn is_well_formed(&self) -> (r: bool)
        ensures
            r == self.wf(),
    {
        let mut i: usize = 0;
        while i < self.hubs.len()
            invariant
                i <= self.hubs.len(),
                forall|a: int| 0 <= a < i ==> (#[trigger] self.hubs@[a]).wf(),
                forall|a: int, b: int|
                    0 <= a < i && 0 <= b < self.hubs@.len() && a != b ==> (
                    #[trigger] self.hubs@[a]).org@ != (#[trigger] self.hubs@[b]).org@,
            decreases self.hubs.len() - i,
        {
            if !self.hubs[i].is_well_formed() {
                return false;
            }
            let mut k: usize = 0;
            while k < self.hubs.len()
                invariant
                    i < self.hubs.len(),
                    k <= self.hubs.len(),
                    forall|b: int|
                        0 <= b < k && b != i ==> self.hubs@[i as int].org@ != (
                        #[trigger] self.hubs@[b]).org@,
                decreases self.hubs.len() - k,
            {
                if k != i && crate::text::str_eq(
                    self.hubs[i].org.as_str(),
                    self.hubs[k].org.as_str(),
                ) {
                    return false;
                }
                k += 1;
            }
            i += 1;
        }
        true
    }
}

impl HubRegistry {
    /// The hub of organisation `org`, if the registry has one.
    pub open spec fn hub_of(&self, org: Seq<char>) -> Option<Hub> {
        if exists|i: int| 0 <= i < self.hubs@.len() && (#[trigger] self.hubs@[i]).org@ == org {
            Some(
                self.hubs@[choose|i: int|
                    0 <= i < self.hubs@.len() && (#[trigger] self.hubs@[i]).org@ == org],
            )
        } else {
            None
        }
    }

    /// The room `(crdt, room)` of organisation `org`, if it is open.
    pub open spec fn room_of(&self, org: Seq<char>, crdt: CrdtKind, room: Seq<char>) -> Option<Room> {
        match self.hub_of(org) {
            Some(hub) => hub.lookup(crdt, room),
            None => None,
        }
    }

    /// Makes sure that the room `(crdt, room)` of organisation `org`
    /// exists, as `Hub::open` does in the hub of that organisation; the hub
    /// is made where there was none.
    pub fn open(&mut self, org: &str, crdt: CrdtKind, room: &str) -> (r: Opened)
        requires
            old(self).wf(),
        ensures
            final(self).wf(),
            final(self).room_of(org@, crdt, room@) is Some,
            (r == Opened::Present) == old(self).room_of(org@, crdt, room@) is Some,
            r == Opened::MustLoad ==> final(self).room_of(org@, crdt, room@)->0.ctx is None
                && final(self).room_of(org@, crdt, room@)->0.subs@.len() == 0,
    {
        let i = self.ensure_hub(org);
        proof {
            lemma_hub_at(*self, i as int);
            if old(self).hub_of(org@) is Some {
                let j = choose|j: int|
                    0 <= j < old(self).hubs@.len() && (#[trigger] old(self).hubs@[j]).org@ == org@;
                assert(self.hubs@[j] == old(self).hubs@[j]);
                assert(j == i);
            } else {
                assert(i >= old(self).hubs@.len()) by {
                    if i < old(self).hubs@.len() {
                        assert(old(self).hubs@[i as int].org@ == org@);
                    }
                }
                assert(self.hubs@[i as int].rooms@.len() == 0);
                lemma_slot(self.hubs@[i as int].rooms@, crdt, room@);
            }
        }
        let ghost mid = *self;
        let hub = &mut self.hubs[i];
        let r = hub.open(crdt, room);
        proof {
            assert(self.hubs@[i as int].org == mid.hubs@[i as int].org);
            assert forall|a: int, b: int|
                0 <= a < self.hubs@.len() && 0 <= b < self.hubs@.len() && a != b implies (
            #[trigger] self.hubs@[a]).org@ != (#[trigger] self.hubs@[b]).org@ by {
                assert(self.hubs@[a].org == mid.hubs@[a].org);
                assert(self.hubs@[b].org == mid.hubs@[b].org);
            }
            lemma_hub_at(*self, i as int);
        }
        r
    }

    /// Closes the room `(crdt, room)` of organisation `org`, as `Hub::close`
    /// does. Without a hub for the organisation there is no such room.
    pub fn close(&mut self, org: &str, crdt: CrdtKind, room: &str, force: bool) -> (r: Closed)
        requires
            old(self).wf(),
        ensures
            final(self).wf(),
            match old(self).room_of(org@, crdt, room@) {
                None => r is NotOpen && *final(self) == *old(self),
                Some(before) => if force || before.subs@.len() == 0 {
                    &&& final(self).room_of(org@, crdt, room@) is None
                    &&& r matches Closed::Gone { notify, save }
                    &&& notify@ == before.subs@
                    &&& before.job_fits(save)
                } else {
                    r is InUse && *final(self) == *old(self)
                },
            },
    {
        let i = match self.hub_index(org) {
            Some(i) => i,
            None => {
                return Closed::NotOpen;
            },
        };
        proof {
            lemma_hub_at(*self, i as int);
        }
        match self.hubs[i].room(crdt, room) {
            None => {
                return Closed::NotOpen;
            },
            Some(it) => {
                if !force && it.subs.len() > 0 {
                    return Closed::InUse;
                }
            },
        }
        let ghost mid = *self;
        let hub = &mut self.hubs[i];
        let r = hub.close(crdt, room, force);
        proof {
            assert(self.hubs@[i as int].org == mid.hubs@[i as int].org);
            assert forall|a: int, b: int|
                0 <= a < self.hubs@.len() && 0 <= b < self.hubs@.len() && a != b implies (
            #[trigger] self.hubs@[a]).org@ != (#[trigger] self.hubs@[b]).org@ by {
                assert(self.hubs@[a].org == mid.hubs@[a].org);
                assert(self.hubs@[b].org == mid.hubs@[b].org);
            }
            lemma_hub_at(*self, i as int);
        }
        r
    }
}

/// Where no two hubs are of the same organisation, the hub of an
/// organisation is the one at whichever position is of that organisation.
pub proof fn lemma_hub_at(reg: HubRegistry, i: int)
    requires
        0 <= i < reg.hubs@.len(),
        forall|a: int, b: int|
            0 <= a < reg.hubs@.len() && 0 <= b < reg.hubs@.len() && a != b ==> (
            #[trigger] reg.hubs@[a]).org@ != (#[trigger] reg.hubs@[b]).org@,
    ensures
        reg.hub_of(reg.hubs@[i].org@) == Some(reg.hubs@[i]),
{
    let org = reg.hubs@[i].org@;
    let j = choose|j: int| 0 <= j < reg.hubs@.len() && (#[trigger] reg.hubs@[j]).org@ == org;
    assert(j == i);
}

} // verus!
