//! The rule by which a room takes or refuses a batch of operations.

use crate::error::ErrorKind;
use crate::room::docctx::{bindings, keeps_bindings, DocContext};
use crate::text::{contains_str, holds, list_of, text_of};
use vstd::prelude::*;
use vstd::string::*;

verus! {

broadcast use vstd::std_specs::hash::group_hash_axioms;

/// The counter that a version vector holds for `peer`: that of its first
/// entry for the peer, or zero where it has none.
pub open spec fn counter_in(vv: Seq<(u64, i32)>, peer: u64) -> int
    decreases vv.len(),
{
    if vv.len() == 0 {
        0
    } else if vv[0].0 == peer {
        vv[0].1 as int
    } else {
        counter_in(vv.subrange(1, vv.len() as int), peer)
    }
}

/// The entry `i` of `after` is for a peer whose counter is greater than in
/// `before`.
pub open spec fn advanced_at(before: Seq<(u64, i32)>, after: Seq<(u64, i32)>, i: int) -> bool {
    0 <= i < after.len() && after[i].1 > counter_in(before, after[i].0)
}

/// The peer of the first entry of `after` whose counter is greater than in
/// `before`, if there is such an entry.
pub open spec fn updating_peer_of(before: Seq<(u64, i32)>, after: Seq<(u64, i32)>) -> Option<u64> {
    if exists|i: int| advanced_at(before, after, i) {
        let first = choose|i: int|
            advanced_at(before, after, i) && forall|j: int|
                0 <= j < i ==> !advanced_at(before, after, j);
        Some(after[first].0)
    } else {
        None
    }
}

/// The counter that `vv` holds for `peer`.
pub fn counter_of(vv: &Vec<(u64, i32)>, peer: u64) -> (r: i32)
    ensures
        r == counter_in(vv@, peer),
{
    let mut i: usize = 0;
    assert(vv@.subrange(0, vv@.len() as int) =~= vv@);
    while i < vv.len()
        invariant
            i <= vv.len(),
            counter_in(vv@, peer) == counter_in(vv@.subrange(i as int, vv@.len() as int), peer),
        decreases vv.len() - i,
    {
        let ghost rest = vv@.subrange(i as int, vv@.len() as int);
        assert(rest[0] == vv@[i as int]);
        assert(rest.subrange(1, rest.len() as int) =~= vv@.subrange(i + 1, vv@.len() as int));
        if vv[i].0 == peer {
            return vv[i].1;
        }
        i += 1;
    }
    assert(vv@.subrange(i as int, vv@.len() as int).len() == 0);
    0
}

/// The peer that a batch is attributed to: the first peer, in the order of
/// `after`, whose counter the batch has raised. `None` where the batch has
/// raised no counter.
pub fn updating_peer(before: &Vec<(u64, i32)>, after: &Vec<(u64, i32)>) -> (r: Option<u64>)
    ensures
        r == updating_peer_of(before@, after@),
        match r {
            Some(p) => exists|i: int|
                advanced_at(before@, after@, i) && after@[i].0 == p && forall|j: int|
                    0 <= j < i ==> !advanced_at(before@, after@, j),
            None => forall|i: int| !advanced_at(before@, after@, i),
        },
{
    let mut i: usize = 0;
    while i < after.len()
        invariant
            i <= after.len(),
            forall|j: int| 0 <= j < i ==> !advanced_at(before@, after@, j),
        decreases after.len() - i,
    {
        let c = counter_of(before, after[i].0);
        if after[i].1 > c {
            proof {
                let k = i as int;
                assert(advanced_at(before@, after@, k));
                let first = choose|x: int|
                    advanced_at(before@, after@, x) && forall|j: int|
                        0 <= j < x ==> !advanced_at(before@, after@, j);
                assert(first == k) by {
                    if first < k {
                        assert(!advanced_at(before@, after@, first));
                    }
                    if k < first {
                        assert(!advanced_at(before@, after@, k));
                    }
                }
            }
            return Some(after[i].0);
        }
        i += 1;
    }
    None
}

/// What became of a batch.
#[derive(Debug, Clone, Copy, PartialEq, Eq, Structural)]
pub enum Admission {
    /// The batch raised no counter: it is taken and changes nothing.
    NoChange,
    /// The batch is taken and attributed to `peer`.
    Accepted { peer: u64 },
    /// The batch is refused and has to be rolled back.
    Denied { kind: ErrorKind },
}

/// The rule itself, over the peer bindings `peers`, the version vectors
/// before and after the batch, the principals of the sender (`None` where
/// they are missing or stale) and the principal that a new peer would be
/// bound to (`None` where the sender has none in this organisation).
pub open spec fn admission_of(
    peers: Map<u64, Seq<char>>,
    before: Seq<(u64, i32)>,
    after: Seq<(u64, i32)>,
    user_prpls: Option<Seq<String>>,
    by_prpl: Option<Seq<char>>,
) -> Admission {
    match user_prpls {
        None => Admission::Denied { kind: ErrorKind::Unauthenticated },
        Some(prpls) => match updating_peer_of(before, after) {
            None => Admission::NoChange,
            Some(peer) => if peers.contains_key(peer) {
                if holds(prpls, peers[peer]) {
                    Admission::Accepted { peer }
                } else {
                    Admission::Denied { kind: ErrorKind::PermissionDenied }
                }
            } else {
                match by_prpl {
                    Some(_) => Admission::Accepted { peer },
                    None => Admission::Denied { kind: ErrorKind::PermissionDenied },
                }
            },
        },
    }
}

/// The peer bindings after the rule has been applied: a peer that was not
/// bound and whose batch is taken is bound to `by_prpl`; nothing else
/// changes.
pub open spec fn peers_after(
    peers: Map<u64, Seq<char>>,
    outcome: Admission,
    by_prpl: Option<Seq<char>>,
) -> Map<u64, Seq<char>> {
    match outcome {
        Admission::Accepted { peer } => if peers.contains_key(peer) || by_prpl is None {
            peers
        } else {
            peers.insert(peer, by_prpl->0)
        },
        _ => peers,
    }
}

/// The last updating peer after the rule has been applied.
pub open spec fn last_peer_after(last: Option<u64>, outcome: Admission) -> Option<u64> {
    match outcome {
        Admission::Accepted { peer } => Some(peer),
        _ => last,
    }
}

/// The outcome of the admission rule for a batch, without recording it.
pub fn decide_update(
    ctx: &DocContext,
    before: &Vec<(u64, i32)>,
    after: &Vec<(u64, i32)>,
    user_prpls: Option<&Vec<String>>,
    by_prpl: Option<&str>,
) -> (r: Admission)
    ensures
        r == admission_of(
            ctx.peers(),
            before@,
            after@,
            list_of(user_prpls),
            text_of(by_prpl),
        ),
{
    let prpls = match user_prpls {
        Some(p) => p,
        None => {
            return Admission::Denied { kind: ErrorKind::Unauthenticated };
        },
    };
    let peer = match updating_peer(before, after) {
        Some(p) => p,
        None => {
            return Admission::NoChange;
        },
    };
    match ctx.peer_map.get(&peer) {
        Some(principal) => {
            if contains_str(prpls, principal.as_str()) {
                Admission::Accepted { peer }
            } else {
                Admission::Denied { kind: ErrorKind::PermissionDenied }
            }
        },
        None => match by_prpl {
            Some(_) => Admission::Accepted { peer },
            None => Admission::Denied { kind: ErrorKind::PermissionDenied },
        },
    }
}

/// Records a taken batch in the context: its peer is bound to `by_prpl`
/// where it was not bound, and becomes the last updating peer.
pub fn record_update(ctx: &mut DocContext, peer: u64, by_prpl: Option<&str>)
    ensures
        final(ctx).peers() == peers_after(
            old(ctx).peers(),
            Admission::Accepted { peer },
            text_of(by_prpl),
        ),
        final(ctx).last_updating_peer == Some(peer),
        final(ctx).same_document(old(ctx)),
        keeps_bindings(old(ctx).peers(), final(ctx).peers()),
{
    if !ctx.peer_map.contains_key(&peer) {
        match by_prpl {
            Some(p) => {
                ctx.peer_map.insert(peer, String::from_str(p));
                assert(ctx.peers() =~= old(ctx).peers().insert(peer, p@));
            },
            None => {},
        }
    }
    ctx.last_updating_peer = Some(peer);
}

/// Applies the admission rule to a batch whose version vectors before and
/// after are given, for a sender with the principals `user_prpls`, and
/// records the outcome in the context: a taken batch binds its peer where it
/// was not bound and becomes the last updating peer; a refused batch and one
/// that changes nothing leave the context as it was.
pub fn admit_update(
    ctx: &mut DocContext,
    before: &Vec<(u64, i32)>,
    after: &Vec<(u64, i32)>,
    user_prpls: Option<&Vec<String>>,
    by_prpl: Option<&str>,
) -> (r: Admission)
    ensures
        r == admission_of(
            old(ctx).peers(),
            before@,
            after@,
            list_of(user_prpls),
            text_of(by_prpl),
        ),
        final(ctx).peers() == peers_after(
            old(ctx).peers(),
            r,
            text_of(by_prpl),
        ),
        final(ctx).last_updating_peer == last_peer_after(old(ctx).last_updating_peer, r),
        final(ctx).same_document(old(ctx)),
        keeps_bindings(old(ctx).peers(), final(ctx).peers()),
        r matches Admission::Accepted { peer } ==> final(ctx).peers().contains_key(peer),
        !(r is Accepted) ==> *final(ctx) == *old(ctx),
{
    let r = decide_update(ctx, before, after, user_prpls, by_prpl);
    match r {
        Admission::Accepted { peer } => {
            record_update(ctx, peer, by_prpl);
        },
        _ => {},
    }
    r
}

} // verus!
