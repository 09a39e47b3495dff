//! The package: a snapshot with its peer bindings, and its CBOR form, a map
//! with the entries `snapshot`, a byte string, and `peer_map`, a map from
//! peer to principal. Entries under other keys are kept as they are.

use crate::codec::head::{
    head_at, head_bytes, lemma_head_round_trip, read_head, write_head, Head, MAJOR_ARRAY,
    MAJOR_BYTES, MAJOR_MAP, MAJOR_TEXT, MAJOR_UINT,
};
use crate::codec::item::{holds_at, item_end, lemma_item_moves, skip_item, MAX_NESTING};
use crate::room::docctx::bindings;
use std::collections::HashMap;
use vstd::prelude::*;
use vstd::slice::slice_subrange;
use vstd::std_specs::iter::IteratorSpec;
use vstd::string::*;
use vstd::utf8::{decode_utf8, encode_utf8, valid_utf8};

verus! {

broadcast use vstd::std_specs::hash::group_hash_axioms;

/// An entry of a stored package under a key that this service does not
/// know: the key, and the entry's value as the CBOR item that it was read
/// as.
#[derive(Debug)]
pub struct ExtraField {
    pub key: String,
    pub value: Vec<u8>,
}

/// What is persisted of a document: the snapshot of its state and the
/// principal of each of its peers, and whatever else the stored package
/// held.
#[derive(Debug)]
pub struct ColabPackage {
    pub snapshot: Vec<u8>,
    pub peer_map: HashMap<u64, String>,
    pub extra: Vec<ExtraField>,
}

/// A package as a value: the snapshot's bytes, the peers' principals, and
/// the other entries in their order.
pub struct PackageView {
    pub snapshot: Seq<u8>,
    pub peers: Map<u64, Seq<char>>,
    pub extra: Seq<(Seq<char>, Seq<u8>)>,
}

/// Entries under unknown keys as values.
pub open spec fn extras_of(extra: Seq<ExtraField>) -> Seq<(Seq<char>, Seq<u8>)> {
    Seq::new(extra.len(), |i: int| (extra[i].key@, extra[i].value@))
}

impl View for ColabPackage {
    type V = PackageView;

    open spec fn view(&self) -> PackageView {
        PackageView {
            snapshot: self.snapshot@,
            peers: bindings(self.peer_map@),
            extra: extras_of(self.extra@),
        }
    }
}

/// An entry can be written and read again: its key is none of the two that
/// are known, and its value is one whole item.
pub open spec fn extra_ok(key: Seq<char>, value: Seq<u8>) -> bool {
    &&& key != "snapshot"@
    &&& key != "peer_map"@
    &&& encode_utf8(key).len() <= u64::MAX
    &&& item_end(value, 0, MAX_NESTING as nat) == Some(value.len() as int)
}

/// Every entry can be written and read again.
pub open spec fn extras_ok(extra: Seq<(Seq<char>, Seq<u8>)>) -> bool {
    forall|i: int| 0 <= i < extra.len() ==> extra_ok((#[trigger] extra[i]).0, extra[i].1)
}

/// Why a blob is no package.
#[derive(Debug, Clone, Copy, PartialEq, Eq, Structural)]
pub enum DecodeError {
    /// The bytes are not the CBOR form of a package.
    Malformed,
}

/// The text string that stands at `pos`, and the position behind it.
pub open spec fn text_at(b: Seq<u8>, pos: int) -> Option<(Seq<char>, int)> {
    match head_at(b, pos) {
        Some(h) => if h.major == MAJOR_TEXT && h.end + h.arg <= b.len() && valid_utf8(
            b.subrange(h.end, h.end + h.arg),
        ) {
            Some((decode_utf8(b.subrange(h.end, h.end + h.arg)), h.end + h.arg))
        } else {
            None
        },
        None => None,
    }
}

/// The unsigned integer that stands at `pos`, and the position behind it.
pub open spec fn uint_at(b: Seq<u8>, pos: int) -> Option<(u64, int)> {
    match head_at(b, pos) {
        Some(h) => if h.major == MAJOR_UINT {
            Some((h.arg, h.end))
        } else {
            None
        },
        None => None,
    }
}

/// `acc` followed by the `count` integers below 256 that stand from `pos`
/// on, and the position behind them.
pub open spec fn byte_items_at(b: Seq<u8>, pos: int, count: nat, acc: Seq<u8>) -> Option<
    (Seq<u8>, int),
>
    decreases count,
{
    if count == 0 {
        Some((acc, pos))
    } else {
        match uint_at(b, pos) {
            Some((v, end)) => if v < 256 {
                byte_items_at(b, end, (count - 1) as nat, acc.push(v as u8))
            } else {
                None
            },
            None => None,
        }
    }
}

/// The snapshot that stands at `pos`: a byte string, or an array of
/// integers below 256.
pub open spec fn snapshot_at(b: Seq<u8>, pos: int) -> Option<(Seq<u8>, int)> {
    match head_at(b, pos) {
        Some(h) => if h.major == MAJOR_BYTES {
            if h.end + h.arg <= b.len() {
                Some((b.subrange(h.end, h.end + h.arg), h.end + h.arg))
            } else {
                None
            }
        } else if h.major == MAJOR_ARRAY {
            byte_items_at(b, h.end, h.arg as nat, Seq::empty())
        } else {
            None
        },
        None => None,
    }
}

/// `acc` with the `count` bindings that stand from `pos` on, a later one
/// replacing an earlier one for the same peer, and the position behind them.
pub open spec fn peers_at(b: Seq<u8>, pos: int, count: nat, acc: Map<u64, Seq<char>>) -> Option<
    (Map<u64, Seq<char>>, int),
>
    decreases count,
{
    if count == 0 {
        Some((acc, pos))
    } else {
        match uint_at(b, pos) {
            Some((peer, mid)) => match text_at(b, mid) {
                Some((principal, end)) => peers_at(
                    b,
                    end,
                    (count - 1) as nat,
                    acc.insert(peer, principal),
                ),
                None => None,
            },
            None => None,
        }
    }
}

/// The peer map that stands at `pos`.
pub open spec fn peer_map_at(b: Seq<u8>, pos: int) -> Option<(Map<u64, Seq<char>>, int)> {
    match head_at(b, pos) {
        Some(h) => if h.major == MAJOR_MAP {
            peers_at(b, h.end, h.arg as nat, Map::empty())
        } else {
            None
        },
        None => None,
    }
}

/// What was read of a package so far.
pub struct Fields {
    pub snapshot: Option<Seq<u8>>,
    pub peers: Option<Map<u64, Seq<char>>>,
    pub extra: Seq<(Seq<char>, Seq<u8>)>,
}

/// `acc` with the `count` entries that stand from `pos` on, each a key and
/// its value, and the position behind them. The snapshot and the peer map
/// may each stand once; the value under any other key is kept as the item
/// that it is.
pub open spec fn fields_at(b: Seq<u8>, pos: int, count: nat, acc: Fields) -> Option<(Fields, int)>
    decreases count,
{
    if count == 0 {
        Some((acc, pos))
    } else {
        match text_at(b, pos) {
            None => None,
            Some((key, p)) => if key == "snapshot"@ {
                match snapshot_at(b, p) {
                    Some((snapshot, end)) => if acc.snapshot is None {
                        fields_at(
                            b,
                            end,
                            (count - 1) as nat,
                            Fields { snapshot: Some(snapshot), peers: acc.peers, extra: acc.extra },
                        )
                    } else {
                        None
                    },
                    None => None,
                }
            } else if key == "peer_map"@ {
                match peer_map_at(b, p) {
                    Some((peers, end)) => if acc.peers is None {
                        fields_at(
                            b,
                            end,
                            (count - 1) as nat,
                            Fields { snapshot: acc.snapshot, peers: Some(peers), extra: acc.extra },
                        )
                    } else {
                        None
                    },
                    None => None,
                }
            } else {
                match item_end(b, p, MAX_NESTING as nat) {
                    Some(end) => fields_at(
                        b,
                        end,
                        (count - 1) as nat,
                        Fields {
                            snapshot: acc.snapshot,
                            peers: acc.peers,
                            extra: acc.extra.push((key, b.subrange(p, end))),
                        },
                    ),
                    None => None,
                }
            },
        }
    }
}

/// Nothing read yet.
pub open spec fn no_fields() -> Fields {
    Fields { snapshot: None, peers: None, extra: Seq::empty() }
}

/// The package that a blob spells: a map that holds the snapshot and the
/// peer map, each once and in any place among its entries, with nothing
/// behind the map.
pub open spec fn parse_package(b: Seq<u8>) -> Option<PackageView> {
    match head_at(b, 0) {
        Some(h) => if h.major == MAJOR_MAP {
            match fields_at(b, h.end, h.arg as nat, no_fields()) {
                Some((f, end)) => if end == b.len() && f.snapshot is Some && f.peers is Some {
                    Some(
                        PackageView {
                            snapshot: f.snapshot->0,
                            peers: f.peers->0,
                            extra: f.extra,
                        },
                    )
                } else {
                    None
                },
                None => None,
            }
        } else {
            None
        },
        None => None,
    }
}

/// The CBOR form of a text.
pub open spec fn text_bytes(s: Seq<char>) -> Seq<u8> {
    head_bytes(MAJOR_TEXT, encode_utf8(s).len() as u64) + encode_utf8(s)
}

/// The CBOR form of one binding.
pub open spec fn entry_bytes(peer: u64, principal: Seq<char>) -> Seq<u8> {
    head_bytes(MAJOR_UINT, peer) + text_bytes(principal)
}

/// The CBOR forms of the bindings, one behind the other.
pub open spec fn entries_bytes(entries: Seq<(u64, Seq<char>)>) -> Seq<u8>
    decreases entries.len(),
{
    if entries.len() == 0 {
        Seq::empty()
    } else {
        entry_bytes(entries[0].0, entries[0].1) + entries_bytes(entries.drop_first())
    }
}

/// The CBOR forms of the entries under unknown keys, one behind the other:
/// each key as a text, and behind it the value as it is.
pub open spec fn extras_bytes(extra: Seq<(Seq<char>, Seq<u8>)>) -> Seq<u8>
    decreases extra.len(),
{
    if extra.len() == 0 {
        Seq::empty()
    } else {
        text_bytes(extra[0].0) + extra[0].1 + extras_bytes(extra.drop_first())
    }
}

/// The CBOR form of a package whose bindings are written in the order of
/// `entries`: the snapshot, the peer map, then the other entries.
pub open spec fn package_bytes(
    snapshot: Seq<u8>,
    entries: Seq<(u64, Seq<char>)>,
    extra: Seq<(Seq<char>, Seq<u8>)>,
) -> Seq<u8> {
    head_bytes(MAJOR_MAP, (2 + extra.len()) as u64) + text_bytes("snapshot"@) + head_bytes(
        MAJOR_BYTES,
        snapshot.len() as u64,
    ) + snapshot + text_bytes("peer_map"@) + head_bytes(MAJOR_MAP, entries.len() as u64)
        + entries_bytes(entries) + extras_bytes(extra)
}

/// The bindings of `entries`, put into `acc` one after the other.
pub open spec fn put_all(acc: Map<u64, Seq<char>>, entries: Seq<(u64, Seq<char>)>) -> Map<
    u64,
    Seq<char>,
>
    decreases entries.len(),
{
    if entries.len() == 0 {
        acc
    } else {
        put_all(acc.insert(entries[0].0, entries[0].1), entries.drop_first())
    }
}

/// The sizes in a package fit the heads that carry them.
pub open spec fn fits(
    snapshot: Seq<u8>,
    entries: Seq<(u64, Seq<char>)>,
    extra: Seq<(Seq<char>, Seq<u8>)>,
) -> bool {
    &&& snapshot.len() <= u64::MAX
    &&& entries.len() <= u64::MAX
    &&& 2 + extra.len() <= u64::MAX
    &&& forall|i: int| 0 <= i < entries.len() ==> encode_utf8(#[trigger] entries[i].1).len() <= u64::MAX
}

/// `b` is a CBOR form of the package `pkg`: its bindings are written in some
/// order, each once.
pub open spec fn is_encoding(b: Seq<u8>, pkg: PackageView) -> bool {
    exists|entries: Seq<(u64, Seq<char>)>|
        #![trigger package_bytes(pkg.snapshot, entries, pkg.extra)]
        fits(pkg.snapshot, entries, pkg.extra) && put_all(Map::empty(), entries) == pkg.peers
            && b == package_bytes(pkg.snapshot, entries, pkg.extra)
}

/// `chunk` stands in `b` from `pos` on.
pub open spec fn has_at(b: Seq<u8>, pos: int, chunk: Seq<u8>) -> bool {
    0 <= pos && pos + chunk.len() <= b.len() && b.subrange(pos, pos + chunk.len()) == chunk
}

/// Where a chunk of two parts stands, its parts stand one behind the other.
pub proof fn lemma_has_at_split(b: Seq<u8>, pos: int, first: Seq<u8>, second: Seq<u8>)
    requires
        has_at(b, pos, first + second),
    ensures
        has_at(b, pos, first),
        has_at(b, pos + first.len(), second),
{
    let whole = first + second;
    assert(b.subrange(pos, pos + first.len()) =~= whole.subrange(0, first.len() as int));
    assert(whole.subrange(0, first.len() as int) =~= first);
    assert(b.subrange(pos + first.len(), pos + first.len() + second.len()) =~= whole.subrange(
        first.len() as int,
        whole.len() as int,
    ));
    assert(whole.subrange(first.len() as int, whole.len() as int) =~= second);
}

/// A head that stands in `b` is read back.
pub proof fn lemma_head_at(b: Seq<u8>, pos: int, major: u8, arg: u64)
    requires
        major < 8,
        has_at(b, pos, head_bytes(major, arg)),
    ensures
        head_at(b, pos) == Some(
            Head { major, arg, end: pos + head_bytes(major, arg).len() as int },
        ),
{
    lemma_head_round_trip(b, pos, major, arg);
}

/// A text that stands in `b` is read back.
pub proof fn lemma_text_at(b: Seq<u8>, pos: int, s: Seq<char>)
    requires
        encode_utf8(s).len() <= u64::MAX,
        has_at(b, pos, text_bytes(s)),
    ensures
        text_at(b, pos) == Some((s, pos + text_bytes(s).len())),
{
    broadcast use vstd::utf8::encode_utf8_valid_utf8, vstd::utf8::encode_utf8_decode_utf8;

    let payload = encode_utf8(s);
    let head = head_bytes(MAJOR_TEXT, payload.len() as u64);
    lemma_has_at_split(b, pos, head, payload);
    lemma_head_at(b, pos, MAJOR_TEXT, payload.len() as u64);
    assert(valid_utf8(payload));
    assert(decode_utf8(payload) == s);
}

/// Bindings that stand in `b` are read back in their order.
pub proof fn lemma_entries_at(
    b: Seq<u8>,
    pos: int,
    entries: Seq<(u64, Seq<char>)>,
    acc: Map<u64, Seq<char>>,
)
    requires
        forall|i: int| 0 <= i < entries.len() ==> encode_utf8(#[trigger] entries[i].1).len() <= u64::MAX,
        has_at(b, pos, entries_bytes(entries)),
    ensures
        peers_at(b, pos, entries.len(), acc) == Some(
            (put_all(acc, entries), pos + entries_bytes(entries).len()),
        ),
    decreases entries.len(),
{
    if entries.len() > 0 {
        let (peer, principal) = entries[0];
        let rest = entries.drop_first();
        let key = head_bytes(MAJOR_UINT, peer);
        let value = text_bytes(principal);
        lemma_has_at_split(b, pos, key + value, entries_bytes(rest));
        lemma_has_at_split(b, pos, key, value);
        lemma_head_at(b, pos, MAJOR_UINT, peer);
        lemma_text_at(b, pos + key.len(), principal);
        assert forall|i: int| 0 <= i < rest.len() implies encode_utf8(#[trigger] rest[i].1).len()
            <= u64::MAX by {
            assert(rest[i] == entries[i + 1]);
        }
        lemma_entries_at(b, pos + key.len() + value.len(), rest, acc.insert(peer, principal));
    }
}

/// Writing one more binding behind the others.
pub proof fn lemma_entries_push(entries: Seq<(u64, Seq<char>)>, peer: u64, principal: Seq<char>)
    ensures
        entries_bytes(entries.push((peer, principal))) == entries_bytes(entries) + entry_bytes(
            peer,
            principal,
        ),
    decreases entries.len(),
{
    let longer = entries.push((peer, principal));
    if entries.len() == 0 {
        assert(longer.drop_first() =~= Seq::<(u64, Seq<char>)>::empty());
        assert(entries_bytes(longer.drop_first()) =~= Seq::<u8>::empty());
        assert(entries_bytes(entries) =~= Seq::<u8>::empty());
        assert(longer[0] == (peer, principal));
        assert(entries_bytes(longer) =~= entry_bytes(peer, principal) + Seq::<u8>::empty());
        assert(entries_bytes(entries) + entry_bytes(peer, principal) =~= entry_bytes(
            peer,
            principal,
        ));
    } else {
        assert(longer.drop_first() =~= entries.drop_first().push((peer, principal)));
        lemma_entries_push(entries.drop_first(), peer, principal);
        assert(entries_bytes(longer) =~= entries_bytes(entries) + entry_bytes(peer, principal));
    }
}

/// Putting one more binding behind the others.
pub proof fn lemma_put_all_push(
    acc: Map<u64, Seq<char>>,
    entries: Seq<(u64, Seq<char>)>,
    peer: u64,
    principal: Seq<char>,
)
    ensures
        put_all(acc, entries.push((peer, principal))) == put_all(acc, entries).insert(
            peer,
            principal,
        ),
    decreases entries.len(),
{
    let longer = entries.push((peer, principal));
    if entries.len() == 0 {
        assert(longer.drop_first() =~= Seq::<(u64, Seq<char>)>::empty());
        assert(longer[0] == (peer, principal));
        assert(put_all(acc.insert(peer, principal), longer.drop_first()) == acc.insert(
            peer,
            principal,
        ));
        assert(put_all(acc, entries) == acc);
    } else {
        assert(longer.drop_first() =~= entries.drop_first().push((peer, principal)));
        assert(longer[0] == entries[0]);
        lemma_put_all_push(
            acc.insert(entries[0].0, entries[0].1),
            entries.drop_first(),
            peer,
            principal,
        );
    }
}

/// Where the parts of a package stand in its CBOR form.
proof fn lemma_package_layout(
    snapshot: Seq<u8>,
    entries: Seq<(u64, Seq<char>)>,
    extra: Seq<(Seq<char>, Seq<u8>)>,
)
    ensures
        ({
            let b = package_bytes(snapshot, entries, extra);
            let c0 = head_bytes(MAJOR_MAP, (2 + extra.len()) as u64);
            let c1 = text_bytes("snapshot"@);
            let c2 = head_bytes(MAJOR_BYTES, snapshot.len() as u64);
            let c4 = text_bytes("peer_map"@);
            let c5 = head_bytes(MAJOR_MAP, entries.len() as u64);
            let c6 = entries_bytes(entries);
            let c7 = extras_bytes(extra);
            let at1 = c0.len() as int;
            let at2 = at1 + c1.len();
            let at3 = at2 + c2.len();
            let at4 = at3 + snapshot.len();
            let at5 = at4 + c4.len();
            let at6 = at5 + c5.len();
            let at7 = at6 + c6.len();
            &&& has_at(b, 0, c0)
            &&& has_at(b, at1, c1)
            &&& has_at(b, at2, c2)
            &&& has_at(b, at3, snapshot)
            &&& has_at(b, at4, c4)
            &&& has_at(b, at5, c5)
            &&& has_at(b, at6, c6)
            &&& has_at(b, at7, c7)
            &&& b.len() == at7 + c7.len()
        }),
{
    let b = package_bytes(snapshot, entries, extra);
    let c0 = head_bytes(MAJOR_MAP, (2 + extra.len()) as u64);
    let c1 = text_bytes("snapshot"@);
    let c2 = head_bytes(MAJOR_BYTES, snapshot.len() as u64);
    let c3 = snapshot;
    let c4 = text_bytes("peer_map"@);
    let c5 = head_bytes(MAJOR_MAP, entries.len() as u64);
    let c6 = entries_bytes(entries);
    let c7 = extras_bytes(extra);
    assert(b.subrange(0, b.len() as int) =~= b);
    assert(has_at(b, 0, c0 + c1 + c2 + c3 + c4 + c5 + c6 + c7));
    lemma_has_at_split(b, 0, c0 + c1 + c2 + c3 + c4 + c5 + c6, c7);
    lemma_has_at_split(b, 0, c0 + c1 + c2 + c3 + c4 + c5, c6);
    lemma_has_at_split(b, 0, c0 + c1 + c2 + c3 + c4, c5);
    lemma_has_at_split(b, 0, c0 + c1 + c2 + c3, c4);
    lemma_has_at_split(b, 0, c0 + c1 + c2, c3);
    lemma_has_at_split(b, 0, c0 + c1, c2);
    lemma_has_at_split(b, 0, c0, c1);
}

/// The two keys of a package are short and differ.
proof fn lemma_keys()
    ensures
        encode_utf8("snapshot"@).len() <= u64::MAX,
        encode_utf8("peer_map"@).len() <= u64::MAX,
        "snapshot"@ != "peer_map"@,
{
    reveal_strlit("snapshot");
    reveal_strlit("peer_map");
    assert("snapshot"@[0] == 's');
    assert("peer_map"@[0] == 'p');
    vstd::utf8::is_ascii_chars_encode_utf8("snapshot"@);
    vstd::utf8::is_ascii_chars_encode_utf8("peer_map"@);
}

/// Entries under unknown keys that stand in `b` are read back in their
/// order, each value as the bytes that were written.
pub proof fn lemma_extras_at(b: Seq<u8>, pos: int, extra: Seq<(Seq<char>, Seq<u8>)>, acc: Fields)
    requires
        extras_ok(extra),
        has_at(b, pos, extras_bytes(extra)),
    ensures
        fields_at(b, pos, extra.len(), acc) == Some(
            (
                Fields { snapshot: acc.snapshot, peers: acc.peers, extra: acc.extra + extra },
                pos + extras_bytes(extra).len(),
            ),
        ),
    decreases extra.len(),
{
    if extra.len() == 0 {
        assert(acc.extra + extra =~= acc.extra);
    } else {
        let (key, value) = extra[0];
        let rest = extra.drop_first();
        assert(extra_ok(key, value));
        let k = text_bytes(key);
        lemma_has_at_split(b, pos, k + value, extras_bytes(rest));
        lemma_has_at_split(b, pos, k, value);
        lemma_text_at(b, pos, key);
        let p = pos + k.len();
        assert(holds_at(b, p, value));
        lemma_item_moves(value, b, p, 0, MAX_NESTING as nat);
        let end = p + value.len();
        assert(item_end(b, p, MAX_NESTING as nat) == Some(end));
        assert(b.subrange(p, end) == value);
        assert forall|i: int| 0 <= i < rest.len() implies extra_ok(
            (#[trigger] rest[i]).0,
            rest[i].1,
        ) by {
            assert(rest[i] == extra[i + 1]);
        }
        let next = Fields {
            snapshot: acc.snapshot,
            peers: acc.peers,
            extra: acc.extra.push((key, value)),
        };
        lemma_extras_at(b, end, rest, next);
        assert(next.extra + rest =~= acc.extra + extra);
    }
}

/// Writing one more entry behind the others.
pub proof fn lemma_extras_push(extra: Seq<(Seq<char>, Seq<u8>)>, key: Seq<char>, value: Seq<u8>)
    ensures
        extras_bytes(extra.push((key, value))) == extras_bytes(extra) + (text_bytes(key) + value),
    decreases extra.len(),
{
    let longer = extra.push((key, value));
    if extra.len() == 0 {
        assert(longer.drop_first() =~= Seq::<(Seq<char>, Seq<u8>)>::empty());
        assert(extras_bytes(longer.drop_first()) =~= Seq::<u8>::empty());
        assert(extras_bytes(extra) =~= Seq::<u8>::empty());
        assert(longer[0] == (key, value));
        assert(extras_bytes(longer) =~= text_bytes(key) + value + Seq::<u8>::empty());
        assert(extras_bytes(extra) + (text_bytes(key) + value) =~= text_bytes(key) + value);
    } else {
        assert(longer.drop_first() =~= extra.drop_first().push((key, value)));
        assert(longer[0] == extra[0]);
        lemma_extras_push(extra.drop_first(), key, value);
        assert(extras_bytes(longer) =~= extras_bytes(extra) + (text_bytes(key) + value));
    }
}

/// Decoding undoes encoding: whatever order the bindings of a package are
/// written in, the blob spells that package again, with its entries under
/// unknown keys as they were.
pub proof fn law_decode_encode(b: Seq<u8>, pkg: PackageView)
    requires
        is_encoding(b, pkg),
        extras_ok(pkg.extra),
    ensures
        parse_package(b) == Some(pkg),
{
    let entries = choose|entries: Seq<(u64, Seq<char>)>|
        #![trigger package_bytes(pkg.snapshot, entries, pkg.extra)]
        fits(pkg.snapshot, entries, pkg.extra) && put_all(Map::empty(), entries) == pkg.peers
            && b == package_bytes(pkg.snapshot, entries, pkg.extra);
    let snapshot = pkg.snapshot;
    let extra = pkg.extra;
    lemma_keys();
    lemma_package_layout(snapshot, entries, extra);
    let c0 = head_bytes(MAJOR_MAP, (2 + extra.len()) as u64);
    let c1 = text_bytes("snapshot"@);
    let c2 = head_bytes(MAJOR_BYTES, snapshot.len() as u64);
    let c4 = text_bytes("peer_map"@);
    let c5 = head_bytes(MAJOR_MAP, entries.len() as u64);
    let c6 = entries_bytes(entries);
    let c7 = extras_bytes(extra);
    let at1 = c0.len() as int;
    let at2 = at1 + c1.len();
    let at3 = at2 + c2.len();
    let at4 = at3 + snapshot.len();
    let at5 = at4 + c4.len();
    let at6 = at5 + c5.len();
    let at7 = at6 + c6.len();
    lemma_head_at(b, 0, MAJOR_MAP, (2 + extra.len()) as u64);
    lemma_text_at(b, at1, "snapshot"@);
    lemma_head_at(b, at2, MAJOR_BYTES, snapshot.len() as u64);
    assert(snapshot_at(b, at2) == Some((snapshot, at4)));
    lemma_text_at(b, at4, "peer_map"@);
    lemma_head_at(b, at5, MAJOR_MAP, entries.len() as u64);
    lemma_entries_at(b, at6, entries, Map::empty());
    assert(peer_map_at(b, at5) == Some((pkg.peers, at7)));
    let f1 = Fields { snapshot: Some(snapshot), peers: None, extra: Seq::empty() };
    let f2 = Fields { snapshot: Some(snapshot), peers: Some(pkg.peers), extra: Seq::empty() };
    lemma_extras_at(b, at7, extra, f2);
    assert(f2.extra + extra =~= extra);
    let n = (2 + extra.len()) as nat;
    assert(fields_at(b, at4, (n - 1) as nat, f1) == fields_at(b, at7, (n - 2) as nat, f2));
    assert(fields_at(b, at1, n, no_fields()) == fields_at(b, at4, (n - 1) as nat, f1));
}

/// Bindings that agree with a map, put one after the other, give that part
/// of the map that they name.
pub proof fn lemma_put_all_listing(entries: Seq<(u64, Seq<char>)>, m: Map<u64, Seq<char>>)
    requires
        forall|i: int|
            0 <= i < entries.len() ==> m.contains_key(#[trigger] entries[i].0) && m[entries[i].0]
                == entries[i].1,
    ensures
        forall|k: u64| #[trigger]
            put_all(Map::empty(), entries).contains_key(k) <==> exists|i: int|
                0 <= i < entries.len() && #[trigger] entries[i].0 == k,
        forall|k: u64| #[trigger]
            put_all(Map::empty(), entries).contains_key(k) ==> put_all(Map::empty(), entries)[k]
                == m[k],
    decreases entries.len(),
{
    if entries.len() > 0 {
        let init = entries.drop_last();
        let last = entries.last();
        assert forall|i: int| 0 <= i < init.len() implies m.contains_key(#[trigger] init[i].0)
            && m[init[i].0] == init[i].1 by {
            assert(init[i] == entries[i]);
        }
        lemma_put_all_listing(init, m);
        lemma_put_all_push(Map::empty(), init, last.0, last.1);
        assert(entries =~= init.push(last));
        let whole = put_all(Map::empty(), entries);
        assert(whole == put_all(Map::empty(), init).insert(last.0, last.1));
        assert forall|k: u64| #[trigger] whole.contains_key(k) <==> exists|i: int|
            0 <= i < entries.len() && #[trigger] entries[i].0 == k by {
            if whole.contains_key(k) {
                if k == last.0 {
                    assert(entries[entries.len() - 1].0 == k);
                } else {
                    let i = choose|i: int| 0 <= i < init.len() && #[trigger] init[i].0 == k;
                    assert(entries[i].0 == k);
                }
            }
            if exists|i: int| 0 <= i < entries.len() && #[trigger] entries[i].0 == k {
                let i = choose|i: int| 0 <= i < entries.len() && #[trigger] entries[i].0 == k;
                if i < init.len() {
                    assert(init[i].0 == k);
                }
            }
        }
        assert(m.contains_key(entries[entries.len() - 1].0));
    }
}

/// Appends the CBOR form of a text to `out`.
fn write_text(out: &mut Vec<u8>, s: &str)
    ensures
        final(out)@ == old(out)@ + text_bytes(s@),
        encode_utf8(s@).len() <= usize::MAX,
{
    let bytes = s.as_bytes();
    write_head(out, MAJOR_TEXT, bytes.len() as u64);
    let ghost mid = out@;
    out.extend_from_slice(bytes);
    assert(out@ =~= mid + bytes@);
    assert(out@ =~= old(out)@ + text_bytes(s@));
}

impl ColabPackage {
    /// A package of a snapshot and its peer bindings, with no other entry.
    pub fn new(snapshot: Vec<u8>, peer_map: HashMap<u64, String>) -> (r: ColabPackage)
        ensures
            r.snapshot == snapshot,
            r.peer_map == peer_map,
            r.extra@.len() == 0,
            extras_ok(r@.extra),
            r@ == (PackageView {
                snapshot: snapshot@,
                peers: bindings(peer_map@),
                extra: Seq::empty(),
            }),
    {
        let r = ColabPackage { snapshot, peer_map, extra: Vec::new() };
        assert(r@.extra =~= Seq::empty());
        r
    }

    /// Whether every entry under an unknown key can be written and read
    /// again: its key is none of the two that are known, and its value is
    /// one whole item.
    pub fn has_sound_extras(&self) -> (r: bool)
        ensures
            r == extras_ok(self@.extra),
    {
        let mut i: usize = 0;
        while i < self.extra.len()
            invariant
                i <= self.extra.len(),
                forall|j: int|
                    0 <= j < i ==> extra_ok(
                        (#[trigger] extras_of(self.extra@)[j]).0,
                        extras_of(self.extra@)[j].1,
                    ),
            decreases self.extra.len() - i,
        {
            let e = &self.extra[i];
            let ghost view = extras_of(self.extra@)[i as int];
            assert(view == (e.key@, e.value@));
            let size = e.key.as_str().as_bytes().len();
            let sound = !crate::text::str_eq(e.key.as_str(), "snapshot") && !crate::text::str_eq(
                e.key.as_str(),
                "peer_map",
            ) && match skip_item(e.value.as_slice(), 0, MAX_NESTING) {
                Some(end) => end == e.value.len(),
                None => false,
            };
            if !sound {
                return false;
            }
            i += 1;
        }
        true
    }
}

/// Appends the bindings of a peer map to `out`, in the order in which the
/// map hands them out. The result is that order.
fn write_bindings(out: &mut Vec<u8>, peer_map: &HashMap<u64, String>) -> (written: Ghost<
    Seq<(u64, Seq<char>)>,
>)
    ensures
        final(out)@ == old(out)@ + entries_bytes(written@),
        written@.len() == peer_map@.dom().len(),
        put_all(Map::empty(), written@) == bindings(peer_map@),
        forall|i: int|
            0 <= i < written@.len() ==> encode_utf8(#[trigger] written@[i].1).len() <= u64::MAX,
{
    let ghost prefix = out@;
    let ghost mut written: Seq<(u64, Seq<char>)> = Seq::empty();
    assert(out@ =~= prefix + entries_bytes(written));
    let ghost peers = bindings(peer_map@);
    for entry in it: peer_map.iter()
        invariant
            out@ == prefix + entries_bytes(written),
            written.len() == it.index(),
            peers == bindings(peer_map@),
            it.seq() == vstd::std_specs::hash::spec_hash_map_iter(peer_map).remaining(),
            forall|i: int|
                0 <= i < written.len() ==> #[trigger] written[i] == (
                    *it.seq()[i].0,
                    it.seq()[i].1@,
                ),
            forall|i: int|
                0 <= i < written.len() ==> encode_utf8(#[trigger] written[i].1).len() <= u64::MAX,
    {
        let (peer, principal) = entry;
        write_head(out, MAJOR_UINT, *peer);
        write_text(out, principal.as_str());
        proof {
            lemma_entries_push(written, *peer, principal@);
            assert(out@ =~= prefix + (entries_bytes(written) + entry_bytes(*peer, principal@)));
            written = written.push((*peer, principal@));
        }
    }
    proof {
        let listing = vstd::std_specs::hash::spec_hash_map_iter(peer_map).remaining();
        assert(written.len() == listing.len());
        assert forall|i: int| 0 <= i < written.len() implies peers.contains_key(
            #[trigger] written[i].0,
        ) && peers[written[i].0] == written[i].1 by {
            assert(peer_map@.contains_key(*listing[i].0));
        }
        lemma_put_all_listing(written, peers);
        let got = put_all(Map::empty(), written);
        assert forall|k: u64| peers.contains_key(k) implies #[trigger] got.contains_key(k) by {
            assert(peer_map@.contains_key(k));
            assert(listing.contains((&k, &peer_map@[k])));
            let i = choose|i: int| 0 <= i < listing.len() && listing[i] == (&k, &peer_map@[k]);
            assert(written[i].0 == k);
        }
        assert(got =~= peers);
    }
    Ghost(written)
}

/// Appends the entries under unknown keys to `out`: each key as a text, and
/// behind it the value as it is.
fn write_extras(out: &mut Vec<u8>, extra: &Vec<ExtraField>)
    ensures
        final(out)@ == old(out)@ + extras_bytes(extras_of(extra@)),
{
    let ghost known = out@;
    let ghost all = extras_of(extra@);
    let mut i: usize = 0;
    assert(out@ =~= known + extras_bytes(all.take(0)));
    while i < extra.len()
        invariant
            i <= extra.len(),
            all == extras_of(extra@),
            out@ == known + extras_bytes(all.take(i as int)),
        decreases extra.len() - i,
    {
        let e = &extra[i];
        write_text(out, e.key.as_str());
        let ghost mid = out@;
        out.extend_from_slice(e.value.as_slice());
        proof {
            assert(out@ =~= mid + e.value@);
            assert(all[i as int] == (e.key@, e.value@));
            assert(all.take(i + 1) =~= all.take(i as int).push((e.key@, e.value@)));
            lemma_extras_push(all.take(i as int), e.key@, e.value@);
            assert(out@ =~= known + (extras_bytes(all.take(i as int)) + (text_bytes(e.key@)
                + e.value@)));
        }
        i += 1;
    }
    assert(all.take(extra@.len() as int) =~= all);
}

/// What `encode_package` has written is a form of the package, and spells
/// it where the entries under unknown keys are sound.
proof fn lemma_encoded(b: Seq<u8>, pkg: PackageView, written: Seq<(u64, Seq<char>)>)
    requires
        fits(pkg.snapshot, written, pkg.extra),
        put_all(Map::empty(), written) == pkg.peers,
        b == package_bytes(pkg.snapshot, written, pkg.extra),
    ensures
        is_encoding(b, pkg),
        extras_ok(pkg.extra) ==> parse_package(b) == Some(pkg),
{
    if extras_ok(pkg.extra) {
        law_decode_encode(b, pkg);
    }
}

/// The CBOR form of a package: the snapshot, the peer map with its bindings
/// in the order in which the map hands them out, then the entries under
/// unknown keys. Where those entries are sound, the blob spells the package
/// again.
pub fn encode_package(pkg: &ColabPackage) -> (out: Vec<u8>)
    requires
        pkg.extra@.len() + 2 <= u64::MAX,
    ensures
        is_encoding(out@, pkg@),
        extras_ok(pkg@.extra) ==> parse_package(out@) == Some(pkg@),
{
    let mut out: Vec<u8> = Vec::new();
    write_head(&mut out, MAJOR_MAP, pkg.extra.len() as u64 + 2);
    write_text(&mut out, "snapshot");
    write_head(&mut out, MAJOR_BYTES, pkg.snapshot.len() as u64);
    let ghost mid = out@;
    out.extend_from_slice(pkg.snapshot.as_slice());
    assert(out@ =~= mid + pkg.snapshot@);
    write_text(&mut out, "peer_map");
    write_head(&mut out, MAJOR_MAP, pkg.peer_map.len() as u64);
    let written = write_bindings(&mut out, &pkg.peer_map);
    write_extras(&mut out, &pkg.extra);
    proof {
        lemma_encoded(out@, pkg@, written@);
    }
    out
}

/// Reads the text at `pos`.
fn read_text(b: &[u8], pos: usize) -> (r: Option<(String, usize)>)
    ensures
        match r {
            Some((s, end)) => text_at(b@, pos as int) == Some((s@, end as int)) && pos < end
                <= b@.len(),
            None => text_at(b@, pos as int) is None,
        },
{
    let (major, arg, start) = match read_head(b, pos) {
        Some(h) => h,
        None => {
            return None;
        },
    };
    if major != MAJOR_TEXT {
        return None;
    }
    if arg > (b.len() - start) as u64 {
        return None;
    }
    let end: usize = start + arg as usize;
    let payload = vstd::slice::slice_to_vec(slice_subrange(b, start, end));
    match crate::text::utf8_to_string(payload) {
        Some(s) => Some((s, end)),
        None => None,
    }
}

/// Reads the unsigned integer at `pos`.
fn read_uint(b: &[u8], pos: usize) -> (r: Option<(u64, usize)>)
    ensures
        match r {
            Some((v, end)) => uint_at(b@, pos as int) == Some((v, end as int)) && pos < end
                <= b@.len(),
            None => uint_at(b@, pos as int) is None,
        },
{
    match read_head(b, pos) {
        Some((major, arg, end)) => if major == MAJOR_UINT {
            Some((arg, end))
        } else {
            None
        },
        None => None,
    }
}

/// Reads the snapshot at `pos`.
#[verifier::loop_isolation(false)]
fn read_snapshot(b: &[u8], pos: usize) -> (r: Option<(Vec<u8>, usize)>)
    ensures
        match r {
            Some((snapshot, end)) => snapshot_at(b@, pos as int) == Some((snapshot@, end as int))
                && pos < end <= b@.len(),
            None => snapshot_at(b@, pos as int) is None,
        },
{
    let (major, arg, start) = match read_head(b, pos) {
        Some(h) => h,
        None => {
            return None;
        },
    };
    if major == MAJOR_BYTES {
        if arg > (b.len() - start) as u64 {
            return None;
        }
        let end: usize = start + arg as usize;
        let snapshot = vstd::slice::slice_to_vec(slice_subrange(b, start, end));
        return Some((snapshot, end));
    }
    if major != MAJOR_ARRAY {
        return None;
    }
    let mut items: Vec<u8> = Vec::new();
    let mut at: usize = start;
    let mut left: u64 = arg;
    while left > 0
        invariant
            start <= at <= b@.len(),
            byte_items_at(b@, start as int, arg as nat, Seq::empty()) == byte_items_at(
                b@,
                at as int,
                left as nat,
                items@,
            ),
        decreases left,
    {
        match read_uint(b, at) {
            Some((v, end)) => {
                if v >= 256 {
                    return None;
                }
                items.push(v as u8);
                at = end;
                left = left - 1;
            },
            None => {
                return None;
            },
        }
    }
    Some((items, at))
}

/// Reads the peer map at `pos`.
#[verifier::loop_isolation(false)]
fn read_peer_map(b: &[u8], pos: usize) -> (r: Option<(HashMap<u64, String>, usize)>)
    ensures
        match r {
            Some((peers, end)) => peer_map_at(b@, pos as int) == Some(
                (bindings(peers@), end as int),
            ) && pos < end <= b@.len(),
            None => peer_map_at(b@, pos as int) is None,
        },
{
    let (major, arg, start) = match read_head(b, pos) {
        Some(h) => h,
        None => {
            return None;
        },
    };
    if major != MAJOR_MAP {
        return None;
    }
    let mut peers: HashMap<u64, String> = HashMap::new();
    let mut at: usize = start;
    let mut left: u64 = arg;
    assert(bindings(peers@) =~= Map::empty());
    while left > 0
        invariant
            start <= at <= b@.len(),
            peers_at(b@, start as int, arg as nat, Map::empty()) == peers_at(
                b@,
                at as int,
                left as nat,
                bindings(peers@),
            ),
        decreases left,
    {
        let (peer, mid) = match read_uint(b, at) {
            Some(x) => x,
            None => {
                return None;
            },
        };
        let (principal, end) = match read_text(b, mid) {
            Some(x) => x,
            None => {
                return None;
            },
        };
        let ghost before = bindings(peers@);
        let ghost text = principal@;
        peers.insert(peer, principal);
        assert(bindings(peers@) =~= before.insert(peer, text));
        at = end;
        left = left - 1;
    }
    Some((peers, at))
}

/// What was read of a package so far, as a value.
pub open spec fn fields_of(
    snapshot: Option<Vec<u8>>,
    peers: Option<HashMap<u64, String>>,
    extra: Seq<ExtraField>,
) -> Fields {
    Fields {
        snapshot: match snapshot {
            Some(s) => Some(s@),
            None => None,
        },
        peers: match peers {
            Some(p) => Some(bindings(p@)),
            None => None,
        },
        extra: extras_of(extra),
    }
}

/// The package that a blob spells, or `Malformed` where it spells none.
#[verifier::loop_isolation(false)]
pub fn decode_package(bytes: &[u8]) -> (r: Result<ColabPackage, DecodeError>)
    ensures
        match r {
            Ok(pkg) => parse_package(bytes@) == Some(pkg@),
            Err(e) => parse_package(bytes@) is None && e == DecodeError::Malformed,
        },
{
    let (major, arg, start) = match read_head(bytes, 0) {
        Some(h) => h,
        None => {
            return Err(DecodeError::Malformed);
        },
    };
    if major != MAJOR_MAP {
        return Err(DecodeError::Malformed);
    }
    let mut snapshot: Option<Vec<u8>> = None;
    let mut peers: Option<HashMap<u64, String>> = None;
    let mut extra: Vec<ExtraField> = Vec::new();
    let mut at: usize = start;
    let mut left: u64 = arg;
    assert(fields_of(snapshot, peers, extra@).extra =~= Seq::empty());
    while left > 0
        invariant
            start <= at <= bytes@.len(),
            fields_at(bytes@, start as int, arg as nat, no_fields()) == fields_at(
                bytes@,
                at as int,
                left as nat,
                fields_of(snapshot, peers, extra@),
            ),
        decreases left,
    {
        let (key, p) = match read_text(bytes, at) {
            Some(x) => x,
            None => {
                return Err(DecodeError::Malformed);
            },
        };
        if crate::text::str_eq(key.as_str(), "snapshot") {
            let (value, end) = match read_snapshot(bytes, p) {
                Some(x) => x,
                None => {
                    return Err(DecodeError::Malformed);
                },
            };
            if snapshot.is_some() {
                return Err(DecodeError::Malformed);
            }
            snapshot = Some(value);
            at = end;
        } else if crate::text::str_eq(key.as_str(), "peer_map") {
            let (value, end) = match read_peer_map(bytes, p) {
                Some(x) => x,
                None => {
                    return Err(DecodeError::Malformed);
                },
            };
            if peers.is_some() {
                return Err(DecodeError::Malformed);
            }
            peers = Some(value);
            at = end;
        } else {
            let end = match skip_item(bytes, p, MAX_NESTING) {
                Some(e) => e,
                None => {
                    return Err(DecodeError::Malformed);
                },
            };
            let value = vstd::slice::slice_to_vec(slice_subrange(bytes, p, end));
            let ghost before = extras_of(extra@);
            let ghost k = key@;
            let ghost v = value@;
            extra.push(ExtraField { key, value });
            assert(extras_of(extra@) =~= before.push((k, v)));
            at = end;
        }
        left = left - 1;
    }
    if at != bytes.len() {
        return Err(DecodeError::Malformed);
    }
    match (snapshot, peers) {
        (Some(snapshot), Some(peer_map)) => Ok(ColabPackage { snapshot, peer_map, extra }),
        _ => Err(DecodeError::Malformed),
    }
}

} // verus!
