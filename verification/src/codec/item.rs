//! Whole CBOR items, read only as far as it takes to know where they end.

use crate::codec::head::{extra_len, head_at, read_head, Head, MAJOR_ARRAY, MAJOR_MAP};
use vstd::prelude::*;

verus! {

/// How deep arrays, maps and tags may be nested in an item.
pub const MAX_NESTING: usize = 128;

/// Major type of a negative integer.
pub const MAJOR_NEGATIVE: u8 = 1;

/// Major type of a tag.
pub const MAJOR_TAG: u8 = 6;

/// Major type of the simple values and the floating-point numbers.
pub const MAJOR_SIMPLE: u8 = 7;

/// Where the item that begins at `pos` ends. An item is an integer, a
/// string with its bytes, an array or a map with its items, a tag with its
/// item, a simple value or a number; lengths are definite, and arrays, maps
/// and tags are nested at most `depth` deep. `None` where no such item
/// stands at `pos`.
pub open spec fn item_end(b: Seq<u8>, pos: int, depth: nat) -> Option<int>
    decreases depth, 0nat,
{
    match head_at(b, pos) {
        None => None,
        Some(h) => if h.major == 0 || h.major == 1 || h.major == 7 {
            Some(h.end)
        } else if h.major == 2 || h.major == 3 {
            if h.end + h.arg <= b.len() {
                Some(h.end + h.arg)
            } else {
                None
            }
        } else if depth == 0 {
            None
        } else if h.major == 4 {
            items_end(b, h.end, h.arg as nat, (depth - 1) as nat)
        } else if h.major == 5 {
            items_end(b, h.end, 2 * (h.arg as nat), (depth - 1) as nat)
        } else {
            item_end(b, h.end, (depth - 1) as nat)
        },
    }
}

/// Where the last of `count` items ends that stand one behind the other
/// from `pos` on.
pub open spec fn items_end(b: Seq<u8>, pos: int, count: nat, depth: nat) -> Option<int>
    decreases depth, count + 1,
{
    if count == 0 {
        Some(pos)
    } else {
        match item_end(b, pos, depth) {
            Some(e) => items_end(b, e, (count - 1) as nat, depth),
            None => None,
        }
    }
}

/// `raw` stands in `b` from `at` on.
pub open spec fn holds_at(b: Seq<u8>, at: int, raw: Seq<u8>) -> bool {
    0 <= at && at + raw.len() <= b.len() && b.subrange(at, at + raw.len()) == raw
}

/// A head reads the same wherever the bytes that hold it stand.
pub proof fn lemma_head_moves(raw: Seq<u8>, b: Seq<u8>, at: int, p: int)
    requires
        holds_at(b, at, raw),
        head_at(raw, p) is Some,
    ensures
        head_at(b, at + p) == Some(
            Head {
                major: head_at(raw, p)->0.major,
                arg: head_at(raw, p)->0.arg,
                end: at + head_at(raw, p)->0.end,
            },
        ),
        p < head_at(raw, p)->0.end <= raw.len(),
{
    assert(b.subrange(at, at + raw.len())[p] == raw[p]);
    let info = raw[p] % 32;
    let n = extra_len(info)->0;
    if n > 0 {
        let inner = raw.subrange(p + 1, p + 1 + n);
        let outer = b.subrange(at + p + 1, at + p + 1 + n);
        assert forall|i: int| 0 <= i < n implies #[trigger] outer[i] == inner[i] by {
            assert(b.subrange(at, at + raw.len())[p + 1 + i] == raw[p + 1 + i]);
        }
        assert(outer =~= inner);
    }
}

/// An item reads the same wherever the bytes that hold it stand.
pub proof fn lemma_item_moves(raw: Seq<u8>, b: Seq<u8>, at: int, p: int, depth: nat)
    requires
        holds_at(b, at, raw),
        item_end(raw, p, depth) is Some,
    ensures
        item_end(b, at + p, depth) == Some(at + item_end(raw, p, depth)->0),
    decreases depth, 0nat,
{
    lemma_head_moves(raw, b, at, p);
    let h = head_at(raw, p)->0;
    if h.major == 0 || h.major == 1 || h.major == 7 {
    } else if h.major == 2 || h.major == 3 {
    } else if h.major == 4 {
        lemma_items_move(raw, b, at, h.end, h.arg as nat, (depth - 1) as nat);
    } else if h.major == 5 {
        lemma_items_move(raw, b, at, h.end, 2 * (h.arg as nat), (depth - 1) as nat);
    } else {
        lemma_item_moves(raw, b, at, h.end, (depth - 1) as nat);
    }
}

/// Items read the same wherever the bytes that hold them stand.
pub proof fn lemma_items_move(raw: Seq<u8>, b: Seq<u8>, at: int, p: int, count: nat, depth: nat)
    requires
        holds_at(b, at, raw),
        items_end(raw, p, count, depth) is Some,
    ensures
        items_end(b, at + p, count, depth) == Some(at + items_end(raw, p, count, depth)->0),
    decreases depth, count + 1,
{
    if count > 0 {
        lemma_item_moves(raw, b, at, p, depth);
        lemma_items_move(raw, b, at, item_end(raw, p, depth)->0, (count - 1) as nat, depth);
    }
}

/// Skips the item at `pos`: the position behind it.
pub fn skip_item(b: &[u8], pos: usize, depth: usize) -> (r: Option<usize>)
    ensures
        match r {
            Some(end) => item_end(b@, pos as int, depth as nat) == Some(end as int) && pos < end
                <= b@.len(),
            None => item_end(b@, pos as int, depth as nat) is None,
        },
    decreases depth, 0nat,
{
    let (major, arg, end) = match read_head(b, pos) {
        Some(h) => h,
        None => {
            return None;
        },
    };
    if major == 0 || major == MAJOR_NEGATIVE || major == MAJOR_SIMPLE {
        return Some(end);
    }
    if major == 2 || major == 3 {
        if arg > (b.len() - end) as u64 {
            return None;
        }
        return Some(end + arg as usize);
    }
    if depth == 0 {
        return None;
    }
    if major == MAJOR_ARRAY {
        skip_items(b, end, arg, false, depth - 1)
    } else if major == MAJOR_MAP {
        skip_items(b, end, arg, true, depth - 1)
    } else {
        skip_item(b, end, depth - 1)
    }
}

/// How many items `count` entries are: one each, or two each where the
/// entries are pairs.
pub open spec fn entries_items(count: u64, pairs: bool) -> nat {
    if pairs {
        2 * (count as nat)
    } else {
        count as nat
    }
}

/// Skips `count` entries from `pos` on, each one item, or two where `pairs`
/// is set: the position behind the last.
pub fn skip_items(b: &[u8], pos: usize, count: u64, pairs: bool, depth: usize) -> (r: Option<usize>)
    requires
        pos <= b@.len(),
    ensures
        match r {
            Some(end) => items_end(b@, pos as int, entries_items(count, pairs), depth as nat)
                == Some(end as int) && pos <= end <= b@.len(),
            None => items_end(b@, pos as int, entries_items(count, pairs), depth as nat) is None,
        },
    decreases depth, 1nat,
{
    let mut at: usize = pos;
    let mut left: u64 = count;
    while left > 0
        invariant
            pos <= at <= b@.len(),
            items_end(b@, pos as int, entries_items(count, pairs), depth as nat) == items_end(
                b@,
                at as int,
                entries_items(left, pairs),
                depth as nat,
            ),
        decreases left,
    {
        let ghost n = entries_items(left, pairs);
        assert(n > 0);
        assert(items_end(b@, at as int, n, depth as nat) == match item_end(
            b@,
            at as int,
            depth as nat,
        ) {
            Some(e) => items_end(b@, e, (n - 1) as nat, depth as nat),
            None => None,
        });
        let first = match skip_item(b, at, depth) {
            Some(e) => e,
            None => {
                return None;
            },
        };
        let next = if pairs {
            assert(n >= 2);
            assert(items_end(b@, first as int, (n - 1) as nat, depth as nat) == match item_end(
                b@,
                first as int,
                depth as nat,
            ) {
                Some(e) => items_end(b@, e, (n - 2) as nat, depth as nat),
                None => None,
            });
            match skip_item(b, first, depth) {
                Some(e) => e,
                None => {
                    return None;
                },
            }
        } else {
            first
        };
        at = next;
        left = left - 1;
        assert(entries_items(left, pairs) == if pairs {
            (n - 2) as nat
        } else {
            (n - 1) as nat
        });
    }
    Some(at)
}

} // verus!
