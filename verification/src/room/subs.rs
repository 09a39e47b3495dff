//! Sets of connections, kept as lists without repetition.

use vstd::prelude::*;

verus! {

/// `subs` without `conn`, the others in their order.
pub open spec fn without(subs: Seq<u64>, conn: u64) -> Seq<u64>
    decreases subs.len(),
{
    if subs.len() == 0 {
        Seq::empty()
    } else if subs.last() != conn {
        without(subs.drop_last(), conn).push(subs.last())
    } else {
        without(subs.drop_last(), conn)
    }
}

/// What `without` holds: the members of `subs` other than `conn`, and none
/// of them twice where `subs` has none twice.
pub proof fn lemma_without(subs: Seq<u64>, conn: u64)
    ensures
        forall|c: u64| #[trigger] without(subs, conn).contains(c) <==> (subs.contains(c) && c != conn),
        subs.no_duplicates() ==> without(subs, conn).no_duplicates(),
        without(subs, conn).len() <= subs.len(),
        !subs.contains(conn) ==> without(subs, conn) == subs,
    decreases subs.len(),
{
    if subs.len() > 0 {
        let init = subs.drop_last();
        let last = subs.last();
        lemma_without(init, conn);
        let w0 = without(init, conn);
        let w = without(subs, conn);
        assert forall|c: u64| #[trigger] w.contains(c) <==> (subs.contains(c) && c != conn) by {
            if w.contains(c) {
                let i = choose|i: int| 0 <= i < w.len() && w[i] == c;
                if i < w0.len() {
                    assert(w0[i] == c);
                    assert(w0.contains(c));
                    let j = choose|j: int| 0 <= j < init.len() && init[j] == c;
                    assert(subs[j] == c);
                } else {
                    assert(c == last);
                    assert(subs[subs.len() - 1] == c);
                }
            }
            if subs.contains(c) && c != conn {
                let j = choose|j: int| 0 <= j < subs.len() && subs[j] == c;
                if j < init.len() {
                    assert(init[j] == c);
                    assert(init.contains(c));
                    assert(w0.contains(c));
                    let i = choose|i: int| 0 <= i < w0.len() && w0[i] == c;
                    assert(w[i] == c);
                } else {
                    assert(w[w.len() - 1] == c);
                }
            }
        }
        if subs.no_duplicates() {
            assert forall|i: int, j: int|
                0 <= i < init.len() && 0 <= j < init.len() && i != j implies init[i] != init[j] by {
                assert(subs[i] != subs[j]);
            }
            if last != conn {
                assert(!w0.contains(last)) by {
                    if w0.contains(last) {
                        assert(init.contains(last));
                        let j = choose|j: int| 0 <= j < init.len() && init[j] == last;
                        assert(subs[j] == subs[subs.len() - 1]);
                    }
                }
                assert forall|i: int, j: int|
                    0 <= i < w.len() && 0 <= j < w.len() && i != j implies w[i] != w[j] by {
                    if i < w0.len() && j < w0.len() {
                        assert(w0[i] != w0[j]);
                    } else if i < w0.len() {
                        assert(w0.contains(w0[i]));
                    } else {
                        assert(w0.contains(w0[j]));
                    }
                }
            }
        }
        if !subs.contains(conn) {
            assert(!init.contains(conn)) by {
                if init.contains(conn) {
                    let j = choose|j: int| 0 <= j < init.len() && init[j] == conn;
                    assert(subs[j] == conn);
                }
            }
            assert(last != conn) by {
                assert(subs[subs.len() - 1] == last);
            }
            assert(w =~= subs);
        }
    }
}

/// Whether `conn` is in `subs`.
pub fn has_conn(subs: &Vec<u64>, conn: u64) -> (r: bool)
    ensures
        r == subs@.contains(conn),
{
    let mut i: usize = 0;
    while i < subs.len()
        invariant
            i <= subs.len(),
            forall|j: int| 0 <= j < i ==> subs@[j] != conn,
        decreases subs.len() - i,
    {
        if subs[i] == conn {
            return true;
        }
        i += 1;
    }
    false
}

/// Adds `conn` to `subs` unless it is there already.
pub fn add_conn(subs: &mut Vec<u64>, conn: u64)
    requires
        old(subs)@.no_duplicates(),
    ensures
        final(subs)@.no_duplicates(),
        final(subs)@.to_set() == old(subs)@.to_set().insert(conn),
        old(subs)@.contains(conn) ==> final(subs)@ == old(subs)@,
        !old(subs)@.contains(conn) ==> final(subs)@ == old(subs)@.push(conn),
{
    if !has_conn(subs, conn) {
        subs.push(conn);
        assert forall|c: u64| subs@.to_set().contains(c) <==> old(subs)@.to_set().insert(
            conn,
        ).contains(c) by {
            if subs@.contains(c) {
                let i = choose|i: int| 0 <= i < subs@.len() && subs@[i] == c;
                if i < old(subs)@.len() {
                    assert(old(subs)@[i] == c);
                }
            }
            if old(subs)@.contains(c) {
                let i = choose|i: int| 0 <= i < old(subs)@.len() && old(subs)@[i] == c;
                assert(subs@[i] == c);
            }
            if c == conn {
                assert(subs@[subs@.len() - 1] == c);
            }
        }
        assert(subs@.to_set() =~= old(subs)@.to_set().insert(conn));
    } else {
        assert(subs@.to_set() =~= old(subs)@.to_set().insert(conn));
    }
}

/// The connections of `subs` other than `conn`, in their order.
pub fn others(subs: &Vec<u64>, conn: u64) -> (r: Vec<u64>)
    ensures
        r@ == without(subs@, conn),
{
    let mut out: Vec<u64> = Vec::new();
    let mut i: usize = 0;
    assert(subs@.take(0) =~= Seq::empty());
    while i < subs.len()
        invariant
            i <= subs.len(),
            out@ == without(subs@.take(i as int), conn),
        decreases subs.len() - i,
    {
        proof {
            let next = subs@.take(i + 1);
            assert(next.drop_last() =~= subs@.take(i as int));
            assert(next.last() == subs@[i as int]);
        }
        if subs[i] != conn {
            out.push(subs[i]);
        }
        i += 1;
    }
    assert(subs@.take(subs@.len() as int) =~= subs@);
    out
}

/// Whether no connection stands twice in `subs`.
pub fn all_distinct(subs: &Vec<u64>) -> (r: bool)
    ensures
        r == subs@.no_duplicates(),
{
    let mut i: usize = 0;
    while i < subs.len()
        invariant
            i <= subs.len(),
            forall|a: int, b: int| 0 <= a < i && 0 <= b < subs@.len() && a != b ==> subs@[a] != subs@[b],
        decreases subs.len() - i,
    {
        let mut k: usize = 0;
        while k < subs.len()
            invariant
                i < subs.len(),
                k <= subs.len(),
                forall|b: int| 0 <= b < k && b != i ==> subs@[i as int] != subs@[b],
            decreases subs.len() - k,
        {
            if k != i && subs[k] == subs[i] {
                return false;
            }
            k += 1;
        }
        i += 1;
    }
    true
}

} // verus!
