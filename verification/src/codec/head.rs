//! Heads of CBOR items: a major type and an argument.

use vstd::prelude::*;

verus! {

/// Major type of an unsigned integer.
pub const MAJOR_UINT: u8 = 0;

/// Major type of a byte string.
pub const MAJOR_BYTES: u8 = 2;

/// Major type of a text string.
pub const MAJOR_TEXT: u8 = 3;

/// Major type of an array.
pub const MAJOR_ARRAY: u8 = 4;

/// Major type of a map.
pub const MAJOR_MAP: u8 = 5;

/// A head that was read: the major type, the argument, and the position
/// behind the head.
pub struct Head {
    pub major: u8,
    pub arg: u64,
    pub end: int,
}

/// The number that the bytes spell, most significant byte first.
pub open spec fn be_value(b: Seq<u8>) -> nat
    decreases b.len(),
{
    if b.len() == 0 {
        0
    } else {
        be_value(b.drop_last()) * 256 + b.last() as nat
    }
}

/// How many bytes of argument follow a first byte with the low bits `info`;
/// `None` for the reserved values and for the marker of an indefinite length.
pub open spec fn extra_len(info: u8) -> Option<int> {
    if info < 24 {
        Some(0)
    } else if info == 24 {
        Some(1)
    } else if info == 25 {
        Some(2)
    } else if info == 26 {
        Some(4)
    } else if info == 27 {
        Some(8)
    } else {
        None
    }
}

/// The head that stands at `pos` in `b`, if one stands there whole.
pub open spec fn head_at(b: Seq<u8>, pos: int) -> Option<Head> {
    if 0 <= pos < b.len() {
        let major = b[pos] / 32;
        let info = b[pos] % 32;
        match extra_len(info) {
            Some(n) => if n == 0 {
                Some(Head { major, arg: info as u64, end: pos + 1 })
            } else if pos + 1 + n <= b.len() {
                Some(
                    Head {
                        major,
                        arg: be_value(b.subrange(pos + 1, pos + 1 + n)) as u64,
                        end: pos + 1 + n,
                    },
                )
            } else {
                None
            },
            None => None,
        }
    } else {
        None
    }
}

/// The bytes of the shortest head for a major type and an argument.
pub open spec fn head_bytes(major: u8, arg: u64) -> Seq<u8> {
    let m = (major * 32) as u8;
    if arg < 24 {
        seq![(m + arg) as u8]
    } else if arg < 0x100 {
        seq![(m + 24) as u8, arg as u8]
    } else if arg < 0x1_0000 {
        seq![(m + 25) as u8, (arg / 0x100) as u8, (arg % 0x100) as u8]
    } else if arg < 0x1_0000_0000 {
        seq![
            (m + 26) as u8,
            (arg / 0x100_0000) as u8,
            (arg / 0x1_0000 % 0x100) as u8,
            (arg / 0x100 % 0x100) as u8,
            (arg % 0x100) as u8,
        ]
    } else {
        seq![
            (m + 27) as u8,
            (arg / 0x100_0000_0000_0000) as u8,
            (arg / 0x1_0000_0000_0000 % 0x100) as u8,
            (arg / 0x100_0000_0000 % 0x100) as u8,
            (arg / 0x1_0000_0000 % 0x100) as u8,
            (arg / 0x100_0000 % 0x100) as u8,
            (arg / 0x1_0000 % 0x100) as u8,
            (arg / 0x100 % 0x100) as u8,
            (arg % 0x100) as u8,
        ]
    }
}

/// `be_value` of up to eight bytes, written out.
pub proof fn lemma_be_value_unfold(b: Seq<u8>)
    requires
        b.len() <= 8,
    ensures
        b.len() == 1 ==> be_value(b) == b[0],
        b.len() == 2 ==> be_value(b) == b[0] * 0x100 + b[1],
        b.len() == 4 ==> be_value(b) == b[0] * 0x100_0000 + b[1] * 0x1_0000 + b[2] * 0x100 + b[3],
        b.len() == 8 ==> be_value(b) == b[0] * 0x100_0000_0000_0000 + b[1] * 0x1_0000_0000_0000
            + b[2] * 0x100_0000_0000 + b[3] * 0x1_0000_0000 + b[4] * 0x100_0000 + b[5] * 0x1_0000
            + b[6] * 0x100 + b[7],
        be_value(b) <= u64::MAX,
{
    reveal_with_fuel(be_value, 10);
    if b.len() >= 1 {
        let less1 = b.drop_last();
        if less1.len() >= 1 {
            let less2 = less1.drop_last();
            if less2.len() >= 1 {
                let less3 = less2.drop_last();
                if less3.len() >= 1 {
                    let less4 = less3.drop_last();
                    if less4.len() >= 1 {
                        let less5 = less4.drop_last();
                        if less5.len() >= 1 {
                            let less6 = less5.drop_last();
                            if less6.len() >= 1 {
                                let less7 = less6.drop_last();
                                if less7.len() >= 1 {
                                    let less8 = less7.drop_last();
                                    assert(less8.len() == 0);
                                }
                            }
                        }
                    }
                }
            }
        }
    }
}

/// The bytes that `head_bytes` writes for an argument spell that argument.
pub proof fn lemma_split_bytes(arg: u64)
    ensures
        arg < 0x1_0000 ==> (arg / 0x100) * 0x100 + arg % 0x100 == arg && arg / 0x100 < 0x100,
        arg < 0x1_0000_0000 ==> (arg / 0x100_0000) * 0x100_0000 + (arg / 0x1_0000 % 0x100)
            * 0x1_0000 + (arg / 0x100 % 0x100) * 0x100 + arg % 0x100 == arg && arg / 0x100_0000
            < 0x100,
        (arg / 0x100_0000_0000_0000) * 0x100_0000_0000_0000 + (arg / 0x1_0000_0000_0000 % 0x100)
            * 0x1_0000_0000_0000 + (arg / 0x100_0000_0000 % 0x100) * 0x100_0000_0000 + (arg
            / 0x1_0000_0000 % 0x100) * 0x1_0000_0000 + (arg / 0x100_0000 % 0x100) * 0x100_0000 + (
        arg / 0x1_0000 % 0x100) * 0x1_0000 + (arg / 0x100 % 0x100) * 0x100 + arg % 0x100 == arg,
        arg / 0x100_0000_0000_0000 < 0x100,
{
    let a = arg as int;
    let q1 = a / 0x100;
    let q2 = a / 0x1_0000;
    let q3 = a / 0x100_0000;
    let q4 = a / 0x1_0000_0000;
    let q5 = a / 0x100_0000_0000;
    let q6 = a / 0x1_0000_0000_0000;
    let q7 = a / 0x100_0000_0000_0000;
    assert(q2 == q1 / 0x100);
    assert(q3 == q2 / 0x100);
    assert(q4 == q3 / 0x100);
    assert(q5 == q4 / 0x100);
    assert(q6 == q5 / 0x100);
    assert(q7 == q6 / 0x100);
    assert(a == q1 * 0x100 + a % 0x100);
    assert(q1 == q2 * 0x100 + q1 % 0x100);
    assert(q2 == q3 * 0x100 + q2 % 0x100);
    assert(q3 == q4 * 0x100 + q3 % 0x100);
    assert(q4 == q5 * 0x100 + q4 % 0x100);
    assert(q5 == q6 * 0x100 + q5 % 0x100);
    assert(q6 == q7 * 0x100 + q6 % 0x100);
}

/// Reading the shortest head of `(major, arg)` gives back `major` and `arg`,
/// whatever follows it.
pub proof fn lemma_head_round_trip(b: Seq<u8>, pos: int, major: u8, arg: u64)
    requires
        major < 8,
        0 <= pos,
        pos + head_bytes(major, arg).len() <= b.len(),
        b.subrange(pos, pos + head_bytes(major, arg).len()) == head_bytes(major, arg),
    ensures
        head_at(b, pos) == Some(
            Head { major, arg, end: pos + head_bytes(major, arg).len() as int },
        ),
{
    let h = head_bytes(major, arg);
    let n = h.len() as int;
    assert forall|i: int| 0 <= i < n implies b[pos + i] == h[i] by {
        assert(b.subrange(pos, pos + n)[i] == h[i]);
    }
    let m = (major * 32) as u8;
    assert(m == major * 32);
    let info: u8 = if arg < 24 {
        arg as u8
    } else if arg < 0x100 {
        24
    } else if arg < 0x1_0000 {
        25
    } else if arg < 0x1_0000_0000 {
        26
    } else {
        27
    };
    assert(h[0] == m + info);
    assert(b[pos] == major * 32 + info);
    assert(b[pos] / 32 == major && b[pos] % 32 == info);
    if arg >= 24 {
        let extra = b.subrange(pos + 1, pos + n);
        assert(extra.len() == n - 1);
        assert forall|i: int| 0 <= i < n - 1 implies extra[i] == h[i + 1] by {}
        lemma_be_value_unfold(extra);
        lemma_split_bytes(arg);
        assert(be_value(extra) == arg);
    }
}

/// Appends the shortest head for `(major, arg)` to `out`.
pub fn write_head(out: &mut Vec<u8>, major: u8, arg: u64)
    requires
        major < 8,
    ensures
        final(out)@ == old(out)@ + head_bytes(major, arg),
{
    let m: u8 = major * 32;
    if arg < 24 {
        out.push(m + (arg as u8));
    } else if arg < 0x100 {
        out.push(m + 24);
        out.push(arg as u8);
    } else if arg < 0x1_0000 {
        out.push(m + 25);
        out.push((arg / 0x100) as u8);
        out.push((arg % 0x100) as u8);
    } else if arg < 0x1_0000_0000 {
        out.push(m + 26);
        out.push((arg / 0x100_0000) as u8);
        out.push((arg / 0x1_0000 % 0x100) as u8);
        out.push((arg / 0x100 % 0x100) as u8);
        out.push((arg % 0x100) as u8);
    } else {
        out.push(m + 27);
        out.push((arg / 0x100_0000_0000_0000) as u8);
        out.push((arg / 0x1_0000_0000_0000 % 0x100) as u8);
        out.push((arg / 0x100_0000_0000 % 0x100) as u8);
        out.push((arg / 0x1_0000_0000 % 0x100) as u8);
        out.push((arg / 0x100_0000 % 0x100) as u8);
        out.push((arg / 0x1_0000 % 0x100) as u8);
        out.push((arg / 0x100 % 0x100) as u8);
        out.push((arg % 0x100) as u8);
    }
    assert(out@ =~= old(out)@ + head_bytes(major, arg));
}

/// Reads the head at `pos`: its major type, its argument, and the position
/// behind it.
pub fn read_head(b: &[u8], pos: usize) -> (r: Option<(u8, u64, usize)>)
    ensures
        match r {
            Some((major, arg, end)) => head_at(b@, pos as int) == Some(
                Head { major, arg, end: end as int },
            ) && pos < end <= b@.len(),
            None => head_at(b@, pos as int) is None,
        },
{
    if pos >= b.len() {
        return None;
    }
    let first = b[pos];
    let major = first / 32;
    let info = first % 32;
    if info < 24 {
        return Some((major, info as u64, pos + 1));
    }
    let n: usize = if info == 24 {
        1
    } else if info == 25 {
        2
    } else if info == 26 {
        4
    } else if info == 27 {
        8
    } else {
        return None;
    };
    if b.len() - pos - 1 < n {
        return None;
    }
    proof {
        lemma_be_value_unfold(b@.subrange(pos + 1, pos + 1 + n));
    }
    let s = pos + 1;
    let arg: u64 = if n == 1 {
        b[s] as u64
    } else if n == 2 {
        (b[s] as u64) * 0x100 + (b[s + 1] as u64)
    } else if n == 4 {
        (b[s] as u64) * 0x100_0000 + (b[s + 1] as u64) * 0x1_0000 + (b[s + 2] as u64) * 0x100 + (b[s
            + 3] as u64)
    } else {
        (b[s] as u64) * 0x100_0000_0000_0000 + (b[s + 1] as u64) * 0x1_0000_0000_0000 + (b[s
            + 2] as u64) * 0x100_0000_0000 + (b[s + 3] as u64) * 0x1_0000_0000 + (b[s + 4] as u64)
            * 0x100_0000 + (b[s + 5] as u64) * 0x1_0000 + (b[s + 6] as u64) * 0x100 + (b[s
            + 7] as u64)
    };
    Some((major, arg, pos + 1 + n))
}

} // verus!
