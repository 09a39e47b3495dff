//! Document identifiers: UUIDs carried as their 128 bits.

use vstd::prelude::*;
use vstd::string::*;

verus! {

/// What `uuid::Uuid::parse_str` makes of a text: the 128 bits of the
/// identifier it spells, or `None` where it spells none.
pub uninterp spec fn uuid_of_text(text: Seq<char>) -> Option<u128>;

/// Calls `uuid::Uuid::parse_str` and hands back the identifier's bits
/// (`Uuid::as_u128`). The result is a function of the text alone; it is known
/// here only by its name, `uuid_of_text`.
#[verifier::external_body]
pub(crate) fn parse_uuid(text: &str) -> (r: Option<u128>)
    ensures
        r == uuid_of_text(text@),
{
    uuid::Uuid::parse_str(text).ok().map(|u| u.as_u128())
}

/// Sixteen to the power `k`.
pub open spec fn pow16(k: nat) -> int
    decreases k,
{
    if k == 0 {
        1
    } else {
        16 * pow16((k - 1) as nat)
    }
}

/// The hexadecimal digit for a value below sixteen.
pub open spec fn hex_char(d: int) -> char {
    if d == 0 {
        '0'
    } else if d == 1 {
        '1'
    } else if d == 2 {
        '2'
    } else if d == 3 {
        '3'
    } else if d == 4 {
        '4'
    } else if d == 5 {
        '5'
    } else if d == 6 {
        '6'
    } else if d == 7 {
        '7'
    } else if d == 8 {
        '8'
    } else if d == 9 {
        '9'
    } else if d == 10 {
        'a'
    } else if d == 11 {
        'b'
    } else if d == 12 {
        'c'
    } else if d == 13 {
        'd'
    } else if d == 14 {
        'e'
    } else {
        'f'
    }
}

/// The hexadecimal digit of `id` at place `k`, the places counted from the
/// least significant.
pub open spec fn hex_place(id: u128, k: nat) -> int {
    (id as int / pow16(k)) % 16
}

/// The thirty-two hexadecimal digits of an identifier, most significant
/// first.
pub open spec fn uuid_hex(id: u128) -> Seq<char> {
    Seq::new(32, |i: int| hex_char(hex_place(id, (31 - i) as nat)))
}

/// How an identifier is written: its hexadecimal digits in lower case, in
/// groups of eight, four, four, four and twelve with hyphens between them.
pub open spec fn uuid_text(id: u128) -> Seq<char> {
    let h = uuid_hex(id);
    h.subrange(0, 8) + seq!['-'] + h.subrange(8, 12) + seq!['-'] + h.subrange(12, 16) + seq!['-']
        + h.subrange(16, 20) + seq!['-'] + h.subrange(20, 32)
}

/// Powers of sixteen are positive.
pub proof fn lemma_pow16_positive(k: nat)
    ensures
        pow16(k) > 0,
    decreases k,
{
    if k > 0 {
        lemma_pow16_positive((k - 1) as nat);
    }
}

fn hex_str(d: u8) -> (r: &'static str)
    requires
        d < 16,
    ensures
        r@ == seq![hex_char(d as int)],
{
    proof {
        reveal_strlit("0");
        reveal_strlit("1");
        reveal_strlit("2");
        reveal_strlit("3");
        reveal_strlit("4");
        reveal_strlit("5");
        reveal_strlit("6");
        reveal_strlit("7");
        reveal_strlit("8");
        reveal_strlit("9");
        reveal_strlit("a");
        reveal_strlit("b");
        reveal_strlit("c");
        reveal_strlit("d");
        reveal_strlit("e");
        reveal_strlit("f");
    }
    let r = if d == 0 {
        "0"
    } else if d == 1 {
        "1"
    } else if d == 2 {
        "2"
    } else if d == 3 {
        "3"
    } else if d == 4 {
        "4"
    } else if d == 5 {
        "5"
    } else if d == 6 {
        "6"
    } else if d == 7 {
        "7"
    } else if d == 8 {
        "8"
    } else if d == 9 {
        "9"
    } else if d == 10 {
        "a"
    } else if d == 11 {
        "b"
    } else if d == 12 {
        "c"
    } else if d == 13 {
        "d"
    } else if d == 14 {
        "e"
    } else {
        "f"
    };
    assert(r@ =~= seq![hex_char(d as int)]);
    r
}

/// The hexadecimal digits of an identifier as values, least significant
/// first.
fn hex_places(id: u128) -> (r: Vec<u8>)
    ensures
        r@.len() == 32,
        forall|k: int| 0 <= k < 32 ==> #[trigger] r@[k] == hex_place(id, k as nat),
{
    let mut digits: Vec<u8> = Vec::new();
    let mut cur: u128 = id;
    let mut j: usize = 0;
    while j < 32
        invariant
            j <= 32,
            digits@.len() == j,
            cur as int == id as int / pow16(j as nat),
            forall|k: int| 0 <= k < j ==> #[trigger] digits@[k] == hex_place(id, k as nat),
        decreases 32 - j,
    {
        proof {
            lemma_pow16_positive(j as nat);
            vstd::arithmetic::div_mod::lemma_div_denominator(id as int, pow16(j as nat), 16);
            assert(pow16((j + 1) as nat) == 16 * pow16(j as nat));
            assert(pow16(j as nat) * 16 == 16 * pow16(j as nat)) by (nonlinear_arith);
        }
        digits.push((cur % 16) as u8);
        cur = cur / 16;
        j += 1;
    }
    digits
}

/// The thirty-two hexadecimal digits of an identifier, most significant
/// first.
fn hex_string(id: u128) -> (r: String)
    ensures
        r@ == uuid_hex(id),
{
    let places = hex_places(id);
    let mut out = String::new();
    let mut i: usize = 0;
    assert(out@ =~= uuid_hex(id).take(0));
    while i < 32
        invariant
            i <= 32,
            places@.len() == 32,
            forall|k: int| 0 <= k < 32 ==> #[trigger] places@[k] == hex_place(id, k as nat),
            out@ == uuid_hex(id).take(i as int),
        decreases 32 - i,
    {
        let d = places[31 - i];
        assert(d == hex_place(id, (31 - i) as nat));
        out.append(hex_str(d));
        assert(out@ =~= uuid_hex(id).take(i + 1));
        i += 1;
    }
    assert(uuid_hex(id).take(32) =~= uuid_hex(id));
    out
}

/// Writes an identifier as text: lower-case hexadecimal in hyphenated
/// groups.
pub fn format_uuid(id: u128) -> (r: String)
    ensures
        r@ == uuid_text(id),
{
    let h = hex_string(id);
    let s = h.as_str();
    let mut out = String::from_str(s.substring_char(0, 8));
    out.append("-");
    out.append(s.substring_char(8, 12));
    out.append("-");
    out.append(s.substring_char(12, 16));
    out.append("-");
    out.append(s.substring_char(16, 20));
    out.append("-");
    out.append(s.substring_char(20, 32));
    proof {
        reveal_strlit("-");
        assert("-"@ =~= seq!['-']);
    }
    out
}

} // verus!
