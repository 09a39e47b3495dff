//! Small string helpers shared by the rest of the crate.

use vstd::prelude::*;
use vstd::string::*;

verus! {

/// An optional text as a value.
pub open spec fn opt_text(s: Option<String>) -> Option<Seq<char>> {
    match s {
        Some(s) => Some(s@),
        None => None,
    }
}

/// An optional borrowed text as a value.
pub open spec fn text_of(s: Option<&str>) -> Option<Seq<char>> {
    match s {
        Some(s) => Some(s@),
        None => None,
    }
}

/// An optional list of texts as a value.
pub open spec fn list_of(items: Option<&Vec<String>>) -> Option<Seq<String>> {
    match items {
        Some(v) => Some(v@),
        None => None,
    }
}

/// `prefix` is an initial segment of `s`.
pub open spec fn has_prefix(s: Seq<char>, prefix: Seq<char>) -> bool {
    prefix.len() <= s.len() && s.subrange(0, prefix.len() as int) == prefix
}

/// Some element of `items` reads exactly `wanted`.
pub open spec fn holds(items: Seq<String>, wanted: Seq<char>) -> bool {
    exists|i: int| 0 <= i < items.len() && #[trigger] items[i]@ == wanted
}

/// Some element of `items` begins with `prefix`.
pub open spec fn holds_prefixed(items: Seq<String>, prefix: Seq<char>) -> bool {
    exists|i: int| 0 <= i < items.len() && has_prefix(#[trigger] items[i]@, prefix)
}

/// Index of the first element of `items` that begins with `prefix`, or the
/// length of `items` where none does.
pub open spec fn first_prefixed(items: Seq<String>, prefix: Seq<char>) -> int
    decreases items.len(),
{
    if items.len() == 0 {
        0
    } else if has_prefix(items[0]@, prefix) {
        0
    } else {
        1 + first_prefixed(items.subrange(1, items.len() as int), prefix)
    }
}

/// `first_prefixed` is the least index whose element has the prefix.
pub proof fn lemma_first_prefixed(items: Seq<String>, prefix: Seq<char>)
    ensures
        0 <= first_prefixed(items, prefix) <= items.len(),
        first_prefixed(items, prefix) < items.len() ==> has_prefix(
            items[first_prefixed(items, prefix)]@,
            prefix,
        ),
        forall|j: int|
            0 <= j < first_prefixed(items, prefix) ==> !has_prefix(#[trigger] items[j]@, prefix),
        first_prefixed(items, prefix) < items.len() <==> holds_prefixed(items, prefix),
    decreases items.len(),
{
    if items.len() == 0 {
    } else if has_prefix(items[0]@, prefix) {
    } else {
        let rest = items.subrange(1, items.len() as int);
        lemma_first_prefixed(rest, prefix);
        let k = first_prefixed(rest, prefix);
        assert forall|j: int| 0 <= j < 1 + k implies !has_prefix(#[trigger] items[j]@, prefix) by {
            if j > 0 {
                assert(rest[j - 1] == items[j]);
            }
        }
        if k < rest.len() {
            assert(rest[k] == items[k + 1]);
        }
        if holds_prefixed(items, prefix) {
            let i = choose|i: int| 0 <= i < items.len() && has_prefix(#[trigger] items[i]@, prefix);
            assert(i >= 1 + k);
        }
    }
}

/// Whether two string slices hold the same characters.
pub fn str_eq(a: &str, b: &str) -> (r: bool)
    ensures
        r == (a@ == b@),
{
    let x = a.to_owned();
    let y = b.to_owned();
    x == y
}

/// Whether `s` begins with `prefix`.
pub fn starts_with(s: &str, prefix: &str) -> (r: bool)
    ensures
        r == has_prefix(s@, prefix@),
{
    let n: usize = s.unicode_len();
    let m: usize = prefix.unicode_len();
    if m > n {
        return false;
    }
    let head = s.substring_char(0, m);
    str_eq(head, prefix)
}

/// What is left of `s` after its first `prefix.len()` characters.
pub fn strip_prefix<'a>(s: &'a str, prefix: &str) -> (r: &'a str)
    requires
        has_prefix(s@, prefix@),
    ensures
        r@ == s@.subrange(prefix@.len() as int, s@.len() as int),
{
    let n: usize = s.unicode_len();
    let m: usize = prefix.unicode_len();
    s.substring_char(m, n)
}

/// The two slices joined, `a` first.
pub fn join2(a: &str, b: &str) -> (r: String)
    ensures
        r@ == a@ + b@,
{
    String::from_str(a).concat(b)
}

/// The three slices joined in order.
pub fn join3(a: &str, b: &str, c: &str) -> (r: String)
    ensures
        r@ == a@ + b@ + c@,
{
    String::from_str(a).concat(b).concat(c)
}

/// Whether some element of `items` reads exactly `wanted`.
pub fn contains_str(items: &Vec<String>, wanted: &str) -> (r: bool)
    ensures
        r == holds(items@, wanted@),
{
    let mut i: usize = 0;
    while i < items.len()
        invariant
            i <= items.len(),
            forall|j: int| 0 <= j < i ==> #[trigger] items@[j]@ != wanted@,
        decreases items.len() - i,
    {
        if str_eq(items[i].as_str(), wanted) {
            return true;
        }
        i += 1;
    }
    false
}

/// Index of the first element of `items` that begins with `prefix`.
pub fn find_prefixed(items: &Vec<String>, prefix: &str) -> (r: Option<usize>)
    ensures
        match r {
            Some(i) => i == first_prefixed(items@, prefix@) && i < items.len(),
            None => first_prefixed(items@, prefix@) == items.len(),
        },
{
    proof {
        lemma_first_prefixed(items@, prefix@);
    }
    let mut i: usize = 0;
    while i < items.len()
        invariant
            i <= items.len(),
            i <= first_prefixed(items@, prefix@) <= items.len(),
            first_prefixed(items@, prefix@) < items.len() ==> has_prefix(
                items@[first_prefixed(items@, prefix@)]@,
                prefix@,
            ),
            forall|j: int|
                0 <= j < first_prefixed(items@, prefix@) ==> !has_prefix(
                    #[trigger] items@[j]@,
                    prefix@,
                ),
        decreases items.len() - i,
    {
        if starts_with(items[i].as_str(), prefix) {
            return Some(i);
        }
        i += 1;
    }
    None
}

/// The decimal digits of `n`, most significant first, without leading zeros.
pub open spec fn decimal(n: nat) -> Seq<char>
    decreases n,
{
    if n < 10 {
        seq![digit_char(n)]
    } else {
        decimal(n / 10).push(digit_char(n % 10))
    }
}

/// The character for one decimal digit.
pub open spec fn digit_char(d: nat) -> char {
    if d == 0 {
        '0'
    } else if d == 1 {
        '1'
    } else if d == 2 {
        '2'
    } else if d == 3 {
        '3'
    } else if d == 4 {
        '4'
    } else if d == 5 {
        '5'
    } else if d == 6 {
        '6'
    } else if d == 7 {
        '7'
    } else if d == 8 {
        '8'
    } else {
        '9'
    }
}

fn digit_str(d: u64) -> (r: &'static str)
    requires
        d < 10,
    ensures
        r@ == seq![digit_char(d as nat)],
{
    proof {
        reveal_strlit("0");
        reveal_strlit("1");
        reveal_strlit("2");
        reveal_strlit("3");
        reveal_strlit("4");
        reveal_strlit("5");
        reveal_strlit("6");
        reveal_strlit("7");
        reveal_strlit("8");
        reveal_strlit("9");
    }
    let r = if d == 0 {
        "0"
    } else if d == 1 {
        "1"
    } else if d == 2 {
        "2"
    } else if d == 3 {
        "3"
    } else if d == 4 {
        "4"
    } else if d == 5 {
        "5"
    } else if d == 6 {
        "6"
    } else if d == 7 {
        "7"
    } else if d == 8 {
        "8"
    } else {
        "9"
    };
    assert(r@ =~= seq![digit_char(d as nat)]);
    r
}

/// `n` written in decimal.
pub fn decimal_string(n: u64) -> (r: String)
    ensures
        r@ == decimal(n as nat),
    decreases n,
{
    if n < 10 {
        String::from_str(digit_str(n))
    } else {
        let head = decimal_string(n / 10);
        let r = head.concat(digit_str(n % 10));
        assert(r@ =~= decimal(n as nat));
        r
    }
}

/// The text that UTF-8 bytes spell, or `None` where they are not UTF-8.
/// This is `String::from_utf8` of the standard library, which documents
/// both: the bytes are taken over unchanged, and an error comes exactly for
/// bytes that are not valid UTF-8.
#[verifier::external_body]
pub(crate) fn utf8_to_string(bytes: Vec<u8>) -> (r: Option<String>)
    ensures
        match r {
            Some(s) => vstd::utf8::valid_utf8(bytes@) && s@ == vstd::utf8::decode_utf8(bytes@),
            None => !vstd::utf8::valid_utf8(bytes@),
        },
{
    String::from_utf8(bytes).ok()
}

/// White space: the characters that Unicode gives the property
/// `White_Space`.
pub open spec fn is_white(c: char) -> bool {
    let n = c as u32;
    ||| 0x09 <= n <= 0x0d
    ||| n == 0x20
    ||| n == 0x85
    ||| n == 0xa0
    ||| n == 0x1680
    ||| 0x2000 <= n <= 0x200a
    ||| n == 0x2028
    ||| n == 0x2029
    ||| n == 0x202f
    ||| n == 0x205f
    ||| n == 0x3000
}

/// How many characters at the front of `s` are white space.
pub open spec fn white_front(s: Seq<char>) -> int
    decreases s.len(),
{
    if s.len() > 0 && is_white(s[0]) {
        1 + white_front(s.drop_first())
    } else {
        0
    }
}

/// How many characters at the back of `s` are white space.
pub open spec fn white_back(s: Seq<char>) -> int
    decreases s.len(),
{
    if s.len() > 0 && is_white(s.last()) {
        1 + white_back(s.drop_last())
    } else {
        0
    }
}

/// A text without the white space at its ends.
pub open spec fn trimmed(s: Seq<char>) -> Seq<char> {
    let front = white_front(s);
    let rest = s.subrange(front, s.len() as int);
    rest.subrange(0, rest.len() - white_back(rest))
}

/// The white space at the front of a text is within the text.
pub proof fn lemma_white_front(s: Seq<char>)
    ensures
        0 <= white_front(s) <= s.len(),
        forall|i: int| 0 <= i < white_front(s) ==> is_white(#[trigger] s[i]),
        white_front(s) < s.len() ==> !is_white(s[white_front(s)]),
    decreases s.len(),
{
    if s.len() > 0 && is_white(s[0]) {
        let rest = s.drop_first();
        lemma_white_front(rest);
        assert forall|i: int| 0 <= i < white_front(s) implies is_white(#[trigger] s[i]) by {
            if i > 0 {
                assert(rest[i - 1] == s[i]);
            }
        }
        if white_front(s) < s.len() {
            assert(rest[white_front(rest)] == s[white_front(s)]);
        }
    }
}

/// The white space at the back of a text is within the text.
pub proof fn lemma_white_back(s: Seq<char>)
    ensures
        0 <= white_back(s) <= s.len(),
        forall|i: int| s.len() - white_back(s) <= i < s.len() ==> is_white(#[trigger] s[i]),
        white_back(s) < s.len() ==> !is_white(s[s.len() - white_back(s) - 1]),
    decreases s.len(),
{
    if s.len() > 0 && is_white(s.last()) {
        let rest = s.drop_last();
        lemma_white_back(rest);
        assert forall|i: int| s.len() - white_back(s) <= i < s.len() implies is_white(
            #[trigger] s[i],
        ) by {
            if i < s.len() - 1 {
                assert(rest[i] == s[i]);
            }
        }
        if white_back(s) < s.len() {
            assert(rest[rest.len() - white_back(rest) - 1] == s[s.len() - white_back(s) - 1]);
        }
    }
}

/// Where the white space at the front ends: at the first character that is
/// none.
pub proof fn lemma_white_front_is(s: Seq<char>, n: int)
    requires
        0 <= n <= s.len(),
        forall|i: int| 0 <= i < n ==> is_white(#[trigger] s[i]),
        n < s.len() ==> !is_white(s[n]),
    ensures
        white_front(s) == n,
{
    lemma_white_front(s);
    let w = white_front(s);
    if w < n {
        assert(is_white(s[w]));
    } else if w > n {
        assert(is_white(s[n]));
    }
}

/// Where the white space at the back begins: behind the last character that
/// is none.
pub proof fn lemma_white_back_is(s: Seq<char>, n: int)
    requires
        0 <= n <= s.len(),
        forall|i: int| s.len() - n <= i < s.len() ==> is_white(#[trigger] s[i]),
        n < s.len() ==> !is_white(s[s.len() - n - 1]),
    ensures
        white_back(s) == n,
{
    lemma_white_back(s);
    let w = white_back(s);
    if w < n {
        assert(is_white(s[s.len() - w - 1]));
    } else if w > n {
        assert(is_white(s[s.len() - n - 1]));
    }
}

/// Whether a character is white space.
pub fn white(c: char) -> (r: bool)
    ensures
        r == is_white(c),
{
    let n: u32 = c as u32;
    (0x09 <= n && n <= 0x0d) || n == 0x20 || n == 0x85 || n == 0xa0 || n == 0x1680 || (0x2000 <= n
        && n <= 0x200a) || n == 0x2028 || n == 0x2029 || n == 0x202f || n == 0x205f || n == 0x3000
}

/// A text without the white space at its ends.
pub fn trim_str(s: &str) -> (r: &str)
    ensures
        r@ == trimmed(s@),
{
    let n: usize = s.unicode_len();
    let mut front: usize = 0;
    while front < n && white(s.get_char(front))
        invariant
            front <= n,
            n == s@.len(),
            forall|i: int| 0 <= i < front ==> is_white(#[trigger] s@[i]),
        decreases n - front,
    {
        front += 1;
    }
    proof {
        lemma_white_front_is(s@, front as int);
    }
    let ghost rest = s@.subrange(front as int, n as int);
    let mut back: usize = n;
    while back > front && white(s.get_char(back - 1))
        invariant
            front <= back <= n,
            n == s@.len(),
            forall|i: int| back <= i < n ==> is_white(#[trigger] s@[i]),
        decreases back,
    {
        back -= 1;
    }
    proof {
        assert forall|i: int| rest.len() - (n - back) <= i < rest.len() implies is_white(
            #[trigger] rest[i],
        ) by {
            assert(rest[i] == s@[front + i]);
        }
        if n - back < rest.len() {
            assert(rest[rest.len() - (n - back) - 1] == s@[back - 1]);
        }
        lemma_white_back_is(rest, (n - back) as int);
        assert(s@.subrange(front as int, back as int) =~= rest.subrange(
            0,
            rest.len() - white_back(rest),
        ));
    }
    s.substring_char(front, back)
}

/// What `str::to_lowercase` of the standard library makes of a text.
pub uninterp spec fn lowercased(s: Seq<char>) -> Seq<char>;

/// Calls `str::to_lowercase`.
#[verifier::external_body]
pub(crate) fn lower_str(s: &str) -> (r: String)
    ensures
        r@ == lowercased(s@),
{
    s.to_lowercase()
}

} // verus!
