//! Text that goes into SQL statements.

use crate::text::join3;
use vstd::prelude::*;
use vstd::string::*;

verus! {

/// How one character is written inside a quoted SQL literal: a backslash
/// and a single quote are doubled, any other character stands for itself.
pub open spec fn escaped_char(c: char) -> Seq<char> {
    if c == '\\' {
        seq!['\\', '\\']
    } else if c == '\'' {
        seq!['\'', '\'']
    } else {
        seq![c]
    }
}

/// `s` with each of its characters escaped.
pub open spec fn escaped(s: Seq<char>) -> Seq<char>
    decreases s.len(),
{
    if s.len() == 0 {
        Seq::empty()
    } else {
        escaped(s.drop_last()) + escaped_char(s.last())
    }
}

/// The statement that sets the organisation of a transaction, by which the
/// store's row rules tell rows apart.
pub open spec fn org_policy_of(org: Seq<char>) -> Seq<char> {
    "SET LOCAL app.orgs = '"@ + escaped(org) + "'"@
}

/// Escapes a text for use between single quotes in SQL: backslashes first,
/// then single quotes.
pub fn escape_sql_string_literal(s: &str) -> (r: String)
    ensures
        r@ == escaped(s@),
{
    let n: usize = s.unicode_len();
    let mut out = String::new();
    let mut i: usize = 0;
    assert(s@.subrange(0, 0) =~= Seq::empty());
    while i < n
        invariant
            i <= n,
            n == s@.len(),
            out@ == escaped(s@.subrange(0, i as int)),
        decreases n - i,
    {
        let c = s.get_char(i);
        proof {
            let next = s@.subrange(0, i + 1);
            assert(next.drop_last() =~= s@.subrange(0, i as int));
            assert(next.last() == c);
            reveal_strlit("\\\\");
            reveal_strlit("''");
            assert("\\\\"@ =~= seq!['\\', '\\']);
            assert("''"@ =~= seq!['\'', '\'']);
        }
        if c == '\\' {
            out.append("\\\\");
        } else if c == '\'' {
            out.append("''");
        } else {
            let one = s.substring_char(i, i + 1);
            assert(one@ =~= seq![c]);
            out.append(one);
        }
        i += 1;
    }
    assert(s@.subrange(0, n as int) =~= s@);
    out
}

/// The statement that opens every transaction for organisation `org`.
pub fn org_policy_statement(org: &str) -> (r: String)
    ensures
        r@ == org_policy_of(org@),
{
    let safe = escape_sql_string_literal(org);
    join3("SET LOCAL app.orgs = '", safe.as_str(), "'")
}

} // verus!
