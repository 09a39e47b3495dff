//! Reading JSON text. Every call into `serde_json` is made here; what it
//! returns is a function of the text alone and is known by name only.

use vstd::prelude::*;
use vstd::string::*;

verus! {

/// The member `key` of the JSON object that `text` spells, as JSON text;
/// `None` where `text` spells no object or the object has no such member.
pub uninterp spec fn json_member_of(text: Seq<char>, key: Seq<char>) -> Option<Seq<char>>;

/// The elements of the JSON array that `text` spells, each as JSON text;
/// `None` where `text` spells no array.
pub uninterp spec fn json_items_of(text: Seq<char>) -> Option<Seq<Seq<char>>>;

/// The string that `text` spells as JSON; `None` where it spells no string.
pub uninterp spec fn json_string_of(text: Seq<char>) -> Option<Seq<char>>;

/// Parses `text` with `serde_json::from_str`, looks the member up with
/// `Value::get` and writes it out with `Value::to_string`.
#[verifier::external_body]
pub(crate) fn json_member(text: &str, key: &str) -> (r: Option<String>)
    ensures
        match r {
            Some(m) => json_member_of(text@, key@) == Some(m@),
            None => json_member_of(text@, key@) is None,
        },
{
    serde_json::from_str::<serde_json::Value>(text).ok().and_then(
        |v| v.get(key).map(|m| m.to_string()),
    )
}

/// Parses `text` with `serde_json::from_str`, takes it as an array with
/// `Value::as_array` and writes each element out with `Value::to_string`.
#[verifier::external_body]
pub(crate) fn json_items(text: &str) -> (r: Option<Vec<String>>)
    ensures
        match r {
            Some(items) => json_items_of(text@) == Some(texts(items@)),
            None => json_items_of(text@) is None,
        },
{
    serde_json::from_str::<serde_json::Value>(text).ok().and_then(
        |v| v.as_array().map(|a| a.iter().map(|x| x.to_string()).collect()),
    )
}

/// Parses `text` with `serde_json::from_str` and takes it as a string with
/// `Value::as_str`.
#[verifier::external_body]
pub(crate) fn json_string(text: &str) -> (r: Option<String>)
    ensures
        match r {
            Some(s) => json_string_of(text@) == Some(s@),
            None => json_string_of(text@) is None,
        },
{
    serde_json::from_str::<serde_json::Value>(text).ok().and_then(
        |v| v.as_str().map(|s| s.to_string()),
    )
}

/// The texts of a list of strings.
pub open spec fn texts(items: Seq<String>) -> Seq<Seq<char>> {
    Seq::new(items.len(), |i: int| items[i]@)
}

/// The texts of a list with one more string are the texts of the list with
/// one more text.
pub proof fn lemma_texts_push(items: Seq<String>, s: String)
    ensures
        texts(items.push(s)) == texts(items).push(s@),
{
    assert(texts(items.push(s)) =~= texts(items).push(s@));
}

/// Those of the JSON texts `items` that spell a string, as strings, in
/// their order.
pub open spec fn strings_among(items: Seq<Seq<char>>) -> Seq<Seq<char>>
    decreases items.len(),
{
    if items.len() == 0 {
        Seq::empty()
    } else {
        match json_string_of(items.last()) {
            Some(s) => strings_among(items.drop_last()).push(s),
            None => strings_among(items.drop_last()),
        }
    }
}

/// The strings that the JSON texts `items` spell, where each of them spells
/// one.
pub open spec fn strings_all(items: Seq<Seq<char>>) -> Option<Seq<Seq<char>>> {
    if forall|i: int| 0 <= i < items.len() ==> json_string_of(#[trigger] items[i]) is Some {
        Some(strings_among(items))
    } else {
        None
    }
}

/// The list of strings that `text` spells: a JSON array of strings and
/// nothing else.
pub open spec fn string_list_of(text: Seq<char>) -> Option<Seq<Seq<char>>> {
    match json_items_of(text) {
        Some(items) => strings_all(items),
        None => None,
    }
}

/// The strings among the elements of the JSON array that `text` spells;
/// empty where it spells no array.
pub open spec fn string_items_of(text: Seq<char>) -> Seq<Seq<char>> {
    match json_items_of(text) {
        Some(items) => strings_among(items),
        None => Seq::empty(),
    }
}

/// The strings among the elements of the JSON array that `text` spells, and
/// whether every element is a string. `None` where `text` spells no array.
fn read_strings(text: &str) -> (r: Option<(Vec<String>, bool)>)
    ensures
        match r {
            Some((found, all)) => json_items_of(text@) is Some && texts(found@) == strings_among(
                json_items_of(text@)->0,
            ) && all == (strings_all(json_items_of(text@)->0) is Some),
            None => json_items_of(text@) is None,
        },
{
    let items = match json_items(text) {
        Some(items) => items,
        None => {
            return None;
        },
    };
    let ghost whole = texts(items@);
    let mut found: Vec<String> = Vec::new();
    let mut all = true;
    let mut i: usize = 0;
    assert(whole.take(0) =~= Seq::empty());
    assert(texts(found@) =~= Seq::empty());
    while i < items.len()
        invariant
            i <= items.len(),
            whole == texts(items@),
            texts(found@) == strings_among(whole.take(i as int)),
            all == (forall|j: int| 0 <= j < i ==> json_string_of(#[trigger] whole[j]) is Some),
        decreases items.len() - i,
    {
        proof {
            let next = whole.take(i + 1);
            assert(next.drop_last() =~= whole.take(i as int));
            assert(next.last() == whole[i as int]);
            assert(whole[i as int] == items@[i as int]@);
        }
        let ghost before = texts(found@);
        match json_string(items[i].as_str()) {
            Some(s) => {
                let ghost t = s@;
                found.push(s);
                assert(texts(found@) =~= before.push(t));
            },
            None => {
                all = false;
            },
        }
        i += 1;
    }
    assert(whole.take(whole.len() as int) =~= whole);
    Some((found, all))
}

/// The list of strings that `text` spells, if it spells a JSON array of
/// strings and nothing else.
pub fn string_list(text: &str) -> (r: Option<Vec<String>>)
    ensures
        match r {
            Some(list) => string_list_of(text@) == Some(texts(list@)),
            None => string_list_of(text@) is None,
        },
{
    match read_strings(text) {
        Some((found, all)) => if all {
            Some(found)
        } else {
            None
        },
        None => None,
    }
}

/// The strings among the elements of the JSON array that `text` spells.
pub fn string_items(text: &str) -> (r: Vec<String>)
    ensures
        texts(r@) == string_items_of(text@),
{
    match read_strings(text) {
        Some((found, _)) => found,
        None => {
            let empty: Vec<String> = Vec::new();
            assert(texts(empty@) =~= Seq::empty());
            empty
        },
    }
}

} // verus!
