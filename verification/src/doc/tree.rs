//! The state of a document as a tree of plain values and containers.

use vstd::prelude::*;
use vstd::string::*;

verus! {

/// A node of a document's state.
#[derive(Debug)]
pub enum DocNode {
    /// A plain string.
    Str(String),
    /// A plain integer.
    Int(i64),
    /// A text container and its content.
    Text(String),
    /// A map container and its entries.
    Dict(Vec<(String, DocNode)>),
    /// A list container and its items.
    List(Vec<DocNode>),
    /// A movable list container and its items.
    Movable(Vec<DocNode>),
    /// Anything else: a plain value or a container of another kind.
    Other,
}

/// A node as a value.
pub enum Tree {
    Str(Seq<char>),
    Int(int),
    Text(Seq<char>),
    Dict(Seq<(Seq<char>, Tree)>),
    List(Seq<Tree>),
    Movable(Seq<Tree>),
    Other,
}

impl DocNode {
    /// This node as a value.
    pub open spec fn tree(self) -> Tree
        decreases self,
    {
        match self {
            DocNode::Str(s) => Tree::Str(s@),
            DocNode::Int(i) => Tree::Int(i as int),
            DocNode::Text(s) => Tree::Text(s@),
            DocNode::Dict(entries) => Tree::Dict(
                Seq::new(
                    entries@.len(),
                    |i: int|
                        if 0 <= i < entries@.len() {
                            (entries@[i].0@, entries@[i].1.tree())
                        } else {
                            (Seq::empty(), Tree::Other)
                        },
                ),
            ),
            DocNode::List(items) => Tree::List(
                Seq::new(
                    items@.len(),
                    |i: int|
                        if 0 <= i < items@.len() {
                            items@[i].tree()
                        } else {
                            Tree::Other
                        },
                ),
            ),
            DocNode::Movable(items) => Tree::Movable(
                Seq::new(
                    items@.len(),
                    |i: int|
                        if 0 <= i < items@.len() {
                            items@[i].tree()
                        } else {
                            Tree::Other
                        },
                ),
            ),
            DocNode::Other => Tree::Other,
        }
    }
}

/// The entries of a map node as values.
pub open spec fn entry_trees(entries: Seq<(String, DocNode)>) -> Seq<(Seq<char>, Tree)> {
    Seq::new(entries.len(), |i: int| (entries[i].0@, entries[i].1.tree()))
}

/// The items of a list node as values.
pub open spec fn item_trees(items: Seq<DocNode>) -> Seq<Tree> {
    Seq::new(items.len(), |i: int| items[i].tree())
}

/// The value of a map node is made of the values of its entries.
pub proof fn lemma_dict_tree(entries: Vec<(String, DocNode)>)
    ensures
        DocNode::Dict(entries).tree() == Tree::Dict(entry_trees(entries@)),
{
    assert(DocNode::Dict(entries).tree()->Dict_0 =~= entry_trees(entries@));
}

/// The value of a list node is made of the values of its items.
pub proof fn lemma_list_tree(items: Vec<DocNode>)
    ensures
        DocNode::List(items).tree() == Tree::List(item_trees(items@)),
        DocNode::Movable(items).tree() == Tree::Movable(item_trees(items@)),
{
    assert(DocNode::List(items).tree()->List_0 =~= item_trees(items@));
    assert(DocNode::Movable(items).tree()->Movable_0 =~= item_trees(items@));
}

/// One more entry behind the others.
pub proof fn lemma_entry_trees_push(entries: Seq<(String, DocNode)>, key: String, node: DocNode)
    ensures
        entry_trees(entries.push((key, node))) == entry_trees(entries).push((key@, node.tree())),
{
    assert(entry_trees(entries.push((key, node))) =~= entry_trees(entries).push(
        (key@, node.tree()),
    ));
}

/// One more item behind the others.
pub proof fn lemma_item_trees_push(items: Seq<DocNode>, node: DocNode)
    ensures
        item_trees(items.push(node)) == item_trees(items).push(node.tree()),
{
    assert(item_trees(items.push(node)) =~= item_trees(items).push(node.tree()));
}

/// The entry of a map under `key`: the first with that key.
pub open spec fn entry_of(entries: Seq<(Seq<char>, Tree)>, key: Seq<char>) -> Option<Tree>
    decreases entries.len(),
{
    if entries.len() == 0 {
        None
    } else if entries[0].0 == key {
        Some(entries[0].1)
    } else {
        entry_of(entries.drop_first(), key)
    }
}

/// What stands under `key` in a node: the entry of a map node, nothing in
/// any other node.
pub open spec fn child_of(t: Tree, key: Seq<char>) -> Option<Tree> {
    match t {
        Tree::Dict(entries) => entry_of(entries, key),
        _ => None,
    }
}

/// Whether the content of a container can be written: a text always; a map
/// whose entries are strings, integers and containers that can be written;
/// a list whose items are strings and containers that can be written.
pub open spec fn writable(t: Tree) -> bool
    decreases t,
{
    match t {
        Tree::Text(_) => true,
        Tree::Dict(entries) => forall|i: int|
            0 <= i < entries.len() ==> {
                ||| entries[i].1 is Str
                ||| entries[i].1 is Int
                ||| writable(#[trigger] entries[i].1)
            },
        Tree::List(items) => forall|i: int|
            0 <= i < items.len() ==> (items[i] is Str || writable(#[trigger] items[i])),
        Tree::Movable(items) => forall|i: int|
            0 <= i < items.len() ==> (items[i] is Str || writable(#[trigger] items[i])),
        _ => false,
    }
}

/// Whether a tree can be written as a whole document: a map whose entries
/// are maps and movable lists that can be written.
pub open spec fn writable_doc(t: Tree) -> bool {
    &&& t is Dict
    &&& forall|i: int|
        0 <= i < t->Dict_0.len() ==> {
            &&& (t->Dict_0[i].1 is Dict || t->Dict_0[i].1 is Movable)
            &&& writable(#[trigger] t->Dict_0[i].1)
        }
}

/// Whether the entries of a map can be written: each a string, an integer
/// or a container that can be written.
pub open spec fn entries_writable(entries: Seq<(Seq<char>, Tree)>) -> bool {
    forall|i: int|
        0 <= i < entries.len() ==> {
            ||| entries[i].1 is Str
            ||| entries[i].1 is Int
            ||| writable(#[trigger] entries[i].1)
        }
}

/// Whether the items of a list can be written: each a string or a
/// container that can be written.
pub open spec fn items_writable(items: Seq<Tree>) -> bool {
    forall|i: int| 0 <= i < items.len() ==> (items[i] is Str || writable(#[trigger] items[i]))
}

/// A map, a list and a movable list can be written where what they hold
/// can.
pub proof fn lemma_writable(t: Tree)
    ensures
        t is Dict ==> writable(t) == entries_writable(t->Dict_0),
        t is List ==> writable(t) == items_writable(t->List_0),
        t is Movable ==> writable(t) == items_writable(t->Movable_0),
{
}

/// Entries that can be written, one row behind the other, can be written.
pub proof fn lemma_entries_join(a: Seq<(Seq<char>, Tree)>, b: Seq<(Seq<char>, Tree)>)
    requires
        entries_writable(a),
        entries_writable(b),
    ensures
        entries_writable(a + b),
{
    assert forall|i: int| 0 <= i < (a + b).len() implies {
        ||| (a + b)[i].1 is Str
        ||| (a + b)[i].1 is Int
        ||| writable(#[trigger] (a + b)[i].1)
    } by {
        if i < a.len() {
            assert((a + b)[i] == a[i]);
        } else {
            assert((a + b)[i] == b[i - a.len()]);
        }
    }
}

impl DocNode {
    /// What stands under `key` in this node.
    #[verifier::loop_isolation(false)]
    pub fn child(&self, key: &str) -> (r: Option<&DocNode>)
        ensures
            match r {
                Some(n) => child_of(self.tree(), key@) == Some(n.tree()),
                None => child_of(self.tree(), key@) is None,
            },
    {
        match self {
            DocNode::Dict(entries) => {
                proof {
                    lemma_dict_tree(*entries);
                }
                let ghost all = entry_trees(entries@);
                let mut i: usize = 0;
                assert(all.subrange(0, all.len() as int) =~= all);
                while i < entries.len()
                    invariant
                        i <= entries.len(),
                        all == entry_trees(entries@),
                        entry_of(all, key@) == entry_of(
                            all.subrange(i as int, all.len() as int),
                            key@,
                        ),
                    decreases entries.len() - i,
                {
                    let ghost rest = all.subrange(i as int, all.len() as int);
                    assert(rest[0] == all[i as int]);
                    assert(rest.drop_first() =~= all.subrange(i + 1, all.len() as int));
                    if crate::text::str_eq(entries[i].0.as_str(), key) {
                        return Some(&entries[i].1);
                    }
                    i += 1;
                }
                None
            },
            _ => None,
        }
    }
}

/// Whether the tree `got` holds what the tree `want` holds, whatever the
/// order of the entries of its maps: plain values and texts are equal; a
/// map has as many entries as the other, each entry of either stands under
/// its key in the other, and what stands under a key is alike; lists are
/// alike item by item. Nothing is like `Other`.
pub open spec fn alike(want: Tree, got: Tree) -> bool
    decreases want,
{
    match want {
        Tree::Str(s) => got == Tree::Str(s),
        Tree::Int(i) => got == Tree::Int(i),
        Tree::Text(s) => got == Tree::Text(s),
        Tree::Dict(entries) => {
            &&& got is Dict
            &&& entries.len() == got->Dict_0.len()
            &&& forall|i: int|
                #![trigger entries[i]]
                0 <= i < entries.len() ==> entry_of(got->Dict_0, entries[i].0) is Some && alike(
                    entries[i].1,
                    entry_of(got->Dict_0, entries[i].0)->0,
                )
            &&& forall|j: int|
                #![trigger got->Dict_0[j]]
                0 <= j < got->Dict_0.len() ==> entry_of(entries, got->Dict_0[j].0) is Some
        },
        Tree::List(items) => {
            &&& got is List
            &&& items.len() == got->List_0.len()
            &&& forall|i: int|
                #![trigger items[i]]
                0 <= i < items.len() ==> alike(items[i], got->List_0[i])
        },
        Tree::Movable(items) => {
            &&& got is Movable
            &&& items.len() == got->Movable_0.len()
            &&& forall|i: int|
                #![trigger items[i]]
                0 <= i < items.len() ==> alike(items[i], got->Movable_0[i])
        },
        Tree::Other => false,
    }
}

/// Whether the items of two lists are alike, item by item.
#[verifier::loop_isolation(false)]
fn same_items(want: &Vec<DocNode>, got: &Vec<DocNode>) -> (r: bool)
    ensures
        r == (want@.len() == got@.len() && forall|i: int|
            #![trigger item_trees(want@)[i]]
            0 <= i < want@.len() ==> alike(item_trees(want@)[i], item_trees(got@)[i])),
    decreases want, 0nat,
{
    if want.len() != got.len() {
        return false;
    }
    let mut i: usize = 0;
    while i < want.len()
        invariant
            i <= want.len(),
            forall|j: int|
                #![trigger item_trees(want@)[j]]
                0 <= j < i ==> alike(item_trees(want@)[j], item_trees(got@)[j]),
        decreases want.len() - i,
    {
        assert(item_trees(want@)[i as int] == want@[i as int].tree());
        assert(item_trees(got@)[i as int] == got@[i as int].tree());
        if !same_tree(&want[i], &got[i]) {
            return false;
        }
        i += 1;
    }
    true
}

/// Whether `got` holds what `want` holds, whatever the order of the entries
/// of its maps.
#[verifier::loop_isolation(false)]
pub fn same_tree(want: &DocNode, got: &DocNode) -> (r: bool)
    ensures
        r == alike(want.tree(), got.tree()),
    decreases want, 1nat,
{
    match (want, got) {
        (DocNode::Str(a), DocNode::Str(b)) => {
            let r = crate::text::str_eq(a.as_str(), b.as_str());
            assert(r == (want.tree() == got.tree())) by {
                assert(a@ == b@ ==> want.tree() == got.tree());
            }
            r
        },
        (DocNode::Int(a), DocNode::Int(b)) => *a == *b,
        (DocNode::Text(a), DocNode::Text(b)) => crate::text::str_eq(a.as_str(), b.as_str()),
        (DocNode::Dict(a), DocNode::Dict(b)) => {
            proof {
                lemma_dict_tree(*a);
                lemma_dict_tree(*b);
            }
            let ghost ta = entry_trees(a@);
            let ghost tb = entry_trees(b@);
            if a.len() != b.len() {
                return false;
            }
            let mut i: usize = 0;
            while i < a.len()
                invariant
                    i <= a.len(),
                    forall|j: int|
                        #![trigger ta[j]]
                        0 <= j < i ==> entry_of(tb, ta[j].0) is Some && alike(
                            ta[j].1,
                            entry_of(tb, ta[j].0)->0,
                        ),
                decreases a.len() - i,
            {
                assert(ta[i as int] == (a@[i as int].0@, a@[i as int].1.tree()));
                match got.child(a[i].0.as_str()) {
                    Some(other) => {
                        if !same_tree(&a[i].1, other) {
                            return false;
                        }
                    },
                    None => {
                        return false;
                    },
                }
                i += 1;
            }
            let mut k: usize = 0;
            while k < b.len()
                invariant
                    k <= b.len(),
                    forall|j: int|
                        #![trigger tb[j]]
                        0 <= j < k ==> entry_of(ta, tb[j].0) is Some,
                decreases b.len() - k,
            {
                assert(tb[k as int] == (b@[k as int].0@, b@[k as int].1.tree()));
                if want.child(b[k].0.as_str()).is_none() {
                    return false;
                }
                k += 1;
            }
            true
        },
        (DocNode::List(a), DocNode::List(b)) => {
            proof {
                lemma_list_tree(*a);
                lemma_list_tree(*b);
            }
            same_items(a, b)
        },
        (DocNode::Movable(a), DocNode::Movable(b)) => {
            proof {
                lemma_list_tree(*a);
                lemma_list_tree(*b);
            }
            same_items(a, b)
        },
        _ => false,
    }
}

} // verus!
