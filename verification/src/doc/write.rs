//! Writing a tree into a fresh document, and reading a document's state as
//! a tree.

use crate::crdt::{
    append_text, dict_keys_at, doc_items, doc_roots, found, index_path, int_at, list_len_at,
    movable_len_at, new_container, new_doc, open_root_dict, open_root_movable_list, place_of,
    places, push_container, push_str, put_container, put_int, put_str, root_names, string_at,
    text_at, ContainerKind, Item, Place, Step,
};
use crate::json::texts;
use crate::doc::model_tree::{
    colab_node, colab_tree, sheet_node, sheet_tree, statement_node, statement_tree,
};
use crate::doc::tree::{
    alike, entry_trees, item_trees, lemma_dict_tree, lemma_list_tree, same_tree, writable,
    writable_doc, DocNode, Tree,
};
use crate::models::colab::{ColabModel, ColabSheetModel, ColabStatementModel};
use vstd::prelude::*;
use vstd::string::*;

verus! {

/// How deep a document is read; what lies deeper is read as `Other`.
pub const READ_DEPTH: usize = 256;

/// The kind of container that a node is written as; `None` for a node that
/// is a plain value or cannot be written.
fn container_of(node: &DocNode) -> (r: Option<ContainerKind>)
    ensures
        r == match *node {
            DocNode::Dict(_) => Some(ContainerKind::Dict),
            DocNode::List(_) => Some(ContainerKind::List),
            DocNode::Movable(_) => Some(ContainerKind::MovableList),
            DocNode::Text(_) => Some(ContainerKind::Text),
            _ => None::<ContainerKind>,
        },
{
    match node {
        DocNode::Dict(_) => Some(ContainerKind::Dict),
        DocNode::List(_) => Some(ContainerKind::List),
        DocNode::Movable(_) => Some(ContainerKind::MovableList),
        DocNode::Text(_) => Some(ContainerKind::Text),
        _ => None,
    }
}

/// What a write came to: done, or the text of why it was not.
fn written(r: Result<bool, String>) -> (w: Result<(), String>)
    ensures
        w is Ok == (r == Ok::<bool, String>(true)),
{
    match r {
        Ok(true) => Ok(()),
        Ok(false) => Err(String::from_str("no such container at this place")),
        Err(e) => Err(e),
    }
}

/// A map without entries, or a list or movable list without items: there
/// is nothing to write into its container.
pub open spec fn holds_nothing(t: Tree) -> bool {
    match t {
        Tree::Dict(entries) => entries.len() == 0,
        Tree::List(items) => items.len() == 0,
        Tree::Movable(items) => items.len() == 0,
        _ => false,
    }
}

/// Writes the content of `node` into the container at `path`, which was
/// made for it: the entries of a map, the items of a list, the content of a
/// text. The path is handed back as it was. Each write is the document's to
/// take or to refuse; where there is nothing to write, nothing is asked of
/// the document and the answer is `Ok`.
#[verifier::loop_isolation(false)]
fn fill(doc: &mut loro::LoroDoc, path: &mut Vec<Step>, node: &DocNode) -> (r: Result<
    (),
    String,
>)
    ensures
        final(path)@ == old(path)@,
        !writable(node.tree()) ==> r is Err,
        holds_nothing(node.tree()) ==> r is Ok && *final(doc) == *old(doc),
    decreases node,
{
    match node {
        DocNode::Text(s) => written(append_text(doc, &index_path(path), s.as_str())),
        DocNode::Dict(entries) => {
            proof {
                lemma_dict_tree(*entries);
            }
            let mut i: usize = 0;
            while i < entries.len()
                invariant
                    i <= entries.len(),
                    path@ == old(path)@,
                    i == 0 ==> *doc == *old(doc),
                    node.tree() == Tree::Dict(entry_trees(entries@)),
                    forall|j: int|
                        0 <= j < i ==> {
                            ||| entries@[j].1 is Str
                            ||| entries@[j].1 is Int
                            ||| writable(#[trigger] entries@[j].1.tree())
                        },
                decreases entries.len() - i,
            {
                let key = entries[i].0.as_str();
                let child = &entries[i].1;
                let here = index_path(path);
                assert(entry_trees(entries@)[i as int].1 == child.tree());
                match child {
                    DocNode::Str(s) => {
                        written(put_str(doc, &here, key, s.as_str()))?;
                    },
                    DocNode::Int(n) => {
                        written(put_int(doc, &here, key, *n))?;
                    },
                    DocNode::Other => {
                        return Err(String::from_str("a node that cannot be written"));
                    },
                    _ => {
                        let kind = container_of(child).unwrap();
                        written(put_container(doc, &here, key, new_container(kind)))?;
                        path.push(Step::Key(String::from_str(key)));
                        let done = fill(doc, path, child);
                        path.pop();
                        assert(path@ =~= old(path)@);
                        done?;
                    },
                }
                i += 1;
            }
            assert(writable(node.tree())) by {
                let all = entry_trees(entries@);
                assert forall|j: int| 0 <= j < all.len() implies {
                    ||| all[j].1 is Str
                    ||| all[j].1 is Int
                    ||| writable(#[trigger] all[j].1)
                } by {
                    assert(all[j].1 == entries@[j].1.tree());
                }
            }
            Ok(())
        },
        DocNode::List(items) => {
            proof {
                lemma_list_tree(*items);
            }
            fill_items(doc, path, items)
        },
        DocNode::Movable(items) => {
            proof {
                lemma_list_tree(*items);
            }
            fill_items(doc, path, items)
        },
        _ => Err(String::from_str("a node that holds nothing")),
    }
}

/// Writes the items of a list into the list or movable list container at
/// `path`.
#[verifier::loop_isolation(false)]
fn fill_items(
    doc: &mut loro::LoroDoc,
    path: &mut Vec<Step>,
    items: &Vec<DocNode>,
) -> (r: Result<(), String>)
    ensures
        final(path)@ == old(path)@,
        !writable(Tree::List(item_trees(items@))) ==> r is Err,
        !writable(Tree::Movable(item_trees(items@))) ==> r is Err,
        items@.len() == 0 ==> r is Ok && *final(doc) == *old(doc),
    decreases items,
{
    let mut i: usize = 0;
    while i < items.len()
        invariant
            i <= items.len(),
            path@ == old(path)@,
            i == 0 ==> *doc == *old(doc),
            forall|j: int|
                0 <= j < i ==> (items@[j] is Str || writable(#[trigger] items@[j].tree())),
        decreases items.len() - i,
    {
        let child = &items[i];
        let here = index_path(path);
        assert(item_trees(items@)[i as int] == child.tree());
        match child {
            DocNode::Str(s) => {
                written(push_str(doc, &here, s.as_str()))?;
            },
            DocNode::Int(_) => {
                return Err(String::from_str("a node that cannot be written"));
            },
            DocNode::Other => {
                return Err(String::from_str("a node that cannot be written"));
            },
            _ => {
                let kind = container_of(child).unwrap();
                written(push_container(doc, &here, new_container(kind)))?;
                path.push(Step::At(i));
                let done = fill(doc, path, child);
                path.pop();
                assert(path@ =~= old(path)@);
                done?;
            },
        }
        i += 1;
    }
    proof {
        let all = item_trees(items@);
        assert forall|j: int| 0 <= j < all.len() implies (all[j] is Str || writable(
            #[trigger] all[j],
        )) by {
            assert(all[j] == items@[j].tree());
        }
    }
    Ok(())
}

/// Whether the document holds what the tree `want` holds: the document's
/// state reads as a tree that is like `want`.
pub open spec fn holds_tree(doc: loro::LoroDoc, want: Tree) -> bool {
    exists|t: Tree| doc_reads(doc, t) && #[trigger] alike(want, t)
}

/// A fresh document that holds what `root` says: each entry of `root` is a
/// root container, a map or a movable list, under its name. The document is
/// read again once it is written, and handed out only where it holds what
/// `root` holds. A tree that cannot be written as a document is refused.
#[verifier::loop_isolation(false)]
pub fn build_doc(root: &DocNode) -> (r: Result<loro::LoroDoc, String>)
    ensures
        !writable_doc(root.tree()) ==> r is Err,
        r matches Ok(doc) ==> holds_tree(doc, root.tree()),
{
    let entries = match root {
        DocNode::Dict(entries) => entries,
        _ => {
            return Err(String::from_str("the root of a document is a map"));
        },
    };
    proof {
        lemma_dict_tree(*entries);
    }
    let mut doc = new_doc();
    let mut path: Vec<Step> = Vec::new();
    let mut i: usize = 0;
    while i < entries.len()
        invariant
            i <= entries.len(),
            path@.len() == 0,
            forall|j: int|
                0 <= j < i ==> {
                    &&& (entries@[j].1 is Dict || entries@[j].1 is Movable)
                    &&& writable(#[trigger] entries@[j].1.tree())
                },
        decreases entries.len() - i,
    {
        assert(entry_trees(entries@)[i as int].1 == entries@[i as int].1.tree());
        let name = entries[i].0.as_str();
        let opened = match &entries[i].1 {
            DocNode::Dict(_) => open_root_dict(&mut doc, name),
            DocNode::Movable(_) => open_root_movable_list(&mut doc, name),
            _ => false,
        };
        if !opened {
            return Err(String::from_str("a root container that cannot be made"));
        }
        path.push(Step::Key(String::from_str(name)));
        let done = fill(&mut doc, &mut path, &entries[i].1);
        path.pop();
        done?;
        i += 1;
    }
    proof {
        let all = entry_trees(entries@);
        assert forall|j: int| 0 <= j < all.len() implies {
            &&& (all[j].1 is Dict || all[j].1 is Movable)
            &&& writable(#[trigger] all[j].1)
        } by {
            assert(all[j].1 == entries@[j].1.tree());
        }
    }
    let back = read_doc(&doc);
    if !same_tree(root, &back) {
        return Err(String::from_str("the document does not hold what was written"));
    }
    Ok(doc)
}

/// A fresh document for a statement, holding what `statement_node` says:
/// everything of the model but the comments of its languages;
/// `None` where the document could not be written. The tree of a statement
/// can always be written, so `None` tells of the document, not of the
/// model.
pub fn stmt_to_loro_doc(stmt_model: &ColabStatementModel) -> (r: Option<loro::LoroDoc>)
    ensures
        r matches Some(doc) ==> holds_tree(doc, statement_tree(*stmt_model)),
{
    match build_doc(&statement_node(stmt_model)) {
        Ok(doc) => Some(doc),
        Err(_) => None,
    }
}

/// A fresh document for a sheet, holding what `sheet_node` says; `None`
/// where the document could not be written. The tree of a sheet can always
/// be written, so `None` tells of the document, not of the model.
pub fn sheet_to_loro_doc(sheet_model: &ColabSheetModel) -> (r: Option<loro::LoroDoc>)
    ensures
        r matches Some(doc) ==> holds_tree(doc, sheet_tree(*sheet_model)),
{
    match build_doc(&sheet_node(sheet_model)) {
        Ok(doc) => Some(doc),
        Err(_) => None,
    }
}

/// A fresh document for a model of either kind, holding what `colab_node`
/// says: everything of the model but the comments of a statement's
/// languages; `None` where the document could not be written.
pub fn colab_to_loro_doc(colab_model: &ColabModel) -> (r: Option<loro::LoroDoc>)
    ensures
        r matches Some(doc) ==> holds_tree(doc, colab_tree(*colab_model)),
{
    match build_doc(&colab_node(colab_model)) {
        Ok(doc) => Some(doc),
        Err(_) => None,
    }
}

/// The keys of the entries of a map node, in order.
pub open spec fn keys_of(entries: Seq<(Seq<char>, Tree)>) -> Seq<Seq<char>> {
    Seq::new(entries.len(), |i: int| entries[i].0)
}

/// Whether `t` is what stands at `path` among `items`, read to the depth
/// that `fuel` allows. A plain value and a text are read as they are. A map
/// is read with one entry for each of its keys, in whatever order; a list
/// and a movable list with their items in order. What stands deeper than
/// `fuel` allows, and a place that holds none of these, is read as `Other`.
pub open spec fn reads(items: Map<Seq<Place>, Item>, path: Seq<Place>, fuel: nat, t: Tree) -> bool
    decreases fuel,
{
    match found(items, path) {
        Some(Item::Str(s)) => t == Tree::Str(s),
        Some(Item::Int(i)) => t == Tree::Int(i),
        Some(Item::Text(s)) => t == Tree::Text(s),
        Some(Item::Dict(keys)) => if fuel == 0 {
            t == Tree::Other
        } else {
            &&& t is Dict
            &&& keys_of(t->Dict_0).no_duplicates()
            &&& keys_of(t->Dict_0).to_set() == keys
            &&& forall|i: int|
                #![trigger t->Dict_0[i]]
                0 <= i < t->Dict_0.len() ==> reads(
                    items,
                    path.push(Place::Key(t->Dict_0[i].0)),
                    (fuel - 1) as nat,
                    t->Dict_0[i].1,
                )
        },
        Some(Item::List(n)) => if fuel == 0 {
            t == Tree::Other
        } else {
            &&& t is List
            &&& t->List_0.len() == n
            &&& forall|i: int|
                #![trigger t->List_0[i]]
                0 <= i < n ==> reads(items, path.push(Place::At(i)), (fuel - 1) as nat, t->List_0[i])
        },
        Some(Item::Movable(n)) => if fuel == 0 {
            t == Tree::Other
        } else {
            &&& t is Movable
            &&& t->Movable_0.len() == n
            &&& forall|i: int|
                #![trigger t->Movable_0[i]]
                0 <= i < n ==> reads(
                    items,
                    path.push(Place::At(i)),
                    (fuel - 1) as nat,
                    t->Movable_0[i],
                )
        },
        None => t == Tree::Other,
    }
}

/// Whether `t` is the state of the document as a tree: a map with one entry
/// for each root container, in whatever order, each read to the depth
/// `READ_DEPTH`.
pub open spec fn doc_reads(doc: loro::LoroDoc, t: Tree) -> bool {
    &&& t is Dict
    &&& keys_of(t->Dict_0).no_duplicates()
    &&& keys_of(t->Dict_0).to_set() == doc_roots(doc)
    &&& forall|i: int|
        #![trigger t->Dict_0[i]]
        0 <= i < t->Dict_0.len() ==> reads(
            doc_items(doc),
            seq![Place::Key(t->Dict_0[i].0)],
            READ_DEPTH as nat,
            t->Dict_0[i].1,
        )
}

/// The path with one more step is the path's places with the step's place.
pub proof fn lemma_places_push(path: Seq<Step>, step: Step)
    ensures
        places(path.push(step)) == places(path).push(place_of(step)),
{
    assert(places(path.push(step)) =~= places(path).push(place_of(step)));
}

/// What stands at `path` in the document, read to the depth that `fuel`
/// allows.
#[verifier::loop_isolation(false)]
fn read_at(doc: &loro::LoroDoc, path: &mut Vec<Step>, fuel: usize) -> (r: DocNode)
    ensures
        final(path)@ == old(path)@,
        reads(doc_items(*doc), places(old(path)@), fuel as nat, r.tree()),
    decreases fuel, 0nat,
{
    match string_at(doc, path) {
        Some(s) => {
            return DocNode::Str(s);
        },
        None => {},
    }
    match int_at(doc, path) {
        Some(n) => {
            return DocNode::Int(n);
        },
        None => {},
    }
    match text_at(doc, path) {
        Some(s) => {
            return DocNode::Text(s);
        },
        None => {},
    }
    match dict_keys_at(doc, path) {
        Some(keys) => {
            if fuel == 0 {
                return DocNode::Other;
            }
            let ghost here = places(path@);
            let mut entries: Vec<(String, DocNode)> = Vec::new();
            let mut i: usize = 0;
            while i < keys.len()
                invariant
                    i <= keys.len(),
                    path@ == old(path)@,
                    entries@.len() == i,
                    forall|j: int|
                        #![trigger entries@[j]]
                        0 <= j < i ==> entries@[j].0@ == keys@[j]@ && reads(
                            doc_items(*doc),
                            here.push(Place::Key(keys@[j]@)),
                            (fuel - 1) as nat,
                            entries@[j].1.tree(),
                        ),
                decreases keys.len() - i,
            {
                proof {
                    lemma_places_push(path@, Step::Key(keys@[i as int]));
                }
                path.push(Step::Key(keys[i].clone()));
                let child = read_at(doc, path, fuel - 1);
                path.pop();
                assert(path@ =~= old(path)@);
                entries.push((keys[i].clone(), child));
                i += 1;
            }
            proof {
                lemma_dict_tree(entries);
                let t = entry_trees(entries@);
                assert(keys_of(t) =~= texts(keys@));
                assert forall|j: int| #![trigger t[j]] 0 <= j < t.len() implies reads(
                    doc_items(*doc),
                    here.push(Place::Key(t[j].0)),
                    (fuel - 1) as nat,
                    t[j].1,
                ) by {
                    assert(t[j] == (entries@[j].0@, entries@[j].1.tree()));
                }
            }
            return DocNode::Dict(entries);
        },
        None => {},
    }
    match list_len_at(doc, path) {
        Some(n) => {
            if fuel == 0 {
                return DocNode::Other;
            }
            let items = read_items(doc, path, n, fuel - 1);
            proof {
                lemma_list_tree(items);
            }
            return DocNode::List(items);
        },
        None => {},
    }
    match movable_len_at(doc, path) {
        Some(n) => {
            if fuel == 0 {
                return DocNode::Other;
            }
            let items = read_items(doc, path, n, fuel - 1);
            proof {
                lemma_list_tree(items);
            }
            return DocNode::Movable(items);
        },
        None => {},
    }
    DocNode::Other
}

/// The first `n` items of the list or movable list container at `path`,
/// each read to the depth that `fuel` allows.
#[verifier::loop_isolation(false)]
fn read_items(doc: &loro::LoroDoc, path: &mut Vec<Step>, n: usize, fuel: usize) -> (r: Vec<
    DocNode,
>)
    ensures
        final(path)@ == old(path)@,
        r@.len() == n,
        forall|i: int|
            #![trigger item_trees(r@)[i]]
            0 <= i < n ==> reads(
                doc_items(*doc),
                places(old(path)@).push(Place::At(i)),
                fuel as nat,
                item_trees(r@)[i],
            ),
    decreases fuel, 1nat,
{
    let ghost here = places(path@);
    let mut items: Vec<DocNode> = Vec::new();
    let mut i: usize = 0;
    while i < n
        invariant
            i <= n,
            path@ == old(path)@,
            items@.len() == i,
            forall|j: int|
                #![trigger items@[j]]
                0 <= j < i ==> reads(
                    doc_items(*doc),
                    here.push(Place::At(j)),
                    fuel as nat,
                    items@[j].tree(),
                ),
        decreases n - i,
    {
        proof {
            lemma_places_push(path@, Step::At(i));
        }
        path.push(Step::At(i));
        let child = read_at(doc, path, fuel);
        path.pop();
        assert(path@ =~= old(path)@);
        items.push(child);
        i += 1;
    }
    proof {
        assert forall|j: int| #![trigger item_trees(items@)[j]] 0 <= j < n implies reads(
            doc_items(*doc),
            here.push(Place::At(j)),
            fuel as nat,
            item_trees(items@)[j],
        ) by {
            assert(item_trees(items@)[j] == items@[j].tree());
        }
    }
    items
}

/// The state of a document as a tree: a map of its root containers, each
/// read to the depth `READ_DEPTH`.
#[verifier::loop_isolation(false)]
pub fn read_doc(doc: &loro::LoroDoc) -> (r: DocNode)
    ensures
        doc_reads(*doc, r.tree()),
{
    let names = root_names(doc);
    let mut path: Vec<Step> = Vec::new();
    let mut entries: Vec<(String, DocNode)> = Vec::new();
    let mut i: usize = 0;
    while i < names.len()
        invariant
            i <= names.len(),
            path@.len() == 0,
            entries@.len() == i,
            forall|j: int|
                #![trigger entries@[j]]
                0 <= j < i ==> entries@[j].0@ == names@[j]@ && reads(
                    doc_items(*doc),
                    seq![Place::Key(names@[j]@)],
                    READ_DEPTH as nat,
                    entries@[j].1.tree(),
                ),
        decreases names.len() - i,
    {
        proof {
            lemma_places_push(path@, Step::Key(names@[i as int]));
            assert(places(path@).push(Place::Key(names@[i as int]@)) =~= seq![
                Place::Key(names@[i as int]@),
            ]);
        }
        path.push(Step::Key(names[i].clone()));
        let child = read_at(doc, &mut path, READ_DEPTH);
        path.pop();
        entries.push((names[i].clone(), child));
        i += 1;
    }
    proof {
        lemma_dict_tree(entries);
        let t = entry_trees(entries@);
        assert(keys_of(t) =~= texts(names@));
        assert forall|j: int| #![trigger t[j]] 0 <= j < t.len() implies reads(
            doc_items(*doc),
            seq![Place::Key(t[j].0)],
            READ_DEPTH as nat,
            t[j].1,
        ) by {
            assert(t[j] == (entries@[j].0@, entries@[j].1.tree()));
        }
    }
    DocNode::Dict(entries)
}

} // verus!
