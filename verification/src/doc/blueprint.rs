//! What a document holds when it is first built from its model.

use crate::doc::tree::{
    entry_trees, item_trees, lemma_dict_tree, lemma_entry_trees_push, lemma_item_trees_push,
    lemma_list_tree, items_writable, lemma_writable, writable, DocNode, Tree,
};
use crate::models::colab::{
    permission_name, Acls, ColabModelPermission, TextElement, TextElementChild,
    TextElementChildrenOrString,
};
use vstd::prelude::*;
use vstd::string::*;

verus! {

/// How deep the nodes of a text element are written: a node at this depth
/// is written, and the nodes below it are cut off. The children of the
/// root stand at depth one.
pub const MAX_DEPTH: usize = 100;

/// A list container of plain strings.
pub open spec fn strings_tree(items: Seq<String>) -> Tree {
    Tree::List(Seq::new(items.len(), |i: int| Tree::Str(items[i]@)))
}

/// A list container of text containers.
pub open spec fn runs_tree(items: Seq<String>) -> Tree {
    Tree::List(Seq::new(items.len(), |i: int| Tree::Text(items[i]@)))
}

/// A map container of plain strings.
pub open spec fn attributes_tree(attrs: Seq<(String, String)>) -> Tree {
    Tree::Dict(Seq::new(attrs.len(), |i: int| (attrs[i].0@, Tree::Str(attrs[i].1@))))
}

/// An access list: a map container from the name of each permission to the
/// list of the principals that hold it.
pub open spec fn acls_tree(acls: Seq<(ColabModelPermission, Vec<String>)>) -> Tree {
    Tree::Dict(
        Seq::new(acls.len(), |i: int| (permission_name(acls[i].0), strings_tree(acls[i].1@))),
    )
}

/// What stands for a node that is cut off.
pub open spec fn truncated_tree() -> Tree {
    Tree::Dict(
        seq![
            ("nodeName"@, Tree::Str("truncated"@)),
            ("children"@, Tree::Str("[Max depth exceeded]"@)),
        ],
    )
}

/// A node of a text element: its name, its attributes and its children.
pub open spec fn text_node_tree(name: Seq<char>, attrs: Seq<(String, String)>, children: Tree)
    -> Tree {
    Tree::Dict(
        seq![
            ("nodeName"@, Tree::Str(name)),
            ("attributes"@, attributes_tree(attrs)),
            ("children"@, children),
        ],
    )
}

/// The children of a node, written at depth `depth`: further nodes, or
/// runs of text.
pub open spec fn children_tree(children: TextElementChildrenOrString, depth: nat) -> Tree
    decreases children,
{
    match children {
        TextElementChildrenOrString::AsChildren(v) => Tree::List(
            Seq::new(
                v@.len(),
                |i: int|
                    if 0 <= i < v@.len() {
                        child_tree(v@[i], depth)
                    } else {
                        Tree::Other
                    },
            ),
        ),
        TextElementChildrenOrString::AsStringArray(v) => runs_tree(v@),
        TextElementChildrenOrString::AsString(s) => Tree::List(seq![Tree::Text(s@)]),
    }
}

/// A node below the root of a text element, written at depth `depth`: cut
/// off below the depth limit, else with its children one level deeper.
pub open spec fn child_tree(child: TextElementChild, depth: nat) -> Tree
    decreases child,
{
    if depth > MAX_DEPTH {
        truncated_tree()
    } else {
        text_node_tree(
            child.node_name@,
            child.attributes@,
            children_tree(child.children, depth + 1),
        )
    }
}

/// A text element: its root, and its nodes from depth one on.
pub open spec fn text_element_tree(te: TextElement) -> Tree {
    text_node_tree(te.node_name@, te.attributes@, children_tree(te.children, 1))
}

/// A plain string node.
pub fn str_node(s: &str) -> (r: DocNode)
    ensures
        r.tree() == Tree::Str(s@),
{
    DocNode::Str(String::from_str(s))
}

/// A list container of plain strings.
pub fn strings_node(items: &Vec<String>) -> (r: DocNode)
    ensures
        r.tree() == strings_tree(items@),
{
    let mut out: Vec<DocNode> = Vec::new();
    let mut i: usize = 0;
    while i < items.len()
        invariant
            i <= items.len(),
            item_trees(out@) == Seq::new(i as nat, |k: int| Tree::Str(items@[k]@)),
        decreases items.len() - i,
    {
        let node = DocNode::Str(items[i].clone());
        proof {
            lemma_item_trees_push(out@, node);
            assert(Seq::new((i + 1) as nat, |k: int| Tree::Str(items@[k]@)) =~= Seq::new(
                i as nat,
                |k: int| Tree::Str(items@[k]@),
            ).push(node.tree()));
        }
        out.push(node);
        i += 1;
    }
    proof {
        lemma_list_tree(out);
    }
    DocNode::List(out)
}

/// A list container of text containers.
pub fn runs_node(items: &Vec<String>) -> (r: DocNode)
    ensures
        r.tree() == runs_tree(items@),
{
    let mut out: Vec<DocNode> = Vec::new();
    let mut i: usize = 0;
    while i < items.len()
        invariant
            i <= items.len(),
            item_trees(out@) == Seq::new(i as nat, |k: int| Tree::Text(items@[k]@)),
        decreases items.len() - i,
    {
        let node = DocNode::Text(items[i].clone());
        proof {
            lemma_item_trees_push(out@, node);
            assert(Seq::new((i + 1) as nat, |k: int| Tree::Text(items@[k]@)) =~= Seq::new(
                i as nat,
                |k: int| Tree::Text(items@[k]@),
            ).push(node.tree()));
        }
        out.push(node);
        i += 1;
    }
    proof {
        lemma_list_tree(out);
    }
    DocNode::List(out)
}

/// A map container of plain strings.
pub fn attributes_node(attrs: &Vec<(String, String)>) -> (r: DocNode)
    ensures
        r.tree() == attributes_tree(attrs@),
{
    let mut out: Vec<(String, DocNode)> = Vec::new();
    let mut i: usize = 0;
    while i < attrs.len()
        invariant
            i <= attrs.len(),
            entry_trees(out@) == Seq::new(
                i as nat,
                |k: int| (attrs@[k].0@, Tree::Str(attrs@[k].1@)),
            ),
        decreases attrs.len() - i,
    {
        let key = attrs[i].0.clone();
        let node = DocNode::Str(attrs[i].1.clone());
        proof {
            lemma_entry_trees_push(out@, key, node);
            assert(Seq::new((i + 1) as nat, |k: int| (attrs@[k].0@, Tree::Str(attrs@[k].1@)))
                =~= Seq::new(i as nat, |k: int| (attrs@[k].0@, Tree::Str(attrs@[k].1@))).push(
                (key@, node.tree()),
            ));
        }
        out.push((key, node));
        i += 1;
    }
    proof {
        lemma_dict_tree(out);
    }
    DocNode::Dict(out)
}

/// An access list as a map container.
pub fn acls_node(acls: &Acls) -> (r: DocNode)
    ensures
        r.tree() == acls_tree(acls@),
{
    let mut out: Vec<(String, DocNode)> = Vec::new();
    let mut i: usize = 0;
    while i < acls.len()
        invariant
            i <= acls.len(),
            entry_trees(out@) == Seq::new(
                i as nat,
                |k: int| (permission_name(acls@[k].0), strings_tree(acls@[k].1@)),
            ),
        decreases acls.len() - i,
    {
        let key = String::from_str(acls[i].0.as_str());
        let node = strings_node(&acls[i].1);
        proof {
            lemma_entry_trees_push(out@, key, node);
            assert(Seq::new(
                (i + 1) as nat,
                |k: int| (permission_name(acls@[k].0), strings_tree(acls@[k].1@)),
            ) =~= Seq::new(
                i as nat,
                |k: int| (permission_name(acls@[k].0), strings_tree(acls@[k].1@)),
            ).push((key@, node.tree())));
        }
        out.push((key, node));
        i += 1;
    }
    proof {
        lemma_dict_tree(out);
    }
    DocNode::Dict(out)
}

/// A node of a text element from its parts.
pub fn text_node(name: &str, attrs: &Vec<(String, String)>, children: DocNode) -> (r: DocNode)
    ensures
        r.tree() == text_node_tree(name@, attrs@, children.tree()),
{
    let mut out: Vec<(String, DocNode)> = Vec::new();
    out.push((String::from_str("nodeName"), str_node(name)));
    out.push((String::from_str("attributes"), attributes_node(attrs)));
    out.push((String::from_str("children"), children));
    proof {
        lemma_dict_tree(out);
        assert(entry_trees(out@) =~= seq![
            ("nodeName"@, Tree::Str(name@)),
            ("attributes"@, attributes_tree(attrs@)),
            ("children"@, children.tree()),
        ]);
    }
    DocNode::Dict(out)
}

/// What stands for a node that is cut off.
pub fn truncated_node() -> (r: DocNode)
    ensures
        r.tree() == truncated_tree(),
{
    let mut out: Vec<(String, DocNode)> = Vec::new();
    out.push((String::from_str("nodeName"), str_node("truncated")));
    out.push((String::from_str("children"), str_node("[Max depth exceeded]")));
    proof {
        lemma_dict_tree(out);
        assert(entry_trees(out@) =~= seq![
            ("nodeName"@, Tree::Str("truncated"@)),
            ("children"@, Tree::Str("[Max depth exceeded]"@)),
        ]);
    }
    DocNode::Dict(out)
}

/// One run of text as the only child.
pub fn single_run_node(s: &str) -> (r: DocNode)
    ensures
        r.tree() == Tree::List(seq![Tree::Text(s@)]),
{
    let mut out: Vec<DocNode> = Vec::new();
    out.push(DocNode::Text(String::from_str(s)));
    proof {
        lemma_list_tree(out);
        assert(item_trees(out@) =~= seq![Tree::Text(s@)]);
    }
    DocNode::List(out)
}

/// The children of a node, written at depth `depth`.
#[verifier::loop_isolation(false)]
pub fn children_node(children: &TextElementChildrenOrString, depth: usize) -> (r: DocNode)
    ensures
        r.tree() == children_tree(*children, depth as nat),
    decreases children,
{
    match children {
        TextElementChildrenOrString::AsChildren(v) => {
            let mut out: Vec<DocNode> = Vec::new();
            let mut i: usize = 0;
            let ghost want = Seq::new(
                v@.len(),
                |k: int|
                    if 0 <= k < v@.len() {
                        child_tree(v@[k], depth as nat)
                    } else {
                        Tree::Other
                    },
            );
            assert(item_trees(out@) =~= want.take(0));
            while i < v.len()
                invariant
                    i <= v.len(),
                    item_trees(out@) == want.take(i as int),
                decreases v.len() - i,
            {
                let node = child_node(&v[i], depth);
                proof {
                    lemma_item_trees_push(out@, node);
                    assert(want.take(i + 1) =~= want.take(i as int).push(node.tree()));
                }
                out.push(node);
                i += 1;
            }
            proof {
                lemma_list_tree(out);
                assert(want.take(v@.len() as int) =~= want);
                assert(children_tree(*children, depth as nat)->List_0 =~= want);
            }
            DocNode::List(out)
        },
        TextElementChildrenOrString::AsStringArray(v) => runs_node(v),
        TextElementChildrenOrString::AsString(s) => single_run_node(s.as_str()),
    }
}

/// A node below the root of a text element, written at depth `depth`: cut
/// off below the depth limit, else with its children one level deeper.
pub fn child_node(child: &TextElementChild, depth: usize) -> (r: DocNode)
    ensures
        r.tree() == child_tree(*child, depth as nat),
    decreases child,
{
    if depth > MAX_DEPTH {
        return truncated_node();
    }
    let children = children_node(&child.children, depth + 1);
    text_node(child.node_name.as_str(), &child.attributes, children)
}

/// A text element: its root, and its nodes from depth one on.
pub fn text_element_node(te: &TextElement) -> (r: DocNode)
    ensures
        r.tree() == text_element_tree(*te),
{
    let children = children_node(&te.children, 1);
    text_node(te.node_name.as_str(), &te.attributes, children)
}

/// The children of a node with nothing cut off.
pub open spec fn children_tree_whole(children: TextElementChildrenOrString) -> Tree
    decreases children,
{
    match children {
        TextElementChildrenOrString::AsChildren(v) => Tree::List(
            Seq::new(
                v@.len(),
                |i: int|
                    if 0 <= i < v@.len() {
                        child_tree_whole(v@[i])
                    } else {
                        Tree::Other
                    },
            ),
        ),
        TextElementChildrenOrString::AsStringArray(v) => runs_tree(v@),
        TextElementChildrenOrString::AsString(s) => Tree::List(seq![Tree::Text(s@)]),
    }
}

/// A node below the root with nothing cut off.
pub open spec fn child_tree_whole(child: TextElementChild) -> Tree
    decreases child,
{
    text_node_tree(child.node_name@, child.attributes@, children_tree_whole(child.children))
}

/// Every node among these children and below them, the children standing
/// at depth `depth`, stands no deeper than the depth limit.
pub open spec fn children_within(children: TextElementChildrenOrString, depth: nat) -> bool
    decreases children,
{
    match children {
        TextElementChildrenOrString::AsChildren(v) => forall|i: int|
            0 <= i < v@.len() ==> child_within(#[trigger] v@[i], depth),
        _ => true,
    }
}

/// The node, standing at depth `depth`, and every node below it stands no
/// deeper than the depth limit.
pub open spec fn child_within(child: TextElementChild, depth: nat) -> bool
    decreases child,
{
    depth <= MAX_DEPTH && children_within(child.children, depth + 1)
}

/// Children that stand no deeper than the depth limit with all that is
/// below them are written whole.
pub proof fn lemma_children_whole(children: TextElementChildrenOrString, depth: nat)
    requires
        children_within(children, depth),
    ensures
        children_tree(children, depth) == children_tree_whole(children),
    decreases children,
{
    match children {
        TextElementChildrenOrString::AsChildren(v) => {
            assert forall|i: int| 0 <= i < v@.len() implies child_tree(v@[i], depth)
                == child_tree_whole(v@[i]) by {
                assert(child_within(v@[i], depth));
                lemma_child_whole(v@[i], depth);
            }
            assert(children_tree(children, depth)->List_0 =~= children_tree_whole(
                children,
            )->List_0);
        },
        _ => {},
    }
}

/// A node that stands no deeper than the depth limit with all that is
/// below it is written whole.
pub proof fn lemma_child_whole(child: TextElementChild, depth: nat)
    requires
        child_within(child, depth),
    ensures
        child_tree(child, depth) == child_tree_whole(child),
    decreases child,
{
    lemma_children_whole(child.children, depth + 1);
}

/// A node at the depth limit, or above it, is written: its name, its
/// attributes, and its children one level deeper. Nothing stands for it.
pub proof fn law_depth_limit_is_written(child: TextElementChild, depth: nat)
    requires
        depth <= MAX_DEPTH,
    ensures
        child_tree(child, depth) == text_node_tree(
            child.node_name@,
            child.attributes@,
            children_tree(child.children, depth + 1),
        ),
        child_tree(child, depth) != truncated_tree(),
{
    let t = child_tree(child, depth);
    assert(t->Dict_0.len() == 3);
    assert(truncated_tree()->Dict_0.len() == 2);
}

/// A text element of which no node stands deeper than the depth limit is
/// written whole: nothing of it is cut off.
pub proof fn law_within_depth_limit_is_whole(te: TextElement)
    requires
        children_within(te.children, 1),
    ensures
        text_element_tree(te) == text_node_tree(
            te.node_name@,
            te.attributes@,
            children_tree_whole(te.children),
        ),
{
    lemma_children_whole(te.children, 1);
}

/// A node below the depth limit is cut off: in its place stands the node
/// called `truncated`, whatever the node holds.
pub proof fn law_beyond_depth_limit_is_cut(child: TextElementChild, depth: nat)
    requires
        depth > MAX_DEPTH,
    ensures
        child_tree(child, depth) == truncated_tree(),
{
}

/// A list of strings, a list of runs of text and a map of strings can be
/// written.
pub proof fn lemma_plain_writable(items: Seq<String>, attrs: Seq<(String, String)>)
    ensures
        writable(strings_tree(items)),
        writable(runs_tree(items)),
        writable(attributes_tree(attrs)),
        writable(truncated_tree()),
{
    assert forall|i: int| 0 <= i < items.len() implies writable(
        #[trigger] runs_tree(items)->List_0[i],
    ) by {
        assert(runs_tree(items)->List_0[i] == Tree::Text(items[i]@));
    }
}

/// An access list can be written.
pub proof fn lemma_acls_writable(acls: Seq<(ColabModelPermission, Vec<String>)>)
    ensures
        writable(acls_tree(acls)),
{
    assert forall|i: int| 0 <= i < acls.len() implies writable(
        #[trigger] acls_tree(acls)->Dict_0[i].1,
    ) by {
        lemma_plain_writable(acls[i].1@, Seq::empty());
    }
}

/// A node of a text element can be written where its children can.
pub proof fn lemma_text_node_writable(
    name: Seq<char>,
    attrs: Seq<(String, String)>,
    children: Tree,
)
    requires
        writable(children),
    ensures
        writable(text_node_tree(name, attrs, children)),
{
    lemma_plain_writable(Seq::empty(), attrs);
}

/// The children of a node can be written, at whatever depth they stand.
pub proof fn lemma_children_writable(children: TextElementChildrenOrString, depth: nat)
    ensures
        writable(children_tree(children, depth)),
    decreases children,
{
    match children {
        TextElementChildrenOrString::AsChildren(v) => {
            let items = children_tree(children, depth)->List_0;
            assert forall|i: int| 0 <= i < items.len() implies writable(#[trigger] items[i]) by {
                lemma_child_writable(v@[i], depth);
            }
            assert(items_writable(items));
            lemma_writable(children_tree(children, depth));
        },
        TextElementChildrenOrString::AsStringArray(v) => {
            lemma_plain_writable(v@, Seq::empty());
        },
        TextElementChildrenOrString::AsString(s) => {
            let items = seq![Tree::Text(s@)];
            assert forall|i: int| 0 <= i < items.len() implies writable(#[trigger] items[i]) by {
                assert(items[i] == Tree::Text(s@));
            }
            assert(items_writable(items));
            lemma_writable(children_tree(children, depth));
        },
    }
}

/// A node below the root can be written, at whatever depth it stands.
pub proof fn lemma_child_writable(child: TextElementChild, depth: nat)
    ensures
        writable(child_tree(child, depth)),
    decreases child,
{
    if depth > MAX_DEPTH {
        lemma_plain_writable(Seq::empty(), Seq::empty());
    } else {
        lemma_children_writable(child.children, depth + 1);
        lemma_text_node_writable(
            child.node_name@,
            child.attributes@,
            children_tree(child.children, depth + 1),
        );
    }
}

/// A text element can be written.
pub proof fn lemma_text_element_writable(te: TextElement)
    ensures
        writable(text_element_tree(te)),
{
    lemma_children_writable(te.children, 1);
    lemma_text_node_writable(te.node_name@, te.attributes@, children_tree(te.children, 1));
}

} // verus!
