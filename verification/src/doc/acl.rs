//! Which access lists of a document are cleared when the document moves to
//! a library, and the clearing itself.

use crate::crdt::{
    clear_dict_at, commit, dict_keys_at, doc_items, found, index_path, place_of, places, Item,
    Place, Step,
};
use crate::doc::tree::{
    child_of, entry_of, entry_trees, item_trees, lemma_dict_tree, lemma_list_tree, DocNode, Tree,
};
use crate::doc::write::{doc_reads, lemma_places_push, read_doc};
use crate::json::texts;
use crate::error::ErrorKind;
use crate::text::str_eq;
use vstd::prelude::*;
use vstd::string::*;

verus! {

/// Paths as values.
pub open spec fn all_places(paths: Seq<Vec<Step>>) -> Seq<Seq<Place>> {
    Seq::new(paths.len(), |i: int| places(paths[i]@))
}

/// The node is a map container that holds a map container under `acls`.
pub open spec fn has_acls(t: Tree) -> bool {
    t is Dict && child_of(t, "acls"@) is Some && child_of(t, "acls"@)->0 is Dict
}

/// The access list of `t` at `prefix`, where `t` has one.
pub open spec fn own_target(prefix: Seq<Place>, t: Tree) -> Seq<Seq<Place>> {
    if has_acls(t) {
        seq![prefix.push(Place::Key("acls"@))]
    } else {
        Seq::empty()
    }
}

/// The access lists of the first `n` languages of a statement's content,
/// which stands at `prefix`.
pub open spec fn language_targets(prefix: Seq<Place>, langs: Seq<(Seq<char>, Tree)>, n: int) -> Seq<
    Seq<Place>,
>
    decreases n,
{
    if n <= 0 {
        Seq::empty()
    } else {
        language_targets(prefix, langs, n - 1) + own_target(
            prefix.push(Place::Key(langs[n - 1].0)),
            langs[n - 1].1,
        )
    }
}

/// The access lists of a statement that stands in a row at `prefix`: its
/// own and those of its languages. The statement must hold both an access
/// list and a content.
pub open spec fn statement_targets(prefix: Seq<Place>, stmt: Tree) -> Result<
    Seq<Seq<Place>>,
    ErrorKind,
> {
    if has_acls(stmt) && child_of(stmt, "content"@) is Some && child_of(stmt, "content"@)->0 is Dict {
        Ok(
            own_target(prefix, stmt) + language_targets(
                prefix.push(Place::Key("content"@)),
                child_of(stmt, "content"@)->0->Dict_0,
                child_of(stmt, "content"@)->0->Dict_0.len() as int,
            ),
        )
    } else {
        Err(ErrorKind::Internal)
    }
}

/// The access lists of a row at `prefix`: those of its statement where the
/// row is of type `local`, none for any other row.
pub open spec fn row_targets(prefix: Seq<Place>, row: Tree) -> Result<Seq<Seq<Place>>, ErrorKind> {
    if row is Dict && child_of(row, "type"@) is Some && child_of(row, "type"@)->0 is Str {
        if child_of(row, "type"@)->0->Str_0 == "local"@ {
            if child_of(row, "statement"@) is Some {
                statement_targets(
                    prefix.push(Place::Key("statement"@)),
                    child_of(row, "statement"@)->0,
                )
            } else {
                Err(ErrorKind::Internal)
            }
        } else {
            Ok(Seq::empty())
        }
    } else {
        Err(ErrorKind::Internal)
    }
}

/// The access lists of the first `n` rows of a grid whose rows stand at
/// `prefix`, or the first failure among them.
pub open spec fn rows_targets(prefix: Seq<Place>, rows: Seq<Tree>, n: int) -> Result<
    Seq<Seq<Place>>,
    ErrorKind,
>
    decreases n,
{
    if n <= 0 {
        Ok(Seq::empty())
    } else {
        match rows_targets(prefix, rows, n - 1) {
            Err(e) => Err(e),
            Ok(head) => match row_targets(prefix.push(Place::At(n - 1)), rows[n - 1]) {
                Err(e) => Err(e),
                Ok(tail) => Ok(head + tail),
            },
        }
    }
}

/// A type of block that this service knows.
pub open spec fn known_block(t: Seq<char>) -> bool {
    t == "statement-grid"@ || t == "text"@ || t == "properties"@ || t == "attributes"@
}

/// The access lists of a block at `prefix`: its own, and for a statement
/// grid those of its local rows. What is no map container has none; a block
/// without a type fails, and a block of a type that is not known is not
/// supported.
pub open spec fn block_targets(prefix: Seq<Place>, block: Tree) -> Result<
    Seq<Seq<Place>>,
    ErrorKind,
> {
    if !(block is Dict) {
        Ok(Seq::empty())
    } else if !(child_of(block, "type"@) is Some && child_of(block, "type"@)->0 is Str) {
        Err(ErrorKind::Internal)
    } else if !known_block(child_of(block, "type"@)->0->Str_0) {
        Err(ErrorKind::Unsupported)
    } else if child_of(block, "type"@)->0->Str_0 == "statement-grid"@ {
        if child_of(block, "rows"@) is Some && child_of(block, "rows"@)->0 is Movable {
            match rows_targets(
                prefix.push(Place::Key("rows"@)),
                child_of(block, "rows"@)->0->Movable_0,
                child_of(block, "rows"@)->0->Movable_0.len() as int,
            ) {
                Ok(rows) => Ok(own_target(prefix, block) + rows),
                Err(e) => Err(e),
            }
        } else {
            Err(ErrorKind::Internal)
        }
    } else {
        Ok(own_target(prefix, block))
    }
}

/// The access lists of the first `n` blocks of a sheet whose blocks stand
/// at `prefix`, or the first failure among them.
pub open spec fn blocks_targets(prefix: Seq<Place>, blocks: Seq<Tree>, n: int) -> Result<
    Seq<Seq<Place>>,
    ErrorKind,
>
    decreases n,
{
    if n <= 0 {
        Ok(Seq::empty())
    } else {
        match blocks_targets(prefix, blocks, n - 1) {
            Err(e) => Err(e),
            Ok(head) => match block_targets(prefix.push(Place::At(n - 1)), blocks[n - 1]) {
                Err(e) => Err(e),
                Ok(tail) => Ok(head + tail),
            },
        }
    }
}

/// The type of a document: the string under `type` in its `properties`.
pub open spec fn doc_type_of(root: Tree) -> Option<Seq<char>> {
    if child_of(root, "properties"@) is Some && child_of(
        child_of(root, "properties"@)->0,
        "type"@,
    ) is Some && child_of(child_of(root, "properties"@)->0, "type"@)->0 is Str {
        Some(child_of(child_of(root, "properties"@)->0, "type"@)->0->Str_0)
    } else {
        None
    }
}

/// The access lists of a document, in the order in which they are cleared:
/// that of the root; for a statement those of its languages; for a sheet
/// those of its blocks and of the statements in the local rows of its
/// grids. A document of no known type is not supported.
pub open spec fn acl_targets(root: Tree) -> Result<Seq<Seq<Place>>, ErrorKind> {
    let top = seq![seq![Place::Key("acls"@)]];
    let content = seq![Place::Key("content"@)];
    match doc_type_of(root) {
        None => Err(ErrorKind::Unsupported),
        Some(t) => if t == "colab-statement"@ {
            if child_of(root, "content"@) is Some && child_of(root, "content"@)->0 is Dict {
                Ok(
                    top + language_targets(
                        content,
                        child_of(root, "content"@)->0->Dict_0,
                        child_of(root, "content"@)->0->Dict_0.len() as int,
                    ),
                )
            } else {
                Ok(top)
            }
        } else if t == "colab-sheet"@ {
            if child_of(root, "content"@) is Some && child_of(root, "content"@)->0 is Movable {
                match blocks_targets(
                    content,
                    child_of(root, "content"@)->0->Movable_0,
                    child_of(root, "content"@)->0->Movable_0.len() as int,
                ) {
                    Ok(blocks) => Ok(top + blocks),
                    Err(e) => Err(e),
                }
            } else {
                Ok(top)
            }
        } else {
            Err(ErrorKind::Unsupported)
        },
    }
}

/// A copy of a path with one more step.
pub fn extend(path: &Vec<Step>, step: Step) -> (r: Vec<Step>)
    ensures
        places(r@) == places(path@).push(place_of(step)),
{
    let mut out: Vec<Step> = Vec::new();
    let mut i: usize = 0;
    assert(places(out@) =~= places(path@).take(0));
    while i < path.len()
        invariant
            i <= path.len(),
            places(out@) == places(path@).take(i as int),
        decreases path.len() - i,
    {
        let s = match &path[i] {
            Step::Key(k) => Step::Key(k.clone()),
            Step::At(n) => Step::At(*n),
        };
        let ghost before = out@;
        assert(place_of(s) == place_of(path@[i as int]));
        out.push(s);
        assert(places(out@) =~= places(before).push(place_of(s)));
        assert(places(path@).take(i + 1) =~= places(path@).take(i as int).push(
            place_of(path@[i as int]),
        ));
        i += 1;
    }
    assert(places(path@).take(path@.len() as int) =~= places(path@));
    let ghost before = out@;
    out.push(step);
    assert(places(out@) =~= places(before).push(place_of(step)));
    out
}

/// A copy of a path with one more key.
pub fn extend_key(path: &Vec<Step>, key: &str) -> (r: Vec<Step>)
    ensures
        places(r@) == places(path@).push(Place::Key(key@)),
{
    extend(path, Step::Key(String::from_str(key)))
}

/// Whether the node is a map container that holds a map container under
/// `acls`.
pub fn node_has_acls(node: &DocNode) -> (r: bool)
    ensures
        r == has_acls(node.tree()),
{
    match node {
        DocNode::Dict(_) => match node.child("acls") {
            Some(DocNode::Dict(_)) => true,
            _ => false,
        },
        _ => false,
    }
}

/// Appends the access list of `node` at `prefix` to `out`, where `node`
/// has one.
pub fn push_own(out: &mut Vec<Vec<Step>>, prefix: &Vec<Step>, node: &DocNode)
    ensures
        all_places(final(out)@) == all_places(old(out)@) + own_target(places(prefix@), node.tree()),
{
    if node_has_acls(node) {
        let p = extend_key(prefix, "acls");
        out.push(p);
        assert(all_places(out@) =~= all_places(old(out)@) + seq![places(p@)]);
    } else {
        assert(all_places(out@) =~= all_places(old(out)@) + Seq::empty());
    }
}

/// Appends the access lists of the languages `langs`, which stand at
/// `prefix`, to `out`.
pub fn push_languages(out: &mut Vec<Vec<Step>>, prefix: &Vec<Step>, langs: &Vec<(String, DocNode)>)
    ensures
        all_places(final(out)@) == all_places(old(out)@) + language_targets(
            places(prefix@),
            entry_trees(langs@),
            langs@.len() as int,
        ),
{
    let mut i: usize = 0;
    assert(all_places(out@) =~= all_places(old(out)@) + Seq::empty());
    while i < langs.len()
        invariant
            i <= langs.len(),
            all_places(out@) == all_places(old(out)@) + language_targets(
                places(prefix@),
                entry_trees(langs@),
                i as int,
            ),
        decreases langs.len() - i,
    {
        let here = extend_key(prefix, langs[i].0.as_str());
        let ghost before = all_places(out@);
        push_own(out, &here, &langs[i].1);
        proof {
            let head = language_targets(places(prefix@), entry_trees(langs@), i as int);
            let tail = own_target(places(here@), langs@[i as int].1.tree());
            assert(entry_trees(langs@)[i as int] == (langs@[i as int].0@, langs@[i as int].1.tree()));
            assert(all_places(out@) =~= all_places(old(out)@) + (head + tail));
        }
        i += 1;
    }
}

/// `paths` as the result of a plan.
pub open spec fn planned(r: Result<Vec<Vec<Step>>, ErrorKind>) -> Result<Seq<Seq<Place>>, ErrorKind> {
    match r {
        Ok(paths) => Ok(all_places(paths@)),
        Err(e) => Err(e),
    }
}

/// Moves the paths of `more` behind those of `out`.
pub fn push_all(out: &mut Vec<Vec<Step>>, more: Vec<Vec<Step>>)
    ensures
        all_places(final(out)@) == all_places(old(out)@) + all_places(more@),
{
    let ghost moved = more@;
    let mut rest = more;
    out.append(&mut rest);
    assert(all_places(out@) =~= all_places(old(out)@) + all_places(moved));
}

/// The string under `key` in a map node.
pub fn string_under<'a>(node: &'a DocNode, key: &str) -> (r: Option<&'a String>)
    ensures
        match r {
            Some(s) => child_of(node.tree(), key@) is Some && child_of(node.tree(), key@)->0
                == Tree::Str(s@),
            None => !(child_of(node.tree(), key@) is Some && child_of(node.tree(), key@)->0 is Str),
        },
{
    match node.child(key) {
        Some(DocNode::Str(s)) => Some(s),
        _ => None,
    }
}

/// The access lists of a statement that stands in a row at `prefix`.
pub fn plan_statement(prefix: &Vec<Step>, stmt: &DocNode) -> (r: Result<Vec<Vec<Step>>, ErrorKind>)
    ensures
        planned(r) == statement_targets(places(prefix@), stmt.tree()),
{
    if !node_has_acls(stmt) {
        return Err(ErrorKind::Internal);
    }
    let langs = match stmt.child("content") {
        Some(DocNode::Dict(langs)) => langs,
        _ => {
            return Err(ErrorKind::Internal);
        },
    };
    proof {
        lemma_dict_tree(*langs);
    }
    let mut out: Vec<Vec<Step>> = Vec::new();
    assert(all_places(out@) =~= Seq::empty());
    push_own(&mut out, prefix, stmt);
    let content = extend_key(prefix, "content");
    push_languages(&mut out, &content, langs);
    assert(all_places(out@) =~= own_target(places(prefix@), stmt.tree()) + language_targets(
        places(content@),
        entry_trees(langs@),
        langs@.len() as int,
    ));
    Ok(out)
}

/// The access lists of a row at `prefix`.
pub fn plan_row(prefix: &Vec<Step>, row: &DocNode) -> (r: Result<Vec<Vec<Step>>, ErrorKind>)
    ensures
        planned(r) == row_targets(places(prefix@), row.tree()),
{
    match row {
        DocNode::Dict(_) => {},
        _ => {
            return Err(ErrorKind::Internal);
        },
    }
    let kind = match string_under(row, "type") {
        Some(k) => k,
        None => {
            return Err(ErrorKind::Internal);
        },
    };
    if !str_eq(kind.as_str(), "local") {
        let out: Vec<Vec<Step>> = Vec::new();
        assert(all_places(out@) =~= Seq::empty());
        return Ok(out);
    }
    match row.child("statement") {
        Some(stmt) => plan_statement(&extend_key(prefix, "statement"), stmt),
        None => Err(ErrorKind::Internal),
    }
}

/// The access lists of the rows of a grid; the rows stand at `prefix`.
pub fn plan_rows(prefix: &Vec<Step>, rows: &Vec<DocNode>) -> (r: Result<Vec<Vec<Step>>, ErrorKind>)
    ensures
        planned(r) == rows_targets(places(prefix@), item_trees(rows@), rows@.len() as int),
{
    let mut out: Vec<Vec<Step>> = Vec::new();
    let mut i: usize = 0;
    assert(all_places(out@) =~= Seq::empty());
    while i < rows.len()
        invariant
            i <= rows.len(),
            rows_targets(places(prefix@), item_trees(rows@), i as int) == Ok::<
                Seq<Seq<Place>>,
                ErrorKind,
            >(all_places(out@)),
        decreases rows.len() - i,
    {
        let here = extend(prefix, Step::At(i));
        assert(item_trees(rows@)[i as int] == rows@[i as int].tree());
        match plan_row(&here, &rows[i]) {
            Ok(more) => {
                push_all(&mut out, more);
            },
            Err(e) => {
                proof {
                    lemma_rows_fail(places(prefix@), item_trees(rows@), i as int + 1, rows@.len() as int);
                }
                return Err(e);
            },
        }
        i += 1;
    }
    Ok(out)
}

/// Where the first `n` rows fail, so do the first `m` for every greater
/// `m`, and in the same way.
pub proof fn lemma_rows_fail(prefix: Seq<Place>, rows: Seq<Tree>, n: int, m: int)
    requires
        n <= m,
        rows_targets(prefix, rows, n) is Err,
    ensures
        rows_targets(prefix, rows, m) == rows_targets(prefix, rows, n),
    decreases m - n,
{
    if n < m {
        lemma_rows_fail(prefix, rows, n, m - 1);
    }
}

/// Where the first `n` blocks fail, so do the first `m` for every greater
/// `m`, and in the same way.
pub proof fn lemma_blocks_fail(prefix: Seq<Place>, blocks: Seq<Tree>, n: int, m: int)
    requires
        n <= m,
        blocks_targets(prefix, blocks, n) is Err,
    ensures
        blocks_targets(prefix, blocks, m) == blocks_targets(prefix, blocks, n),
    decreases m - n,
{
    if n < m {
        lemma_blocks_fail(prefix, blocks, n, m - 1);
    }
}

/// Whether a type of block is one that this service knows.
pub fn is_known_block(kind: &str) -> (r: bool)
    ensures
        r == known_block(kind@),
{
    str_eq(kind, "statement-grid") || str_eq(kind, "text") || str_eq(kind, "properties") || str_eq(
        kind,
        "attributes",
    )
}

/// The access lists of a block at `prefix`.
pub fn plan_block(prefix: &Vec<Step>, block: &DocNode) -> (r: Result<Vec<Vec<Step>>, ErrorKind>)
    ensures
        planned(r) == block_targets(places(prefix@), block.tree()),
{
    let mut out: Vec<Vec<Step>> = Vec::new();
    assert(all_places(out@) =~= Seq::empty());
    match block {
        DocNode::Dict(_) => {},
        _ => {
            return Ok(out);
        },
    }
    let kind = match string_under(block, "type") {
        Some(k) => k,
        None => {
            return Err(ErrorKind::Internal);
        },
    };
    if !is_known_block(kind.as_str()) {
        return Err(ErrorKind::Unsupported);
    }
    push_own(&mut out, prefix, block);
    if str_eq(kind.as_str(), "statement-grid") {
        let rows = match block.child("rows") {
            Some(DocNode::Movable(rows)) => rows,
            _ => {
                return Err(ErrorKind::Internal);
            },
        };
        proof {
            lemma_list_tree(*rows);
        }
        match plan_rows(&extend_key(prefix, "rows"), rows) {
            Ok(more) => {
                push_all(&mut out, more);
            },
            Err(e) => {
                return Err(e);
            },
        }
    }
    Ok(out)
}

/// The access lists of the blocks of a sheet; the blocks stand at `prefix`.
pub fn plan_blocks(prefix: &Vec<Step>, blocks: &Vec<DocNode>) -> (r: Result<
    Vec<Vec<Step>>,
    ErrorKind,
>)
    ensures
        planned(r) == blocks_targets(places(prefix@), item_trees(blocks@), blocks@.len() as int),
{
    let mut out: Vec<Vec<Step>> = Vec::new();
    let mut i: usize = 0;
    assert(all_places(out@) =~= Seq::empty());
    while i < blocks.len()
        invariant
            i <= blocks.len(),
            blocks_targets(places(prefix@), item_trees(blocks@), i as int) == Ok::<
                Seq<Seq<Place>>,
                ErrorKind,
            >(all_places(out@)),
        decreases blocks.len() - i,
    {
        let here = extend(prefix, Step::At(i));
        assert(item_trees(blocks@)[i as int] == blocks@[i as int].tree());
        match plan_block(&here, &blocks[i]) {
            Ok(more) => {
                push_all(&mut out, more);
            },
            Err(e) => {
                proof {
                    lemma_blocks_fail(
                        places(prefix@),
                        item_trees(blocks@),
                        i as int + 1,
                        blocks@.len() as int,
                    );
                }
                return Err(e);
            },
        }
        i += 1;
    }
    Ok(out)
}

/// The type of a document.
pub fn doc_type<'a>(root: &'a DocNode) -> (r: Option<&'a String>)
    ensures
        match r {
            Some(t) => doc_type_of(root.tree()) == Some(t@),
            None => doc_type_of(root.tree()) is None,
        },
{
    match root.child("properties") {
        Some(props) => string_under(props, "type"),
        None => None,
    }
}

/// The access lists of a document that are cleared when it moves to a
/// library, as paths from the root, in the order in which they are cleared.
pub fn plan_acl_clear(root: &DocNode) -> (r: Result<Vec<Vec<Step>>, ErrorKind>)
    ensures
        planned(r) == acl_targets(root.tree()),
{
    let kind = match doc_type(root) {
        Some(k) => k,
        None => {
            return Err(ErrorKind::Unsupported);
        },
    };
    let nothing: Vec<Step> = Vec::new();
    assert(places(nothing@) =~= Seq::empty());
    let top = extend_key(&nothing, "acls");
    let content = extend_key(&nothing, "content");
    assert(places(top@) =~= seq![Place::Key("acls"@)]);
    assert(places(content@) =~= seq![Place::Key("content"@)]);
    let mut out: Vec<Vec<Step>> = Vec::new();
    out.push(top);
    assert(all_places(out@) =~= seq![seq![Place::Key("acls"@)]]);
    if str_eq(kind.as_str(), "colab-statement") {
        match root.child("content") {
            Some(DocNode::Dict(langs)) => {
                proof {
                    lemma_dict_tree(*langs);
                }
                push_languages(&mut out, &content, langs);
            },
            _ => {},
        }
        Ok(out)
    } else if str_eq(kind.as_str(), "colab-sheet") {
        match root.child("content") {
            Some(DocNode::Movable(blocks)) => {
                proof {
                    lemma_list_tree(*blocks);
                }
                match plan_blocks(&content, blocks) {
                    Ok(more) => {
                        push_all(&mut out, more);
                        Ok(out)
                    },
                    Err(e) => Err(e),
                }
            },
            _ => Ok(out),
        }
    } else {
        Err(ErrorKind::Unsupported)
    }
}

/// Whether two paths are the same path.
pub fn same_path(a: &Vec<Step>, b: &Vec<Step>) -> (r: bool)
    ensures
        r == (places(a@) == places(b@)),
{
    if a.len() != b.len() {
        assert(places(a@).len() != places(b@).len());
        return false;
    }
    let mut i: usize = 0;
    while i < a.len()
        invariant
            i <= a.len(),
            a@.len() == b@.len(),
            forall|j: int| 0 <= j < i ==> place_of(#[trigger] a@[j]) == place_of(b@[j]),
        decreases a.len() - i,
    {
        let same = match (&a[i], &b[i]) {
            (Step::Key(x), Step::Key(y)) => str_eq(x.as_str(), y.as_str()),
            (Step::At(x), Step::At(y)) => *x == *y,
            _ => false,
        };
        if !same {
            assert(places(a@)[i as int] == place_of(a@[i as int]));
            assert(places(b@)[i as int] == place_of(b@[i as int]));
            assert(places(a@)[i as int] != places(b@)[i as int]);
            return false;
        }
        i += 1;
    }
    assert(places(a@) =~= places(b@));
    true
}

/// Whether the path is one of the paths.
pub fn is_among(path: &Vec<Step>, paths: &Vec<Vec<Step>>) -> (r: bool)
    ensures
        r == all_places(paths@).contains(places(path@)),
{
    let mut i: usize = 0;
    while i < paths.len()
        invariant
            i <= paths.len(),
            forall|j: int| 0 <= j < i ==> #[trigger] all_places(paths@)[j] != places(path@),
        decreases paths.len() - i,
    {
        assert(all_places(paths@)[i as int] == places(paths@[i as int]@));
        if same_path(path, &paths[i]) {
            return true;
        }
        i += 1;
    }
    false
}

/// Whether the tree `after` holds what the tree `before` holds but for the
/// maps at the paths `targets`, which are empty in `after`. The trees stand
/// at the path `here`. Plain values and texts are equal; maps have the same
/// keys, whatever their order, and what stands under a key is as it was;
/// lists are as they were item by item; what could not be read before
/// cannot be read afterwards.
pub open spec fn cleared_alike(
    before: Tree,
    after: Tree,
    here: Seq<Place>,
    targets: Seq<Seq<Place>>,
) -> bool
    decreases before,
{
    if targets.contains(here) {
        after is Dict && after->Dict_0.len() == 0
    } else {
        match before {
            Tree::Str(s) => after == Tree::Str(s),
            Tree::Int(i) => after == Tree::Int(i),
            Tree::Text(s) => after == Tree::Text(s),
            Tree::Dict(entries) => {
                &&& after is Dict
                &&& entries.len() == after->Dict_0.len()
                &&& forall|i: int|
                    #![trigger entries[i]]
                    0 <= i < entries.len() ==> entry_of(after->Dict_0, entries[i].0) is Some
                        && cleared_alike(
                        entries[i].1,
                        entry_of(after->Dict_0, entries[i].0)->0,
                        here.push(Place::Key(entries[i].0)),
                        targets,
                    )
                &&& forall|j: int|
                    #![trigger after->Dict_0[j]]
                    0 <= j < after->Dict_0.len() ==> entry_of(entries, after->Dict_0[j].0) is Some
            },
            Tree::List(items) => {
                &&& after is List
                &&& items.len() == after->List_0.len()
                &&& forall|i: int|
                    #![trigger items[i]]
                    0 <= i < items.len() ==> cleared_alike(
                        items[i],
                        after->List_0[i],
                        here.push(Place::At(i)),
                        targets,
                    )
            },
            Tree::Movable(items) => {
                &&& after is Movable
                &&& items.len() == after->Movable_0.len()
                &&& forall|i: int|
                    #![trigger items[i]]
                    0 <= i < items.len() ==> cleared_alike(
                        items[i],
                        after->Movable_0[i],
                        here.push(Place::At(i)),
                        targets,
                    )
            },
            Tree::Other => after is Other,
        }
    }
}

/// Whether the items of `after` hold what those of `before` hold but for
/// the maps at the paths `targets`.
#[verifier::loop_isolation(false)]
fn same_cleared_items(
    before: &Vec<DocNode>,
    after: &Vec<DocNode>,
    here: &mut Vec<Step>,
    targets: &Vec<Vec<Step>>,
) -> (r: bool)
    ensures
        final(here)@ == old(here)@,
        r == (before@.len() == after@.len() && forall|i: int|
            #![trigger item_trees(before@)[i]]
            0 <= i < before@.len() ==> cleared_alike(
                item_trees(before@)[i],
                item_trees(after@)[i],
                places(old(here)@).push(Place::At(i)),
                all_places(targets@),
            )),
    decreases before, 0nat,
{
    if before.len() != after.len() {
        return false;
    }
    let mut i: usize = 0;
    while i < before.len()
        invariant
            i <= before.len(),
            here@ == old(here)@,
            forall|j: int|
                #![trigger item_trees(before@)[j]]
                0 <= j < i ==> cleared_alike(
                    item_trees(before@)[j],
                    item_trees(after@)[j],
                    places(old(here)@).push(Place::At(j)),
                    all_places(targets@),
                ),
        decreases before.len() - i,
    {
        assert(item_trees(before@)[i as int] == before@[i as int].tree());
        assert(item_trees(after@)[i as int] == after@[i as int].tree());
        proof {
            lemma_places_push(here@, Step::At(i));
        }
        here.push(Step::At(i));
        let same = same_cleared(&before[i], &after[i], here, targets);
        here.pop();
        assert(here@ =~= old(here)@);
        if !same {
            return false;
        }
        i += 1;
    }
    true
}

/// Whether `after` holds what `before` holds but for the maps at the paths
/// `targets`, which are empty in `after`; both stand at the path `here`.
#[verifier::loop_isolation(false)]
pub fn same_cleared(
    before: &DocNode,
    after: &DocNode,
    here: &mut Vec<Step>,
    targets: &Vec<Vec<Step>>,
) -> (r: bool)
    ensures
        final(here)@ == old(here)@,
        r == cleared_alike(
            before.tree(),
            after.tree(),
            places(old(here)@),
            all_places(targets@),
        ),
    decreases before, 1nat,
{
    if is_among(here, targets) {
        return match after {
            DocNode::Dict(entries) => {
                proof {
                    lemma_dict_tree(*entries);
                }
                entries.len() == 0
            },
            _ => false,
        };
    }
    match (before, after) {
        (DocNode::Str(a), DocNode::Str(b)) => str_eq(a.as_str(), b.as_str()),
        (DocNode::Int(a), DocNode::Int(b)) => *a == *b,
        (DocNode::Text(a), DocNode::Text(b)) => str_eq(a.as_str(), b.as_str()),
        (DocNode::Dict(a), DocNode::Dict(b)) => {
            proof {
                lemma_dict_tree(*a);
                lemma_dict_tree(*b);
            }
            let ghost ta = entry_trees(a@);
            let ghost tb = entry_trees(b@);
            if a.len() != b.len() {
                return false;
            }
            let mut i: usize = 0;
            while i < a.len()
                invariant
                    i <= a.len(),
                    here@ == old(here)@,
                    forall|j: int|
                        #![trigger ta[j]]
                        0 <= j < i ==> entry_of(tb, ta[j].0) is Some && cleared_alike(
                            ta[j].1,
                            entry_of(tb, ta[j].0)->0,
                            places(old(here)@).push(Place::Key(ta[j].0)),
                            all_places(targets@),
                        ),
                decreases a.len() - i,
            {
                assert(ta[i as int] == (a@[i as int].0@, a@[i as int].1.tree()));
                match after.child(a[i].0.as_str()) {
                    Some(other) => {
                        proof {
                            lemma_places_push(here@, Step::Key(a@[i as int].0));
                        }
                        here.push(Step::Key(a[i].0.clone()));
                        let same = same_cleared(&a[i].1, other, here, targets);
                        here.pop();
                        assert(here@ =~= old(here)@);
                        if !same {
                            return false;
                        }
                    },
                    None => {
                        return false;
                    },
                }
                i += 1;
            }
            let mut k: usize = 0;
            while k < b.len()
                invariant
                    k <= b.len(),
                    forall|j: int|
                        #![trigger tb[j]]
                        0 <= j < k ==> entry_of(ta, tb[j].0) is Some,
                decreases b.len() - k,
            {
                assert(tb[k as int] == (b@[k as int].0@, b@[k as int].1.tree()));
                if before.child(b[k].0.as_str()).is_none() {
                    return false;
                }
                k += 1;
            }
            true
        },
        (DocNode::List(a), DocNode::List(b)) => {
            proof {
                lemma_list_tree(*a);
                lemma_list_tree(*b);
            }
            same_cleared_items(a, b, here, targets)
        },
        (DocNode::Movable(a), DocNode::Movable(b)) => {
            proof {
                lemma_list_tree(*a);
                lemma_list_tree(*b);
            }
            same_cleared_items(a, b, here, targets)
        },
        (DocNode::Other, DocNode::Other) => true,
        _ => false,
    }
}

/// Whether `r` and the document `after` are what clearing the access lists
/// makes of the document `before`, which read as the tree `t`. Where the
/// access lists of `t` cannot be named, that is the answer and the document
/// stays as it is. Where they can, each of them is an empty map afterwards,
/// everything else that the document holds is as it was, and the result is
/// their number; the only other answer is that the document refused.
pub open spec fn clears(
    before: loro::LoroDoc,
    t: Tree,
    after: loro::LoroDoc,
    r: Result<usize, ErrorKind>,
) -> bool {
    match acl_targets(t) {
        Err(why) => r == Err::<usize, ErrorKind>(why) && after == before,
        Ok(targets) => match r {
            Ok(n) => {
                &&& n == targets.len()
                &&& forall|i: int|
                    0 <= i < targets.len() ==> found(doc_items(after), #[trigger] targets[i])
                        == Some(Item::Dict(Set::empty()))
                &&& exists|u: Tree|
                    doc_reads(after, u) && #[trigger] cleared_alike(t, u, Seq::empty(), targets)
            },
            Err(e) => e == ErrorKind::Internal,
        },
    }
}

/// Clears the access lists of a document, as `plan_acl_clear` names them
/// in the document's state, and ends the transaction. The document is then
/// read again: each of the access lists is an empty map and everything
/// else is as it was, or the result is an error. The result is the number
/// of access lists. Nothing is cleared where the plan fails.
#[verifier::loop_isolation(false)]
pub fn clear_acls(doc: &mut loro::LoroDoc) -> (r: Result<usize, ErrorKind>)
    ensures
        exists|t: Tree| doc_reads(*old(doc), t) && #[trigger] clears(*old(doc), t, *final(doc), r),
{
    let root = read_doc(doc);
    let ghost t = root.tree();
    let targets = match plan_acl_clear(&root) {
        Ok(t) => t,
        Err(e) => {
            assert(clears(*old(doc), t, *doc, Err(e)));
            return Err(e);
        },
    };
    assert(acl_targets(t) == Ok::<Seq<Seq<Place>>, ErrorKind>(all_places(targets@)));
    let mut i: usize = 0;
    while i < targets.len()
        invariant
            i <= targets.len(),
        decreases targets.len() - i,
    {
        match clear_dict_at(doc, &index_path(&targets[i])) {
            Ok(true) => {},
            _ => {
                assert(clears(*old(doc), t, *doc, Err(ErrorKind::Internal)));
                return Err(ErrorKind::Internal);
            },
        }
        i += 1;
    }
    commit(doc);
    let mut k: usize = 0;
    while k < targets.len()
        invariant
            k <= targets.len(),
            forall|j: int|
                0 <= j < k ==> found(doc_items(*doc), #[trigger] all_places(targets@)[j]) == Some(
                    Item::Dict(Set::empty()),
                ),
        decreases targets.len() - k,
    {
        let empty = match dict_keys_at(doc, &targets[k]) {
            Some(keys) => {
                assert(keys@.len() == 0 ==> texts(keys@).to_set() =~= Set::<Seq<char>>::empty());
                keys.len() == 0
            },
            None => false,
        };
        if !empty {
            assert(clears(*old(doc), t, *doc, Err(ErrorKind::Internal)));
            return Err(ErrorKind::Internal);
        }
        assert(all_places(targets@)[k as int] == places(targets@[k as int]@));
        k += 1;
    }
    let back = read_doc(doc);
    let mut here: Vec<Step> = Vec::new();
    assert(places(here@) =~= Seq::<Place>::empty());
    if !same_cleared(&root, &back, &mut here, &targets) {
        assert(clears(*old(doc), t, *doc, Err(ErrorKind::Internal)));
        return Err(ErrorKind::Internal);
    }
    assert(clears(*old(doc), t, *doc, Ok(targets.len())));
    Ok(targets.len())
}

} // verus!
