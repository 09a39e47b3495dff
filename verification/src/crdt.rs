//! The replicated document, as far as this crate handles it: every call into
//! the `loro` crate is made here. What a document holds has a name,
//! `doc_items`, which the functions that read a document speak of. Of the
//! functions that change a document nothing is claimed: what a change came
//! to is read again where it matters.

use crate::json::texts;
use vstd::prelude::*;

verus! {

/// A replicated document of the `loro` crate. It changes only through the
/// functions of this file that take it by `&mut`.
#[verifier::external_type_specification]
#[verifier::external_body]
pub struct ExLoroDoc(loro::LoroDoc);

/// A fresh, empty document (`LoroDoc::new`). Its peer is chosen at random.
#[verifier::external_body]
pub(crate) fn new_doc() -> loro::LoroDoc {
    loro::LoroDoc::new()
}

/// An independent copy of the document under a new peer (`LoroDoc::fork`).
#[verifier::external_body]
pub(crate) fn fork_doc(doc: &loro::LoroDoc) -> loro::LoroDoc {
    doc.fork()
}

/// The peer under which the document itself writes (`LoroDoc::peer_id`).
#[verifier::external_body]
pub(crate) fn own_peer(doc: &loro::LoroDoc) -> u64 {
    doc.peer_id()
}

/// Applies exported bytes to the document (`LoroDoc::import`). An error is
/// handed back as its text.
#[verifier::external_body]
pub(crate) fn import_bytes(doc: &mut loro::LoroDoc, bytes: &[u8]) -> Result<(), String> {
    doc.import(bytes).map(|_| ()).map_err(|e| e.to_string())
}

/// The version vector of the document's state (`LoroDoc::try_state_vv`), as
/// pairs of peer and counter in the order in which the vector is walked.
#[verifier::external_body]
pub(crate) fn state_versions(doc: &loro::LoroDoc) -> Result<Vec<(u64, i32)>, String> {
    doc.try_state_vv().map(|vv| vv.iter().map(|(p, c)| (*p, *c)).collect()).map_err(
        |e| e.to_string(),
    )
}

/// The whole document as bytes (`LoroDoc::export` in snapshot mode).
#[verifier::external_body]
pub(crate) fn export_snapshot(doc: &loro::LoroDoc) -> Result<Vec<u8>, String> {
    doc.export(loro::ExportMode::Snapshot).map_err(|e| e.to_string())
}

/// The document's current state, without its history, as bytes
/// (`LoroDoc::export` in state-only mode at the current version).
#[verifier::external_body]
pub(crate) fn export_state(doc: &loro::LoroDoc) -> Result<Vec<u8>, String> {
    doc.export(loro::ExportMode::state_only(None)).map_err(|e| e.to_string())
}

/// The document's state as JSON text (`LoroDoc::get_deep_value`, written out
/// by `ToJson::to_json`).
#[verifier::external_body]
pub(crate) fn deep_json(doc: &loro::LoroDoc) -> String {
    loro::ToJson::to_json(&doc.get_deep_value())
}

/// One step of a path into a document: a key of a map, or a position in a
/// list.
#[derive(Debug)]
pub enum Step {
    Key(String),
    At(usize),
}

/// One step of a path as a value.
pub enum Place {
    Key(Seq<char>),
    At(int),
}

/// A step as a value.
pub open spec fn place_of(s: Step) -> Place {
    match s {
        Step::Key(k) => Place::Key(k@),
        Step::At(i) => Place::At(i as int),
    }
}

/// A path as a value.
pub open spec fn places(path: Seq<Step>) -> Seq<Place> {
    Seq::new(path.len(), |i: int| place_of(path[i]))
}

/// What stands at a place of a document: a plain string or integer, or a
/// container: a text with its content, a map with its keys, a list or a
/// movable list with its length.
pub enum Item {
    Str(Seq<char>),
    Int(int),
    Text(Seq<char>),
    Dict(Set<Seq<char>>),
    List(nat),
    Movable(nat),
}

/// What a document holds: for each path, what `LoroDoc::get_by_path`
/// finds there, as far as it is one of the items above. A path at which it
/// finds nothing, or something else, is not in the map.
pub uninterp spec fn doc_items(doc: loro::LoroDoc) -> Map<Seq<Place>, Item>;

/// The names of a document's root containers: the keys of the map that
/// `LoroDoc::get_value` gives.
pub uninterp spec fn doc_roots(doc: loro::LoroDoc) -> Set<Seq<char>>;

/// The item at a path, if there is one.
pub open spec fn found(items: Map<Seq<Place>, Item>, path: Seq<Place>) -> Option<Item> {
    if items.contains_key(path) {
        Some(items[path])
    } else {
        None
    }
}

/// One step of a path, as `loro` takes it.
#[verifier::external_type_specification]
#[verifier::external_body]
pub struct ExIndex(loro::Index);

/// The containers that this crate creates.
#[derive(Debug, Clone, Copy, PartialEq, Eq, Structural)]
pub enum ContainerKind {
    Dict,
    List,
    MovableList,
    Text,
}

/// The path in the form that `LoroDoc::get_by_path` takes: a key becomes
/// `Index::Key`, a position `Index::Seq`.
#[verifier::external_body]
pub(crate) fn index_path(path: &Vec<Step>) -> Vec<loro::Index> {
    path.iter().map(
        |s|
            match s {
                Step::Key(k) => loro::Index::Key(k.as_str().into()),
                Step::At(i) => loro::Index::Seq(*i),
            },
    ).collect()
}

/// The plain string that `LoroDoc::get_by_path` finds at the path; `None`
/// where it finds anything else. This is what `doc_items` holds of plain
/// strings.
#[verifier::external_body]
pub(crate) fn string_at(doc: &loro::LoroDoc, path: &Vec<Step>) -> (r: Option<String>)
    ensures
        match r {
            Some(s) => found(doc_items(*doc), places(path@)) == Some(Item::Str(s@)),
            None => !(found(doc_items(*doc), places(path@)) matches Some(Item::Str(_))),
        },
{
    let p: Vec<loro::Index> = path.iter().map(|s| match s {
        Step::Key(k) => loro::Index::Key(k.as_str().into()),
        Step::At(i) => loro::Index::Seq(*i),
    }).collect();
    doc.get_by_path(&p).and_then(|v| v.into_value().ok()).and_then(
        |v| v.into_string().ok(),
    ).map(|s| s.to_string())
}

/// The plain integer that `LoroDoc::get_by_path` finds at the path; `None`
/// where it finds anything else. This is what `doc_items` holds of plain
/// integers.
#[verifier::external_body]
pub(crate) fn int_at(doc: &loro::LoroDoc, path: &Vec<Step>) -> (r: Option<i64>)
    ensures
        match r {
            Some(i) => found(doc_items(*doc), places(path@)) == Some(Item::Int(i as int)),
            None => !(found(doc_items(*doc), places(path@)) matches Some(Item::Int(_))),
        },
{
    let p: Vec<loro::Index> = path.iter().map(|s| match s {
        Step::Key(k) => loro::Index::Key(k.as_str().into()),
        Step::At(i) => loro::Index::Seq(*i),
    }).collect();
    doc.get_by_path(&p).and_then(|v| v.into_value().ok()).and_then(|v| v.into_i64().ok())
}

/// The content (`LoroText::to_string`) of the text container that
/// `LoroDoc::get_by_path` finds at the path; `None` where it finds anything
/// else. This is what `doc_items` holds of texts.
#[verifier::external_body]
pub(crate) fn text_at(doc: &loro::LoroDoc, path: &Vec<Step>) -> (r: Option<String>)
    ensures
        match r {
            Some(s) => found(doc_items(*doc), places(path@)) == Some(Item::Text(s@)),
            None => !(found(doc_items(*doc), places(path@)) matches Some(Item::Text(_))),
        },
{
    let p: Vec<loro::Index> = path.iter().map(|s| match s {
        Step::Key(k) => loro::Index::Key(k.as_str().into()),
        Step::At(i) => loro::Index::Seq(*i),
    }).collect();
    doc.get_by_path(&p).and_then(|v| v.into_container().ok()).and_then(
        |c| c.into_text().ok(),
    ).map(|t| t.to_string())
}

/// The keys (`LoroMap::keys`) of the map container that
/// `LoroDoc::get_by_path` finds at the path, each once, in the order in
/// which the map hands them out; `None` where it finds anything else. This
/// is what `doc_items` holds of maps.
#[verifier::external_body]
pub(crate) fn dict_keys_at(doc: &loro::LoroDoc, path: &Vec<Step>) -> (r: Option<Vec<String>>)
    ensures
        match r {
            Some(keys) => texts(keys@).no_duplicates() && found(doc_items(*doc), places(path@))
                == Some(Item::Dict(texts(keys@).to_set())),
            None => !(found(doc_items(*doc), places(path@)) matches Some(Item::Dict(_))),
        },
{
    let p: Vec<loro::Index> = path.iter().map(|s| match s {
        Step::Key(k) => loro::Index::Key(k.as_str().into()),
        Step::At(i) => loro::Index::Seq(*i),
    }).collect();
    doc.get_by_path(&p).and_then(|v| v.into_container().ok()).and_then(
        |c| c.into_map().ok(),
    ).map(|m| m.keys().map(|k| k.to_string()).collect())
}

/// The length (`LoroList::len`) of the list container that
/// `LoroDoc::get_by_path` finds at the path; `None` where it finds anything
/// else. This is what `doc_items` holds of lists.
#[verifier::external_body]
pub(crate) fn list_len_at(doc: &loro::LoroDoc, path: &Vec<Step>) -> (r: Option<usize>)
    ensures
        match r {
            Some(n) => found(doc_items(*doc), places(path@)) == Some(Item::List(n as nat)),
            None => !(found(doc_items(*doc), places(path@)) matches Some(Item::List(_))),
        },
{
    let p: Vec<loro::Index> = path.iter().map(|s| match s {
        Step::Key(k) => loro::Index::Key(k.as_str().into()),
        Step::At(i) => loro::Index::Seq(*i),
    }).collect();
    doc.get_by_path(&p).and_then(|v| v.into_container().ok()).and_then(
        |c| c.into_list().ok(),
    ).map(|l| l.len())
}

/// The length (`LoroMovableList::len`) of the movable list container that
/// `LoroDoc::get_by_path` finds at the path; `None` where it finds anything
/// else. This is what `doc_items` holds of movable lists.
#[verifier::external_body]
pub(crate) fn movable_len_at(doc: &loro::LoroDoc, path: &Vec<Step>) -> (r: Option<usize>)
    ensures
        match r {
            Some(n) => found(doc_items(*doc), places(path@)) == Some(Item::Movable(n as nat)),
            None => !(found(doc_items(*doc), places(path@)) matches Some(Item::Movable(_))),
        },
{
    let p: Vec<loro::Index> = path.iter().map(|s| match s {
        Step::Key(k) => loro::Index::Key(k.as_str().into()),
        Step::At(i) => loro::Index::Seq(*i),
    }).collect();
    doc.get_by_path(&p).and_then(|v| v.into_container().ok()).and_then(
        |c| c.into_movable_list().ok(),
    ).map(|l| l.len())
}

/// The names of the document's root containers, each once: the keys of the
/// map that `LoroDoc::get_value` returns, in the order in which the map
/// hands them out. This is what `doc_roots` names.
#[verifier::external_body]
pub(crate) fn root_names(doc: &loro::LoroDoc) -> (r: Vec<String>)
    ensures
        texts(r@).no_duplicates(),
        texts(r@).to_set() == doc_roots(*doc),
{
    doc.get_value().into_map().map(|m| m.keys().map(|k| k.to_string()).collect()).unwrap_or_default()
}

/// Empties (`LoroMap::clear`) the map container at the path. `Ok(false)`
/// where no map container stands there; an error of `loro` as its text.
#[verifier::external_body]
pub(crate) fn clear_dict_at(doc: &mut loro::LoroDoc, path: &Vec<loro::Index>) -> Result<
    bool,
    String,
> {
    match doc.get_by_path(path).and_then(|v| v.into_container().ok()).and_then(
        |c| c.into_map().ok(),
    ) {
        Some(m) => m.clear().map(|_| true).map_err(|e| e.to_string()),
        None => Ok(false),
    }
}

/// Ends the pending transaction (`LoroDoc::commit`).
#[verifier::external_body]
pub(crate) fn commit(doc: &mut loro::LoroDoc) {
    doc.commit()
}

/// Makes sure that the root map container called `name` exists
/// (`LoroDoc::try_get_map`). `false` where `loro` does not take the name.
#[verifier::external_body]
pub(crate) fn open_root_dict(doc: &mut loro::LoroDoc, name: &str) -> bool {
    doc.try_get_map(name).is_some()
}

/// Makes sure that the root movable list container called `name` exists
/// (`LoroDoc::try_get_movable_list`). `false` where `loro` does not take
/// the name.
#[verifier::external_body]
pub(crate) fn open_root_movable_list(doc: &mut loro::LoroDoc, name: &str) -> bool {
    doc.try_get_movable_list(name).is_some()
}

/// A container of `loro` that is not yet part of a document.
#[verifier::external_type_specification]
#[verifier::external_body]
pub struct ExContainer(loro::Container);

/// A new, empty container of the given kind (`Container::new`): a map for
/// `Dict`, a list for `List`, a movable list for `MovableList`, a text for
/// `Text`.
#[verifier::external_body]
pub(crate) fn new_container(kind: ContainerKind) -> loro::Container {
    loro::Container::new(
        match kind {
            ContainerKind::Dict => loro::ContainerType::Map,
            ContainerKind::List => loro::ContainerType::List,
            ContainerKind::MovableList => loro::ContainerType::MovableList,
            ContainerKind::Text => loro::ContainerType::Text,
        },
    )
}

/// Puts a plain string under `key` into the map container at the path
/// (`LoroMap::insert`). `Ok(false)` where no map container stands there;
/// an error of `loro` as its text.
#[verifier::external_body]
pub(crate) fn put_str(doc: &mut loro::LoroDoc, path: &Vec<loro::Index>, key: &str, value: &str)
    -> Result<bool, String> {
    match doc.get_by_path(path).and_then(|v| v.into_container().ok()).and_then(
        |c| c.into_map().ok(),
    ) {
        Some(m) => m.insert(key, value).map(|_| true).map_err(|e| e.to_string()),
        None => Ok(false),
    }
}

/// Puts a plain integer under `key` into the map container at the path
/// (`LoroMap::insert`). `Ok(false)` where no map container stands there.
#[verifier::external_body]
pub(crate) fn put_int(doc: &mut loro::LoroDoc, path: &Vec<loro::Index>, key: &str, value: i64)
    -> Result<bool, String> {
    match doc.get_by_path(path).and_then(|v| v.into_container().ok()).and_then(
        |c| c.into_map().ok(),
    ) {
        Some(m) => m.insert(key, value).map(|_| true).map_err(|e| e.to_string()),
        None => Ok(false),
    }
}

/// Puts the container `child` under `key` into the map container at the
/// path (`LoroMap::insert_container`). `Ok(false)` where no map container
/// stands there.
#[verifier::external_body]
pub(crate) fn put_container(
    doc: &mut loro::LoroDoc,
    path: &Vec<loro::Index>,
    key: &str,
    child: loro::Container,
) -> Result<bool, String> {
    match doc.get_by_path(path).and_then(|v| v.into_container().ok()).and_then(
        |c| c.into_map().ok(),
    ) {
        Some(m) => m.insert_container(key, child).map(|_| true).map_err(|e| e.to_string()),
        None => Ok(false),
    }
}

/// Appends a plain string to the list or movable list container at the
/// path (`LoroList::push`, `LoroMovableList::push`). `Ok(false)` where
/// neither stands there.
#[verifier::external_body]
pub(crate) fn push_str(doc: &mut loro::LoroDoc, path: &Vec<loro::Index>, value: &str) -> Result<
    bool,
    String,
> {
    match doc.get_by_path(path) {
        Some(loro::ValueOrContainer::Container(loro::Container::List(l))) => l.push(value).map(
            |_| true,
        ).map_err(|e| e.to_string()),
        Some(loro::ValueOrContainer::Container(loro::Container::MovableList(l))) => l.push(
            value,
        ).map(|_| true).map_err(|e| e.to_string()),
        _ => Ok(false),
    }
}

/// Appends the container `child` to the list or movable list container at
/// the path (`LoroList::push_container`,
/// `LoroMovableList::push_container`). `Ok(false)` where neither stands
/// there.
#[verifier::external_body]
pub(crate) fn push_container(
    doc: &mut loro::LoroDoc,
    path: &Vec<loro::Index>,
    child: loro::Container,
) -> Result<bool, String> {
    match doc.get_by_path(path) {
        Some(loro::ValueOrContainer::Container(loro::Container::List(l))) => l.push_container(
            child,
        ).map(|_| true).map_err(|e| e.to_string()),
        Some(loro::ValueOrContainer::Container(loro::Container::MovableList(l))) => {
            l.push_container(child).map(|_| true).map_err(|e| e.to_string())
        },
        _ => Ok(false),
    }
}

/// Appends `value` to the text container at the path
/// (`LoroText::push_str`). `Ok(false)` where no text container stands
/// there.
#[verifier::external_body]
pub(crate) fn append_text(doc: &mut loro::LoroDoc, path: &Vec<loro::Index>, value: &str) -> Result<
    bool,
    String,
> {
    match doc.get_by_path(path).and_then(|v| v.into_container().ok()).and_then(
        |c| c.into_text().ok(),
    ) {
        Some(t) => t.push_str(value).map(|_| true).map_err(|e| e.to_string()),
        None => Ok(false),
    }
}

/// A point in the history of a document, as `loro` names it.
#[verifier::external_type_specification]
#[verifier::external_body]
pub struct ExFrontiers(loro::Frontiers);

/// The point in the document's history that a version vector names
/// (`VersionVector::from_iter`, `LoroDoc::try_vv_to_frontiers`). An error
/// where the history does not reach it.
#[verifier::external_body]
pub(crate) fn frontiers_of(doc: &loro::LoroDoc, versions: &Vec<(u64, i32)>) -> Result<
    loro::Frontiers,
    String,
> {
    doc.try_vv_to_frontiers(&loro::VersionVector::from_iter(versions.iter().cloned())).map_err(
        |e| e.to_string(),
    )
}

/// Takes the document's state to a point in its history
/// (`LoroDoc::checkout`).
#[verifier::external_body]
pub(crate) fn checkout(doc: &mut loro::LoroDoc, at: &loro::Frontiers) -> Result<(), String> {
    doc.checkout(at).map_err(|e| e.to_string())
}

/// The document's state at a point in its history, without the history, as
/// bytes (`LoroDoc::export` in state-only mode at that point).
#[verifier::external_body]
pub(crate) fn export_state_at(doc: &loro::LoroDoc, at: &loro::Frontiers) -> Result<
    Vec<u8>,
    String,
> {
    doc.export(loro::ExportMode::state_only(Some(at))).map_err(|e| e.to_string())
}

} // verus!
