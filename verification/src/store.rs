//! Rows of the document store, as far as the rules of this crate read them,
//! and the rules themselves: which stream a document is loaded from, and who
//! may view a document.

use crate::auth::{cloud_admin, cloud_admin_prpl, org_admin_principal};
use crate::text::{contains_str, holds, join2, str_eq};
use vstd::prelude::*;
use vstd::string::*;

verus! {

/// One stream of a document.
#[derive(Debug)]
pub struct DocumentStreamRow {
    pub org: String,
    pub id: u128,
    pub name: String,
    pub document: u128,
    pub version: u32,
    pub content: Option<Vec<u8>>,
    pub pointer: Option<String>,
    pub size: i64,
    pub deleted: bool,
}

/// One entry of a document's access list.
#[derive(Debug)]
pub struct DocumentAclRow {
    pub org: String,
    pub id: u128,
    pub document: u128,
    pub prpl: String,
    pub permission: String,
}

/// A document with its access list and its streams that are not deleted.
/// `json` is the document's model as JSON text, where the store has one.
#[derive(Debug)]
pub struct ColabDocument {
    pub id: u128,
    pub name: String,
    pub doc_type: String,
    pub owner: String,
    pub json: Option<String>,
    pub acls: Vec<DocumentAclRow>,
    pub streams: Vec<DocumentStreamRow>,
}

/// A stream that a document can be loaded from: it is called `main` and has
/// content.
pub open spec fn loadable(s: DocumentStreamRow) -> bool {
    s.name@ == "main"@ && s.content is Some
}

/// The stream at `i` is the one to load where no version is asked for: it is
/// loadable, no loadable stream has a greater version, and no earlier
/// loadable stream has the same.
pub open spec fn is_latest(streams: Seq<DocumentStreamRow>, i: int) -> bool {
    &&& 0 <= i < streams.len()
    &&& loadable(streams[i])
    &&& forall|j: int|
        0 <= j < streams.len() && loadable(#[trigger] streams[j]) ==> streams[j].version
            <= streams[i].version
    &&& forall|j: int| 0 <= j < i && loadable(#[trigger] streams[j]) ==> streams[j].version < streams[i].version
}

/// The stream at `i` is the one to load for the version `v`: the first
/// loadable stream of that version.
pub open spec fn is_version(streams: Seq<DocumentStreamRow>, v: u32, i: int) -> bool {
    &&& 0 <= i < streams.len()
    &&& loadable(streams[i])
    &&& streams[i].version == v
    &&& forall|j: int| 0 <= j < i ==> !(loadable(#[trigger] streams[j]) && streams[j].version == v)
}

/// How a document is to be loaded.
#[derive(Debug, Clone, Copy, PartialEq, Eq, Structural)]
pub enum LoadPlan {
    /// From the stream at this position.
    FromStream { index: usize },
    /// No stream can be loaded and the latest state is asked for: the
    /// document is built from its model and written as a new stream.
    FromModel,
    /// A version is asked for that no stream has.
    NoSuchVersion,
    /// No stream can be loaded and the store has no model either.
    NoContent,
}

/// Whether `plan` is how a document with these streams is to be loaded.
pub open spec fn plan_fits(
    streams: Seq<DocumentStreamRow>,
    has_model: bool,
    version: Option<u32>,
    plan: LoadPlan,
) -> bool {
    match plan {
        LoadPlan::FromStream { index } => match version {
            Some(v) => is_version(streams, v, index as int),
            None => is_latest(streams, index as int),
        },
        LoadPlan::FromModel => version is None && has_model && forall|j: int|
            0 <= j < streams.len() ==> !loadable(#[trigger] streams[j]),
        LoadPlan::NoSuchVersion => version is Some && forall|j: int|
            0 <= j < streams.len() ==> !(loadable(#[trigger] streams[j]) && streams[j].version
                == version->0),
        LoadPlan::NoContent => version is None && !has_model && forall|j: int|
            0 <= j < streams.len() ==> !loadable(#[trigger] streams[j]),
    }
}

/// There is one way to load a document: two plans that fit are the same
/// plan.
pub proof fn law_one_plan_fits(
    streams: Seq<DocumentStreamRow>,
    has_model: bool,
    version: Option<u32>,
    a: LoadPlan,
    b: LoadPlan,
)
    requires
        plan_fits(streams, has_model, version, a),
        plan_fits(streams, has_model, version, b),
    ensures
        a == b,
{
    if a is FromStream {
        let i = a->index as int;
        assert(loadable(streams[i]));
        if b is FromStream {
            let j = b->index as int;
            assert(loadable(streams[j]));
            if i < j {
                assert(loadable(streams[i]));
            } else if j < i {
                assert(loadable(streams[j]));
            }
        }
    } else if b is FromStream {
        let j = b->index as int;
        assert(loadable(streams[j]));
    }
}

/// Whether a stream can be loaded from.
pub fn is_loadable(s: &DocumentStreamRow) -> (r: bool)
    ensures
        r == loadable(*s),
{
    str_eq(s.name.as_str(), "main") && s.content.is_some()
}

/// How a document is to be loaded: from the `main` stream of the greatest
/// version that has content, or, where a version is asked for, from the
/// `main` stream of that version that has content; from the model where the
/// latest state is asked for and no stream can be loaded.
#[verifier::loop_isolation(false)]
pub fn plan_load(streams: &Vec<DocumentStreamRow>, has_model: bool, version: Option<u32>) -> (r:
    LoadPlan)
    ensures
        plan_fits(streams@, has_model, version, r),
{
    match version {
        Some(v) => {
            let mut i: usize = 0;
            while i < streams.len()
                invariant
                    i <= streams.len(),
                    forall|j: int|
                        0 <= j < i ==> !(loadable(#[trigger] streams@[j]) && streams@[j].version == v),
                decreases streams.len() - i,
            {
                if is_loadable(&streams[i]) && streams[i].version == v {
                    return LoadPlan::FromStream { index: i };
                }
                i += 1;
            }
            LoadPlan::NoSuchVersion
        },
        None => {
            let mut best: Option<usize> = None;
            let mut i: usize = 0;
            while i < streams.len()
                invariant
                    i <= streams.len(),
                    match best {
                        Some(b) => {
                            &&& b < i
                            &&& loadable(streams@[b as int])
                            &&& forall|j: int|
                                0 <= j < i && loadable(#[trigger] streams@[j]) ==> streams@[j].version
                                    <= streams@[b as int].version
                            &&& forall|j: int|
                                0 <= j < b && loadable(#[trigger] streams@[j]) ==> streams@[j].version
                                    < streams@[b as int].version
                        },
                        None => forall|j: int| 0 <= j < i ==> !loadable(#[trigger] streams@[j]),
                    },
                decreases streams.len() - i,
            {
                if is_loadable(&streams[i]) {
                    match best {
                        Some(b) => {
                            if streams[i].version > streams[b].version {
                                best = Some(i);
                            }
                        },
                        None => {
                            best = Some(i);
                        },
                    }
                }
                i += 1;
            }
            match best {
                Some(b) => LoadPlan::FromStream { index: b },
                None => if has_model {
                    LoadPlan::FromModel
                } else {
                    LoadPlan::NoContent
                },
            }
        },
    }
}

/// Some entry of the access list grants `view` to one of the principals.
pub open spec fn view_granted(acls: Seq<DocumentAclRow>, prpls: Seq<String>) -> bool {
    exists|i: int|
        0 <= i < acls.len() && (#[trigger] acls[i]).permission@ == "view"@ && holds(
            prpls,
            acls[i].prpl@,
        )
}

/// Who may view a document of organisation `org`: its owner, whoever the
/// access list grants `view`, the organisation's admins, and the cloud
/// admin.
pub open spec fn viewable(doc: ColabDocument, org: Seq<char>, prpls: Seq<String>) -> bool {
    ||| holds(prpls, doc.owner@)
    ||| view_granted(doc.acls@, prpls)
    ||| holds(prpls, org_admin_principal(org))
    ||| holds(prpls, cloud_admin())
}

/// Whether one of the principals may view the document.
pub fn is_viewable(doc: &ColabDocument, org: &str, prpls: &Vec<String>) -> (r: bool)
    ensures
        r == viewable(*doc, org@, prpls@),
{
    if contains_str(prpls, doc.owner.as_str()) {
        return true;
    }
    let org_admin = join2(org, "/f/admin");
    if contains_str(prpls, org_admin.as_str()) {
        return true;
    }
    if contains_str(prpls, cloud_admin_prpl()) {
        return true;
    }
    let mut i: usize = 0;
    while i < doc.acls.len()
        invariant
            i <= doc.acls.len(),
            forall|j: int|
                0 <= j < i ==> !((#[trigger] doc.acls@[j]).permission@ == "view"@ && holds(
                    prpls@,
                    doc.acls@[j].prpl@,
                )),
        decreases doc.acls.len() - i,
    {
        if str_eq(doc.acls[i].permission.as_str(), "view") && contains_str(
            prpls,
            doc.acls[i].prpl.as_str(),
        ) {
            return true;
        }
        i += 1;
    }
    false
}

} // verus!
