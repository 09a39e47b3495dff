//! The document model: what a statement or a sheet holds when it is first
//! turned into a replicated document.

use vstd::prelude::*;

verus! {

/// The two kinds of document.
#[derive(Debug, Clone, Copy, PartialEq, Eq, Structural, Hash)]
pub enum ColabModelType {
    ColabStatement,
    ColabSheet,
}

/// The name of a kind of document, as the `type` property spells it.
pub open spec fn model_type_name(t: ColabModelType) -> Seq<char> {
    match t {
        ColabModelType::ColabStatement => "colab-statement"@,
        ColabModelType::ColabSheet => "colab-sheet"@,
    }
}

impl ColabModelType {
    /// The name of this kind: `colab-statement` or `colab-sheet`.
    pub fn as_str(&self) -> (r: &'static str)
        ensures
            r@ == model_type_name(*self),
    {
        match self {
            ColabModelType::ColabStatement => "colab-statement",
            ColabModelType::ColabSheet => "colab-sheet",
        }
    }
}

/// What an access list may grant.
#[derive(Debug, Clone, Copy, PartialEq, Eq, Structural, Hash)]
pub enum ColabModelPermission {
    View,
    Edit,
    Manage,
    AddRemove,
    Delete,
}

/// The name of a permission, as the key of an access list spells it.
pub open spec fn permission_name(p: ColabModelPermission) -> Seq<char> {
    match p {
        ColabModelPermission::View => "view"@,
        ColabModelPermission::Edit => "edit"@,
        ColabModelPermission::Manage => "manage"@,
        ColabModelPermission::AddRemove => "add-remove"@,
        ColabModelPermission::Delete => "delete"@,
    }
}

impl ColabModelPermission {
    /// The name of this permission.
    pub fn as_str(&self) -> (r: &'static str)
        ensures
            r@ == permission_name(*self),
    {
        match self {
            ColabModelPermission::View => "view",
            ColabModelPermission::Edit => "edit",
            ColabModelPermission::Manage => "manage",
            ColabModelPermission::AddRemove => "add-remove",
            ColabModelPermission::Delete => "delete",
        }
    }
}

/// The state of an approval.
#[derive(Debug, Clone, Copy, PartialEq, Eq, Structural)]
pub enum ColabApprovalState {
    Draft,
    Pending,
    Approved,
    Rejected,
}

/// The name of an approval state.
pub open spec fn approval_state_name(s: ColabApprovalState) -> Seq<char> {
    match s {
        ColabApprovalState::Draft => "draft"@,
        ColabApprovalState::Pending => "pending"@,
        ColabApprovalState::Approved => "approved"@,
        ColabApprovalState::Rejected => "rejected"@,
    }
}

impl ColabApprovalState {
    /// The name of this state.
    pub fn as_str(&self) -> (r: &'static str)
        ensures
            r@ == approval_state_name(*self),
    {
        match self {
            ColabApprovalState::Draft => "draft",
            ColabApprovalState::Pending => "pending",
            ColabApprovalState::Approved => "approved",
            ColabApprovalState::Rejected => "rejected",
        }
    }
}

/// Who wrote a comment.
#[derive(Debug, Clone, Copy, PartialEq, Eq, Structural)]
pub enum ColabCommentType {
    User,
}

impl ColabCommentType {
    /// The name of this kind of comment.
    pub fn as_str(&self) -> (r: &'static str)
        ensures
            r@ == "user"@,
    {
        "user"
    }
}

/// Whether a comment is still open.
#[derive(Debug, Clone, Copy, PartialEq, Eq, Structural)]
pub enum ColabCommentState {
    Open,
    Resolved,
}

impl ColabCommentState {
    /// The name of this state: `open` or `resolved`.
    pub fn as_str(&self) -> (r: &'static str)
        ensures
            r@ == (match *self {
                ColabCommentState::Open => "open"@,
                ColabCommentState::Resolved => "resolved"@,
            }),
    {
        match self {
            ColabCommentState::Open => "open",
            ColabCommentState::Resolved => "resolved",
        }
    }
}

/// An access list: for each permission the principals that hold it, in
/// order.
pub type Acls = Vec<(ColabModelPermission, Vec<String>)>;

/// The properties that every document has.
#[derive(Debug)]
pub struct ColabModelProperties {
    pub type_: ColabModelType,
    pub content_type: String,
    pub master_lang_code: Option<String>,
    pub country_codes: Option<Vec<String>>,
    pub lang_codes: Option<Vec<String>>,
}

/// One approval by a user: the user's identifier and the time as RFC 3339
/// text.
#[derive(Debug)]
pub struct ColabUserApproval {
    pub state: ColabApprovalState,
    pub user: u128,
    pub date: String,
}

/// The approval of a group, with those of its members.
#[derive(Debug)]
pub struct ColabGroupApproval {
    pub state: ColabApprovalState,
    pub group: u128,
    pub approvals: Vec<ColabUserApproval>,
}

/// An approval of a user or of a group.
#[derive(Debug)]
pub enum ColabApproval {
    User(ColabUserApproval),
    Group(ColabGroupApproval),
}

/// A comment on a statement element.
#[derive(Debug)]
pub struct ColabComment {
    pub type_: ColabCommentType,
    pub state: ColabCommentState,
    pub author: u128,
    pub text: TextElement,
    pub timestamp: String,
}

/// The root of a piece of structured text.
#[derive(Debug)]
pub struct TextElement {
    pub children: TextElementChildrenOrString,
    pub attributes: Vec<(String, String)>,
    pub node_name: String,
}

/// A node below the root of a piece of structured text.
#[derive(Debug)]
pub struct TextElementChild {
    pub children: TextElementChildrenOrString,
    pub attributes: Vec<(String, String)>,
    pub node_name: String,
}

/// What a text node holds: further nodes, runs of text, or one run of text.
#[derive(Debug)]
pub enum TextElementChildrenOrString {
    AsChildren(Vec<TextElementChild>),
    AsStringArray(Vec<String>),
    AsString(String),
}

/// One language of a statement.
#[derive(Debug)]
pub struct ColabStatementElement {
    pub text_element: TextElement,
    pub acls: Acls,
    pub comments: Vec<ColabComment>,
    pub approvals: Vec<(String, ColabUserApproval)>,
}

/// A statement: its properties, its access list, and its elements by
/// language.
#[derive(Debug)]
pub struct ColabStatementModel {
    pub properties: ColabModelProperties,
    pub acls: Acls,
    pub content: Vec<(String, ColabStatementElement)>,
}

/// A statement that lives in another document.
#[derive(Debug)]
pub struct ColabStatementRef {
    pub doc_id: u128,
    pub version: i64,
    pub version_v: String,
}

/// One row of a statement grid: a reference to a statement elsewhere, or a
/// statement of its own (`type_` is then `local`).
#[derive(Debug)]
pub struct ColabSheetStatementGridRow {
    pub type_: String,
    pub statement_ref: Option<ColabStatementRef>,
    pub statement: Option<ColabStatementModel>,
}

/// A block of text in a sheet.
#[derive(Debug)]
pub struct ColabSheetTextBlock {
    pub acls: Acls,
    pub title: TextElement,
    pub text_element: TextElement,
    pub approvals: Vec<(String, ColabApproval)>,
}

/// A grid of statements in a sheet.
#[derive(Debug)]
pub struct ColabSheetStatementGridBlock {
    pub acls: Acls,
    pub title: TextElement,
    pub rows: Vec<ColabSheetStatementGridRow>,
}

/// A block of named attributes in a sheet; each value is JSON text.
#[derive(Debug)]
pub struct ColabSheetAttributesBlock {
    pub acls: Acls,
    pub title: TextElement,
    pub attributes: Vec<(String, String)>,
}

/// A block of a sheet.
#[derive(Debug)]
pub enum ColabSheetBlock {
    Properties,
    Text(ColabSheetTextBlock),
    StatementGrid(ColabSheetStatementGridBlock),
    Attributes(ColabSheetAttributesBlock),
}

/// A sheet: its properties, approvals and access list, and its blocks in
/// order.
#[derive(Debug)]
pub struct ColabSheetModel {
    pub properties: ColabModelProperties,
    pub approvals: Vec<(String, ColabApproval)>,
    pub acls: Acls,
    pub content: Vec<ColabSheetBlock>,
}

/// A document model of either kind.
#[derive(Debug)]
pub enum ColabModel {
    Statement(ColabStatementModel),
    Sheet(ColabSheetModel),
}

/// The kind of document that a `type` property names, if it names one.
pub open spec fn model_type_of(name: Seq<char>) -> Option<ColabModelType> {
    if name == "colab-statement"@ {
        Some(ColabModelType::ColabStatement)
    } else if name == "colab-sheet"@ {
        Some(ColabModelType::ColabSheet)
    } else {
        None
    }
}

/// The kind of document that a `type` property names; `None` for any other
/// text.
pub fn parse_model_type(name: &str) -> (r: Option<ColabModelType>)
    ensures
        r == model_type_of(name@),
{
    if crate::text::str_eq(name, "colab-statement") {
        Some(ColabModelType::ColabStatement)
    } else if crate::text::str_eq(name, "colab-sheet") {
        Some(ColabModelType::ColabSheet)
    } else {
        None
    }
}

} // verus!
