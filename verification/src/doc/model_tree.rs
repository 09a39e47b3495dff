//! What a statement and a sheet hold when they are first built from their
//! models.

use crate::doc::blueprint::{
    acls_node, acls_tree, attributes_node, attributes_tree, lemma_acls_writable,
    lemma_plain_writable, lemma_text_element_writable, str_node, strings_node, strings_tree,
    text_element_node, text_element_tree,
};
use crate::doc::tree::{
    entries_writable, entry_trees, item_trees, items_writable, lemma_dict_tree,
    lemma_entries_join, lemma_entry_trees_push, lemma_item_trees_push, lemma_list_tree,
    lemma_writable, writable, writable_doc, DocNode, Tree,
};
use crate::ids::{format_uuid, uuid_text};
use crate::models::colab::{
    approval_state_name, model_type_name, ColabApproval, ColabModel, ColabModelProperties,
    ColabSheetBlock, ColabSheetModel, ColabSheetStatementGridRow, ColabStatementElement,
    ColabStatementModel, ColabStatementRef, ColabUserApproval,
};
use vstd::prelude::*;
use vstd::string::*;

verus! {

/// The properties of a statement: its type and its content type.
pub open spec fn statement_properties_tree(p: ColabModelProperties) -> Tree {
    Tree::Dict(
        seq![
            ("type"@, Tree::Str(model_type_name(p.type_))),
            ("contentType"@, Tree::Str(p.content_type@)),
        ],
    )
}

/// One entry where there is a value, none where there is not.
pub open spec fn optional_entry(key: Seq<char>, value: Option<Tree>) -> Seq<(Seq<char>, Tree)> {
    match value {
        Some(t) => seq![(key, t)],
        None => Seq::empty(),
    }
}

/// The properties of a sheet: its type and content type, and its master
/// language, its countries and its languages as far as it names them.
pub open spec fn sheet_properties_tree(p: ColabModelProperties) -> Tree {
    Tree::Dict(
        seq![
            ("type"@, Tree::Str(model_type_name(p.type_))),
            ("contentType"@, Tree::Str(p.content_type@)),
        ] + optional_entry(
            "masterLangCode"@,
            match p.master_lang_code {
                Some(c) => Some(Tree::Str(c@)),
                None => None,
            },
        ) + optional_entry(
            "countryCodes"@,
            match p.country_codes {
                Some(c) => Some(strings_tree(c@)),
                None => None,
            },
        ) + optional_entry(
            "langCodes"@,
            match p.lang_codes {
                Some(c) => Some(strings_tree(c@)),
                None => None,
            },
        ),
    )
}

/// The approval of a user.
pub open spec fn user_approval_tree(a: ColabUserApproval) -> Tree {
    Tree::Dict(
        seq![
            ("state"@, Tree::Str(approval_state_name(a.state))),
            ("user"@, Tree::Str(uuid_text(a.user))),
            ("date"@, Tree::Str(a.date@)),
        ],
    )
}

/// The approvals of the members of a group, in order.
pub open spec fn member_approvals_tree(approvals: Seq<ColabUserApproval>) -> Tree {
    Tree::List(Seq::new(approvals.len(), |i: int| user_approval_tree(approvals[i])))
}

/// An approval of a user or of a group: its type before what it holds; a
/// group names its members' approvals where it has any.
pub open spec fn approval_tree(a: ColabApproval) -> Tree {
    match a {
        ColabApproval::User(u) => Tree::Dict(
            seq![
                ("type"@, Tree::Str("user"@)),
                ("state"@, Tree::Str(approval_state_name(u.state))),
                ("user"@, Tree::Str(uuid_text(u.user))),
                ("date"@, Tree::Str(u.date@)),
            ],
        ),
        ColabApproval::Group(g) => Tree::Dict(
            seq![
                ("type"@, Tree::Str("group"@)),
                ("state"@, Tree::Str(approval_state_name(g.state))),
                ("group"@, Tree::Str(uuid_text(g.group))),
            ] + optional_entry(
                "approvals"@,
                if g.approvals@.len() > 0 {
                    Some(member_approvals_tree(g.approvals@))
                } else {
                    None
                },
            ),
        ),
    }
}

/// The approvals of a statement element, each under its name.
pub open spec fn approvals_tree(approvals: Seq<(String, ColabUserApproval)>) -> Tree {
    Tree::Dict(
        Seq::new(approvals.len(), |i: int| (approvals[i].0@, user_approval_tree(approvals[i].1))),
    )
}

/// One language of a statement: its access list, its approvals where it
/// has any, and its text. The comments of the language are not part of
/// the document: they are left out.
pub open spec fn statement_element_tree(e: ColabStatementElement) -> Tree {
    Tree::Dict(
        seq![("acls"@, acls_tree(e.acls@))] + optional_entry(
            "approvals"@,
            if e.approvals@.len() > 0 {
                Some(approvals_tree(e.approvals@))
            } else {
                None
            },
        ) + seq![("textElement"@, text_element_tree(e.text_element))],
    )
}

/// The languages of a statement, each under its name.
pub open spec fn statement_content_tree(content: Seq<(String, ColabStatementElement)>) -> Tree {
    Tree::Dict(
        Seq::new(content.len(), |i: int| (content[i].0@, statement_element_tree(content[i].1))),
    )
}

/// A statement: its properties, its access list and its content.
pub open spec fn statement_tree(m: ColabStatementModel) -> Tree {
    Tree::Dict(
        seq![
            ("properties"@, statement_properties_tree(m.properties)),
            ("acls"@, acls_tree(m.acls@)),
            ("content"@, statement_content_tree(m.content@)),
        ],
    )
}

/// A reference to a statement in another document.
pub open spec fn statement_ref_tree(r: ColabStatementRef) -> Tree {
    Tree::Dict(
        seq![
            ("docId"@, Tree::Str(uuid_text(r.doc_id))),
            ("version"@, Tree::Int(r.version as int)),
            ("versionV"@, Tree::Str(r.version_v@)),
        ],
    )
}

/// One row of a statement grid.
pub open spec fn row_tree(r: ColabSheetStatementGridRow) -> Tree {
    Tree::Dict(
        seq![("type"@, Tree::Str(r.type_@))] + optional_entry(
            "statementRef"@,
            match r.statement_ref {
                Some(s) => Some(statement_ref_tree(s)),
                None => None,
            },
        ) + optional_entry(
            "statement"@,
            match r.statement {
                Some(s) => Some(statement_tree(s)),
                None => None,
            },
        ),
    )
}

/// The rows of a statement grid, in order.
pub open spec fn rows_tree(rows: Seq<ColabSheetStatementGridRow>) -> Tree {
    Tree::Movable(Seq::new(rows.len(), |i: int| row_tree(rows[i])))
}

/// One block of a sheet.
pub open spec fn block_tree(b: ColabSheetBlock) -> Tree {
    match b {
        ColabSheetBlock::Properties => Tree::Dict(seq![("type"@, Tree::Str("properties"@))]),
        ColabSheetBlock::Text(t) => Tree::Dict(
            seq![
                ("type"@, Tree::Str("text"@)),
                ("acls"@, acls_tree(t.acls@)),
                ("title"@, text_element_tree(t.title)),
                ("textElement"@, text_element_tree(t.text_element)),
            ],
        ),
        ColabSheetBlock::StatementGrid(g) => Tree::Dict(
            seq![
                ("type"@, Tree::Str("statement-grid"@)),
                ("acls"@, acls_tree(g.acls@)),
                ("title"@, text_element_tree(g.title)),
                ("rows"@, rows_tree(g.rows@)),
            ],
        ),
        ColabSheetBlock::Attributes(a) => Tree::Dict(
            seq![
                ("type"@, Tree::Str("attributes"@)),
                ("acls"@, acls_tree(a.acls@)),
                ("title"@, text_element_tree(a.title)),
                ("attributes"@, attributes_tree(a.attributes@)),
            ],
        ),
    }
}

/// The blocks of a sheet, in order.
pub open spec fn blocks_tree(blocks: Seq<ColabSheetBlock>) -> Tree {
    Tree::Movable(Seq::new(blocks.len(), |i: int| block_tree(blocks[i])))
}

/// A sheet: its properties, its access list and its blocks. The approvals
/// of a sheet and of its text blocks are not part of the document: they
/// are left out.
pub open spec fn sheet_tree(m: ColabSheetModel) -> Tree {
    Tree::Dict(
        seq![
            ("properties"@, sheet_properties_tree(m.properties)),
            ("acls"@, acls_tree(m.acls@)),
            ("content"@, blocks_tree(m.content@)),
        ],
    )
}

/// A document of either kind.
pub open spec fn colab_tree(m: ColabModel) -> Tree {
    match m {
        ColabModel::Statement(s) => statement_tree(s),
        ColabModel::Sheet(s) => sheet_tree(s),
    }
}

/// A map container with the given entries.
pub fn dict_node(entries: Vec<(String, DocNode)>) -> (r: DocNode)
    ensures
        r.tree() == Tree::Dict(entry_trees(entries@)),
        r == DocNode::Dict(entries),
{
    proof {
        lemma_dict_tree(entries);
    }
    DocNode::Dict(entries)
}

/// Appends the entry `(key, node)`.
pub fn put_entry(entries: &mut Vec<(String, DocNode)>, key: &str, node: DocNode)
    ensures
        entry_trees(final(entries)@) == entry_trees(old(entries)@).push((key@, node.tree())),
{
    let k = String::from_str(key);
    proof {
        lemma_entry_trees_push(entries@, k, node);
    }
    entries.push((k, node));
}

/// The properties of a statement.
pub fn statement_properties_node(p: &ColabModelProperties) -> (r: DocNode)
    ensures
        r.tree() == statement_properties_tree(*p),
{
    let mut out: Vec<(String, DocNode)> = Vec::new();
    assert(entry_trees(out@) =~= Seq::empty());
    put_entry(&mut out, "type", str_node(p.type_.as_str()));
    put_entry(&mut out, "contentType", str_node(p.content_type.as_str()));
    assert(entry_trees(out@) =~= statement_properties_tree(*p)->Dict_0);
    dict_node(out)
}

/// The properties of a sheet.
pub fn sheet_properties_node(p: &ColabModelProperties) -> (r: DocNode)
    ensures
        r.tree() == sheet_properties_tree(*p),
{
    let mut out: Vec<(String, DocNode)> = Vec::new();
    assert(entry_trees(out@) =~= Seq::empty());
    put_entry(&mut out, "type", str_node(p.type_.as_str()));
    put_entry(&mut out, "contentType", str_node(p.content_type.as_str()));
    match &p.master_lang_code {
        Some(c) => {
            put_entry(&mut out, "masterLangCode", str_node(c.as_str()));
        },
        None => {},
    }
    match &p.country_codes {
        Some(c) => {
            put_entry(&mut out, "countryCodes", strings_node(c));
        },
        None => {},
    }
    match &p.lang_codes {
        Some(c) => {
            put_entry(&mut out, "langCodes", strings_node(c));
        },
        None => {},
    }
    assert(entry_trees(out@) =~= sheet_properties_tree(*p)->Dict_0);
    dict_node(out)
}

/// The approval of a user.
pub fn user_approval_node(a: &ColabUserApproval) -> (r: DocNode)
    ensures
        r.tree() == user_approval_tree(*a),
{
    let mut out: Vec<(String, DocNode)> = Vec::new();
    assert(entry_trees(out@) =~= Seq::empty());
    put_entry(&mut out, "state", str_node(a.state.as_str()));
    let user = format_uuid(a.user);
    put_entry(&mut out, "user", str_node(user.as_str()));
    put_entry(&mut out, "date", str_node(a.date.as_str()));
    assert(entry_trees(out@) =~= user_approval_tree(*a)->Dict_0);
    dict_node(out)
}

/// The approvals of the members of a group.
pub fn member_approvals_node(approvals: &Vec<ColabUserApproval>) -> (r: DocNode)
    ensures
        r.tree() == member_approvals_tree(approvals@),
{
    let mut out: Vec<DocNode> = Vec::new();
    let ghost want = member_approvals_tree(approvals@)->List_0;
    let mut i: usize = 0;
    assert(item_trees(out@) =~= want.take(0));
    while i < approvals.len()
        invariant
            i <= approvals.len(),
            want == member_approvals_tree(approvals@)->List_0,
            item_trees(out@) == want.take(i as int),
        decreases approvals.len() - i,
    {
        let node = user_approval_node(&approvals[i]);
        proof {
            lemma_item_trees_push(out@, node);
            assert(want.take(i + 1) =~= want.take(i as int).push(node.tree()));
        }
        out.push(node);
        i += 1;
    }
    proof {
        assert(want.take(approvals@.len() as int) =~= want);
        lemma_list_tree(out);
    }
    DocNode::List(out)
}

/// An approval of a user or of a group.
pub fn approval_node(a: &ColabApproval) -> (r: DocNode)
    ensures
        r.tree() == approval_tree(*a),
{
    let mut out: Vec<(String, DocNode)> = Vec::new();
    assert(entry_trees(out@) =~= Seq::empty());
    match a {
        ColabApproval::User(u) => {
            put_entry(&mut out, "type", str_node("user"));
            put_entry(&mut out, "state", str_node(u.state.as_str()));
            let user = format_uuid(u.user);
            put_entry(&mut out, "user", str_node(user.as_str()));
            put_entry(&mut out, "date", str_node(u.date.as_str()));
        },
        ColabApproval::Group(g) => {
            put_entry(&mut out, "type", str_node("group"));
            put_entry(&mut out, "state", str_node(g.state.as_str()));
            let group = format_uuid(g.group);
            put_entry(&mut out, "group", str_node(group.as_str()));
            if g.approvals.len() > 0 {
                put_entry(&mut out, "approvals", member_approvals_node(&g.approvals));
            }
        },
    }
    assert(entry_trees(out@) =~= approval_tree(*a)->Dict_0);
    dict_node(out)
}

/// The approvals of a statement element.
pub fn approvals_node(approvals: &Vec<(String, ColabUserApproval)>) -> (r: DocNode)
    ensures
        r.tree() == approvals_tree(approvals@),
{
    let mut out: Vec<(String, DocNode)> = Vec::new();
    let ghost want = approvals_tree(approvals@)->Dict_0;
    let mut i: usize = 0;
    assert(entry_trees(out@) =~= want.take(0));
    while i < approvals.len()
        invariant
            i <= approvals.len(),
            want == approvals_tree(approvals@)->Dict_0,
            entry_trees(out@) == want.take(i as int),
        decreases approvals.len() - i,
    {
        let node = user_approval_node(&approvals[i].1);
        put_entry(&mut out, approvals[i].0.as_str(), node);
        assert(entry_trees(out@) =~= want.take(i + 1));
        i += 1;
    }
    assert(want.take(approvals@.len() as int) =~= want);
    dict_node(out)
}

/// One language of a statement.
pub fn statement_element_node(e: &ColabStatementElement) -> (r: DocNode)
    ensures
        r.tree() == statement_element_tree(*e),
{
    let mut out: Vec<(String, DocNode)> = Vec::new();
    assert(entry_trees(out@) =~= Seq::empty());
    put_entry(&mut out, "acls", acls_node(&e.acls));
    if e.approvals.len() > 0 {
        put_entry(&mut out, "approvals", approvals_node(&e.approvals));
    }
    put_entry(&mut out, "textElement", text_element_node(&e.text_element));
    assert(entry_trees(out@) =~= statement_element_tree(*e)->Dict_0);
    dict_node(out)
}

/// The languages of a statement.
pub fn statement_content_node(content: &Vec<(String, ColabStatementElement)>) -> (r: DocNode)
    ensures
        r.tree() == statement_content_tree(content@),
{
    let mut out: Vec<(String, DocNode)> = Vec::new();
    let ghost want = statement_content_tree(content@)->Dict_0;
    let mut i: usize = 0;
    assert(entry_trees(out@) =~= want.take(0));
    while i < content.len()
        invariant
            i <= content.len(),
            want == statement_content_tree(content@)->Dict_0,
            entry_trees(out@) == want.take(i as int),
        decreases content.len() - i,
    {
        let node = statement_element_node(&content[i].1);
        put_entry(&mut out, content[i].0.as_str(), node);
        assert(entry_trees(out@) =~= want.take(i + 1));
        i += 1;
    }
    assert(want.take(content@.len() as int) =~= want);
    dict_node(out)
}

/// What a statement holds when it is first built: its properties, its
/// access list and its content.
pub fn statement_node(m: &ColabStatementModel) -> (r: DocNode)
    ensures
        r.tree() == statement_tree(*m),
{
    let mut out: Vec<(String, DocNode)> = Vec::new();
    assert(entry_trees(out@) =~= Seq::empty());
    put_entry(&mut out, "properties", statement_properties_node(&m.properties));
    put_entry(&mut out, "acls", acls_node(&m.acls));
    put_entry(&mut out, "content", statement_content_node(&m.content));
    assert(entry_trees(out@) =~= statement_tree(*m)->Dict_0);
    dict_node(out)
}

/// A reference to a statement in another document.
pub fn statement_ref_node(r: &ColabStatementRef) -> (n: DocNode)
    ensures
        n.tree() == statement_ref_tree(*r),
{
    let mut out: Vec<(String, DocNode)> = Vec::new();
    assert(entry_trees(out@) =~= Seq::empty());
    let id = format_uuid(r.doc_id);
    put_entry(&mut out, "docId", str_node(id.as_str()));
    put_entry(&mut out, "version", DocNode::Int(r.version));
    put_entry(&mut out, "versionV", str_node(r.version_v.as_str()));
    assert(entry_trees(out@) =~= statement_ref_tree(*r)->Dict_0);
    dict_node(out)
}

/// One row of a statement grid.
pub fn row_node(r: &ColabSheetStatementGridRow) -> (n: DocNode)
    ensures
        n.tree() == row_tree(*r),
{
    let mut out: Vec<(String, DocNode)> = Vec::new();
    assert(entry_trees(out@) =~= Seq::empty());
    put_entry(&mut out, "type", str_node(r.type_.as_str()));
    match &r.statement_ref {
        Some(s) => {
            put_entry(&mut out, "statementRef", statement_ref_node(s));
        },
        None => {},
    }
    match &r.statement {
        Some(s) => {
            put_entry(&mut out, "statement", statement_node(s));
        },
        None => {},
    }
    assert(entry_trees(out@) =~= row_tree(*r)->Dict_0);
    dict_node(out)
}

/// The rows of a statement grid.
pub fn rows_node(rows: &Vec<ColabSheetStatementGridRow>) -> (r: DocNode)
    ensures
        r.tree() == rows_tree(rows@),
{
    let mut out: Vec<DocNode> = Vec::new();
    let ghost want = rows_tree(rows@)->Movable_0;
    let mut i: usize = 0;
    assert(item_trees(out@) =~= want.take(0));
    while i < rows.len()
        invariant
            i <= rows.len(),
            want == rows_tree(rows@)->Movable_0,
            item_trees(out@) == want.take(i as int),
        decreases rows.len() - i,
    {
        let node = row_node(&rows[i]);
        proof {
            lemma_item_trees_push(out@, node);
            assert(want.take(i + 1) =~= want.take(i as int).push(node.tree()));
        }
        out.push(node);
        i += 1;
    }
    proof {
        assert(want.take(rows@.len() as int) =~= want);
        lemma_list_tree(out);
    }
    DocNode::Movable(out)
}

/// One block of a sheet.
pub fn block_node(b: &ColabSheetBlock) -> (r: DocNode)
    ensures
        r.tree() == block_tree(*b),
{
    let mut out: Vec<(String, DocNode)> = Vec::new();
    assert(entry_trees(out@) =~= Seq::empty());
    match b {
        ColabSheetBlock::Properties => {
            put_entry(&mut out, "type", str_node("properties"));
        },
        ColabSheetBlock::Text(t) => {
            put_entry(&mut out, "type", str_node("text"));
            put_entry(&mut out, "acls", acls_node(&t.acls));
            put_entry(&mut out, "title", text_element_node(&t.title));
            put_entry(&mut out, "textElement", text_element_node(&t.text_element));
        },
        ColabSheetBlock::StatementGrid(g) => {
            put_entry(&mut out, "type", str_node("statement-grid"));
            put_entry(&mut out, "acls", acls_node(&g.acls));
            put_entry(&mut out, "title", text_element_node(&g.title));
            put_entry(&mut out, "rows", rows_node(&g.rows));
        },
        ColabSheetBlock::Attributes(a) => {
            put_entry(&mut out, "type", str_node("attributes"));
            put_entry(&mut out, "acls", acls_node(&a.acls));
            put_entry(&mut out, "title", text_element_node(&a.title));
            put_entry(&mut out, "attributes", attributes_node(&a.attributes));
        },
    }
    assert(entry_trees(out@) =~= block_tree(*b)->Dict_0);
    dict_node(out)
}

/// The blocks of a sheet.
pub fn blocks_node(blocks: &Vec<ColabSheetBlock>) -> (r: DocNode)
    ensures
        r.tree() == blocks_tree(blocks@),
{
    let mut out: Vec<DocNode> = Vec::new();
    let ghost want = blocks_tree(blocks@)->Movable_0;
    let mut i: usize = 0;
    assert(item_trees(out@) =~= want.take(0));
    while i < blocks.len()
        invariant
            i <= blocks.len(),
            want == blocks_tree(blocks@)->Movable_0,
            item_trees(out@) == want.take(i as int),
        decreases blocks.len() - i,
    {
        let node = block_node(&blocks[i]);
        proof {
            lemma_item_trees_push(out@, node);
            assert(want.take(i + 1) =~= want.take(i as int).push(node.tree()));
        }
        out.push(node);
        i += 1;
    }
    proof {
        assert(want.take(blocks@.len() as int) =~= want);
        lemma_list_tree(out);
    }
    DocNode::Movable(out)
}

/// What a sheet holds when it is first built: its properties, its access
/// list and its blocks.
pub fn sheet_node(m: &ColabSheetModel) -> (r: DocNode)
    ensures
        r.tree() == sheet_tree(*m),
{
    let mut out: Vec<(String, DocNode)> = Vec::new();
    assert(entry_trees(out@) =~= Seq::empty());
    put_entry(&mut out, "properties", sheet_properties_node(&m.properties));
    put_entry(&mut out, "acls", acls_node(&m.acls));
    put_entry(&mut out, "content", blocks_node(&m.content));
    assert(entry_trees(out@) =~= sheet_tree(*m)->Dict_0);
    dict_node(out)
}

/// What a document of either kind holds when it is first built.
pub fn colab_node(m: &ColabModel) -> (r: DocNode)
    ensures
        r.tree() == colab_tree(*m),
{
    match m {
        ColabModel::Statement(s) => statement_node(s),
        ColabModel::Sheet(s) => sheet_node(s),
    }
}

/// The comments of a language are left out of the document: two languages
/// that differ in their comments only are written alike.
pub proof fn law_comments_are_left_out(a: ColabStatementElement, b: ColabStatementElement)
    requires
        a.text_element == b.text_element,
        a.acls == b.acls,
        a.approvals == b.approvals,
    ensures
        statement_element_tree(a) == statement_element_tree(b),
{
}

/// The approval of a user can be written.
pub proof fn lemma_user_approval_writable(a: ColabUserApproval)
    ensures
        writable(user_approval_tree(a)),
{
}

/// The approvals of a statement element can be written.
pub proof fn lemma_approvals_writable(approvals: Seq<(String, ColabUserApproval)>)
    ensures
        writable(approvals_tree(approvals)),
{
    let entries = approvals_tree(approvals)->Dict_0;
    assert forall|i: int| 0 <= i < entries.len() implies writable(#[trigger] entries[i].1) by {
        lemma_user_approval_writable(approvals[i].1);
    }
    assert(entries_writable(entries));
    lemma_writable(approvals_tree(approvals));
}

/// One language of a statement can be written.
pub proof fn lemma_statement_element_writable(e: ColabStatementElement)
    ensures
        writable(statement_element_tree(e)),
{
    lemma_acls_writable(e.acls@);
    lemma_approvals_writable(e.approvals@);
    lemma_text_element_writable(e.text_element);
    let first = seq![("acls"@, acls_tree(e.acls@))];
    let second = optional_entry(
        "approvals"@,
        if e.approvals@.len() > 0 {
            Some(approvals_tree(e.approvals@))
        } else {
            None
        },
    );
    let third = seq![("textElement"@, text_element_tree(e.text_element))];
    assert(entries_writable(first));
    assert(entries_writable(second));
    assert(entries_writable(third));
    lemma_entries_join(first, second);
    lemma_entries_join(first + second, third);
    lemma_writable(statement_element_tree(e));
}

/// A statement can be written: as a map, and as a whole document.
pub proof fn law_statement_can_be_written(m: ColabStatementModel)
    ensures
        writable(statement_tree(m)),
        writable_doc(statement_tree(m)),
{
    lemma_acls_writable(m.acls@);
    let content = statement_content_tree(m.content@)->Dict_0;
    assert forall|i: int| 0 <= i < content.len() implies writable(#[trigger] content[i].1) by {
        lemma_statement_element_writable(m.content@[i].1);
    }
    assert(entries_writable(content));
    lemma_writable(statement_content_tree(m.content@));
    let properties = statement_properties_tree(m.properties)->Dict_0;
    assert(entries_writable(properties));
    lemma_writable(statement_properties_tree(m.properties));
    let entries = statement_tree(m)->Dict_0;
    assert(entries_writable(entries));
    lemma_writable(statement_tree(m));
}

/// One row of a statement grid can be written.
pub proof fn lemma_row_writable(r: ColabSheetStatementGridRow)
    ensures
        writable(row_tree(r)),
{
    let first = seq![("type"@, Tree::Str(r.type_@))];
    let second = optional_entry(
        "statementRef"@,
        match r.statement_ref {
            Some(s) => Some(statement_ref_tree(s)),
            None => None,
        },
    );
    let third = optional_entry(
        "statement"@,
        match r.statement {
            Some(s) => Some(statement_tree(s)),
            None => None,
        },
    );
    if r.statement_ref is Some {
        let t = statement_ref_tree(r.statement_ref->0);
        assert(entries_writable(t->Dict_0));
        lemma_writable(t);
    }
    if r.statement is Some {
        law_statement_can_be_written(r.statement->0);
    }
    assert(entries_writable(first));
    assert(entries_writable(second));
    assert(entries_writable(third));
    lemma_entries_join(first, second);
    lemma_entries_join(first + second, third);
    lemma_writable(row_tree(r));
}

/// One block of a sheet can be written.
pub proof fn lemma_block_writable(b: ColabSheetBlock)
    ensures
        writable(block_tree(b)),
{
    match b {
        ColabSheetBlock::Properties => {},
        ColabSheetBlock::Text(t) => {
            lemma_acls_writable(t.acls@);
            lemma_text_element_writable(t.title);
            lemma_text_element_writable(t.text_element);
        },
        ColabSheetBlock::StatementGrid(g) => {
            lemma_acls_writable(g.acls@);
            lemma_text_element_writable(g.title);
            let rows = rows_tree(g.rows@)->Movable_0;
            assert forall|i: int| 0 <= i < rows.len() implies writable(#[trigger] rows[i]) by {
                lemma_row_writable(g.rows@[i]);
            }
            assert(items_writable(rows));
            lemma_writable(rows_tree(g.rows@));
        },
        ColabSheetBlock::Attributes(a) => {
            lemma_acls_writable(a.acls@);
            lemma_text_element_writable(a.title);
            lemma_plain_writable(Seq::empty(), a.attributes@);
        },
    }
    assert(entries_writable(block_tree(b)->Dict_0));
    lemma_writable(block_tree(b));
}

/// A sheet can be written as a whole document.
pub proof fn law_sheet_can_be_written(m: ColabSheetModel)
    ensures
        writable_doc(sheet_tree(m)),
{
    lemma_acls_writable(m.acls@);
    let blocks = blocks_tree(m.content@)->Movable_0;
    assert forall|i: int| 0 <= i < blocks.len() implies writable(#[trigger] blocks[i]) by {
        lemma_block_writable(m.content@[i]);
    }
    assert(items_writable(blocks));
    lemma_writable(blocks_tree(m.content@));
    let p = m.properties;
    let first = seq![
        ("type"@, Tree::Str(model_type_name(p.type_))),
        ("contentType"@, Tree::Str(p.content_type@)),
    ];
    let second = optional_entry(
        "masterLangCode"@,
        match p.master_lang_code {
            Some(c) => Some(Tree::Str(c@)),
            None => None,
        },
    );
    let third = optional_entry(
        "countryCodes"@,
        match p.country_codes {
            Some(c) => Some(strings_tree(c@)),
            None => None,
        },
    );
    let fourth = optional_entry(
        "langCodes"@,
        match p.lang_codes {
            Some(c) => Some(strings_tree(c@)),
            None => None,
        },
    );
    if p.country_codes is Some {
        lemma_plain_writable(p.country_codes->0@, Seq::empty());
    }
    if p.lang_codes is Some {
        lemma_plain_writable(p.lang_codes->0@, Seq::empty());
    }
    assert(entries_writable(first));
    assert(entries_writable(second));
    assert(entries_writable(third));
    assert(entries_writable(fourth));
    lemma_entries_join(first, second);
    lemma_entries_join(first + second, third);
    lemma_entries_join(first + second + third, fourth);
    lemma_writable(sheet_properties_tree(p));
    let entries = sheet_tree(m)->Dict_0;
    assert(entries_writable(entries));
    lemma_writable(sheet_tree(m));
}

} // verus!
