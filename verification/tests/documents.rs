use colabri_doc::crdt::Step;
use colabri_doc::doc::acl::{clear_acls, plan_acl_clear};
use colabri_doc::doc::blueprint::{child_node, text_element_node, MAX_DEPTH};
use colabri_doc::doc::model_tree::{approval_node, colab_node, sheet_node, statement_node};
use colabri_doc::doc::tree::{same_tree, DocNode};
use colabri_doc::doc::write::{
    build_doc, colab_to_loro_doc, read_doc, sheet_to_loro_doc, stmt_to_loro_doc,
};
use colabri_doc::error::ErrorKind;
use colabri_doc::models::colab::{
    ColabApproval, ColabApprovalState, ColabGroupApproval, ColabModel, ColabModelPermission,
    ColabModelProperties, ColabModelType,
    ColabSheetAttributesBlock, ColabSheetBlock, ColabSheetModel, ColabSheetStatementGridBlock,
    ColabSheetStatementGridRow, ColabSheetTextBlock, ColabStatementElement, ColabStatementModel,
    ColabStatementRef, ColabUserApproval, TextElement, TextElementChild,
    TextElementChildrenOrString,
};

fn s(x: &str) -> String {
    x.to_string()
}

fn props(t: ColabModelType) -> ColabModelProperties {
    ColabModelProperties {
        type_: t,
        content_type: s("x"),
        master_lang_code: None,
        country_codes: None,
        lang_codes: None,
    }
}

fn leaf(name: &str, runs: &[&str]) -> TextElementChild {
    TextElementChild {
        children: TextElementChildrenOrString::AsStringArray(
            runs.iter().map(|r| r.to_string()).collect(),
        ),
        attributes: vec![],
        node_name: s(name),
    }
}

fn text(children: Vec<TextElementChild>) -> TextElement {
    TextElement {
        children: TextElementChildrenOrString::AsChildren(children),
        attributes: vec![(s("class"), s("c"))],
        node_name: s("doc"),
    }
}

/// A chain of `levels` nodes below a root, each the only child of the one
/// above.
fn chain(levels: usize) -> TextElement {
    let mut node = leaf("bottom", &["t"]);
    for _ in 1..levels {
        node = TextElementChild {
            children: TextElementChildrenOrString::AsChildren(vec![node]),
            attributes: vec![],
            node_name: s("n"),
        };
    }
    text(vec![node])
}

fn statement() -> ColabStatementModel {
    ColabStatementModel {
        properties: props(ColabModelType::ColabStatement),
        acls: vec![(ColabModelPermission::View, vec![s("o1/u/a")])],
        content: vec![(
            s("en"),
            ColabStatementElement {
                text_element: text(vec![leaf("p", &["hello", "world"])]),
                acls: vec![(ColabModelPermission::Edit, vec![s("o1/u/b")])],
                comments: vec![],
                approvals: vec![(
                    s("a1"),
                    ColabUserApproval {
                        state: ColabApprovalState::Approved,
                        user: 0xa1a2a3a4b1b2c1c2d1d2d3d4d5d6d7d8,
                        date: s("2024-01-02T03:04:05+00:00"),
                    },
                )],
            },
        )],
    }
}

fn sheet() -> ColabSheetModel {
    let mut p = props(ColabModelType::ColabSheet);
    p.master_lang_code = Some(s("en"));
    p.country_codes = Some(vec![s("BE"), s("NL")]);
    ColabSheetModel {
        properties: p,
        approvals: vec![],
        acls: vec![(ColabModelPermission::Manage, vec![s("o1/u/a")])],
        content: vec![
            ColabSheetBlock::Properties,
            ColabSheetBlock::Text(ColabSheetTextBlock {
                acls: vec![(ColabModelPermission::View, vec![s("o1/u/t")])],
                title: text(vec![]),
                text_element: text(vec![leaf("p", &["t"])]),
                approvals: vec![],
            }),
            ColabSheetBlock::StatementGrid(ColabSheetStatementGridBlock {
                acls: vec![(ColabModelPermission::View, vec![s("o1/u/g")])],
                title: text(vec![]),
                rows: vec![
                    ColabSheetStatementGridRow {
                        type_: s("reference"),
                        statement_ref: Some(ColabStatementRef {
                            doc_id: 1,
                            version: 4,
                            version_v: s("{}"),
                        }),
                        statement: None,
                    },
                    ColabSheetStatementGridRow {
                        type_: s("local"),
                        statement_ref: None,
                        statement: Some(statement()),
                    },
                ],
            }),
            ColabSheetBlock::Attributes(ColabSheetAttributesBlock {
                acls: vec![],
                title: text(vec![]),
                attributes: vec![(s("k"), s("{\"a\":1}"))],
            }),
        ],
    }
}

fn as_json(doc: &loro::LoroDoc) -> serde_json::Value {
    loro::ToJson::to_json_value(&doc.get_deep_value())
}

/// Nodes as values that compare maps by their keys.
fn normal(n: &DocNode) -> serde_json::Value {
    match n {
        DocNode::Str(x) => serde_json::Value::String(format!("s:{x}")),
        DocNode::Int(i) => serde_json::Value::from(*i),
        DocNode::Text(x) => serde_json::Value::String(format!("t:{x}")),
        DocNode::Dict(entries) => {
            let mut m = serde_json::Map::new();
            m.insert(s("#kind"), serde_json::Value::String(s("dict")));
            for (k, v) in entries {
                m.insert(k.clone(), normal(v));
            }
            serde_json::Value::Object(m)
        },
        DocNode::List(items) => {
            let mut v = vec![serde_json::Value::String(s("list"))];
            v.extend(items.iter().map(normal));
            serde_json::Value::Array(v)
        },
        DocNode::Movable(items) => {
            let mut v = vec![serde_json::Value::String(s("movable"))];
            v.extend(items.iter().map(normal));
            serde_json::Value::Array(v)
        },
        DocNode::Other => serde_json::Value::Null,
    }
}

fn depth_of(n: &DocNode) -> (usize, bool) {
    // how many text nodes are nested, and whether the chain ends in the
    // node that stands for what was cut off
    match n {
        DocNode::Dict(entries) => {
            let name = entries.iter().find(|(k, _)| k == "nodeName").map(|(_, v)| v);
            let children = entries.iter().find(|(k, _)| k == "children").map(|(_, v)| v);
            if let (Some(DocNode::Str(t)), Some(DocNode::Str(c))) = (name, children) {
                assert_eq!(t, "truncated");
                assert_eq!(c, "[Max depth exceeded]");
                assert_eq!(entries.len(), 2);
                return (1, true);
            }
            match children {
                Some(DocNode::List(items)) => match items.first() {
                    Some(d @ DocNode::Dict(_)) => {
                        let (n, cut) = depth_of(d);
                        (n + 1, cut)
                    },
                    _ => (1, false),
                },
                _ => (1, false),
            }
        },
        _ => (0, false),
    }
}

#[test]
fn text_element_at_the_depth_limit_is_written_whole() {
    assert_eq!(MAX_DEPTH, 100);
    // a hundred levels below the root: the lowest node stands at the limit
    let te = chain(100);
    assert_eq!(depth_of(&text_element_node(&te)), (101, false));
    // a node at the limit is written with its name, its attributes and its children
    let at_limit = child_node(&leaf("x", &["t"]), 100);
    let DocNode::Dict(entries) = &at_limit else { panic!("a map") };
    let keys: Vec<&str> = entries.iter().map(|e| e.0.as_str()).collect();
    assert_eq!(keys, vec!["nodeName", "attributes", "children"]);
    assert!(matches!(&entries[0].1, DocNode::Str(n) if n == "x"));
    assert!(matches!(&entries[2].1, DocNode::List(runs) if runs.len() == 1));
}

#[test]
fn text_element_beyond_the_depth_limit_is_cut() {
    // one level more: the node below the limit is cut off
    let te = chain(101);
    assert_eq!(depth_of(&text_element_node(&te)), (102, true));
    let deep = chain(5000);
    assert_eq!(depth_of(&text_element_node(&deep)), (102, true));
    assert_eq!(depth_of(&child_node(&leaf("x", &[]), 101)), (1, true));
    assert_eq!(depth_of(&child_node(&leaf("x", &[]), usize::MAX)), (1, true));
    assert_eq!(depth_of(&child_node(&leaf("x", &[]), 100)), (1, false));
    // and the document can still be built
    let mut m = statement();
    m.content[0].1.text_element = chain(150);
    assert!(stmt_to_loro_doc(&m).is_some());
}

#[test]
fn statement_document_mirrors_the_model() {
    let doc = stmt_to_loro_doc(&statement()).unwrap();
    let json = as_json(&doc);
    assert_eq!(json["properties"]["type"], "colab-statement");
    assert_eq!(json["properties"]["contentType"], "x");
    assert_eq!(json["acls"]["view"][0], "o1/u/a");
    let en = &json["content"]["en"];
    assert_eq!(en["acls"]["edit"][0], "o1/u/b");
    assert_eq!(en["approvals"]["a1"]["state"], "approved");
    assert_eq!(en["approvals"]["a1"]["user"], "a1a2a3a4-b1b2-c1c2-d1d2-d3d4d5d6d7d8");
    assert_eq!(en["approvals"]["a1"]["date"], "2024-01-02T03:04:05+00:00");
    assert_eq!(en["textElement"]["nodeName"], "doc");
    assert_eq!(en["textElement"]["attributes"]["class"], "c");
    assert_eq!(en["textElement"]["children"][0]["nodeName"], "p");
    assert_eq!(en["textElement"]["children"][0]["children"][0], "hello");
    assert_eq!(en["textElement"]["children"][0]["children"][1], "world");
}

#[test]
fn empty_statement_from_its_json_model() {
    let m = ColabStatementModel {
        properties: props(ColabModelType::ColabStatement),
        acls: vec![],
        content: vec![],
    };
    let doc = colab_to_loro_doc(&ColabModel::Statement(m)).unwrap();
    let want: serde_json::Value = serde_json::from_str(
        "{\"properties\":{\"type\":\"colab-statement\",\"contentType\":\"x\"},\"acls\":{},\"content\":{}}",
    )
    .unwrap();
    assert_eq!(as_json(&doc), want);
}

#[test]
fn document_survives_export_and_import() {
    for model in [ColabModel::Statement(statement()), ColabModel::Sheet(sheet())] {
        let doc = colab_to_loro_doc(&model).unwrap();
        let snapshot = doc.export(loro::ExportMode::Snapshot).unwrap();
        let back = loro::LoroDoc::new();
        back.import(&snapshot).unwrap();
        assert_eq!(as_json(&back), as_json(&doc));
        assert_eq!(normal(&read_doc(&back)), normal(&colab_node(&model)));
    }
}

#[test]
fn what_is_read_is_what_was_written() {
    let blue = statement_node(&statement());
    let doc = build_doc(&blue).unwrap();
    assert_eq!(normal(&read_doc(&doc)), normal(&blue));
    let blue = sheet_node(&sheet());
    let doc = sheet_to_loro_doc(&sheet()).unwrap();
    assert_eq!(normal(&read_doc(&doc)), normal(&blue));
    let json = as_json(&doc);
    assert_eq!(json["properties"]["masterLangCode"], "en");
    assert_eq!(json["properties"]["countryCodes"][1], "NL");
    assert!(json["properties"].get("langCodes").is_none());
    assert_eq!(json["content"][0]["type"], "properties");
    assert_eq!(json["content"][2]["rows"][0]["statementRef"]["version"], 4);
    assert_eq!(
        json["content"][2]["rows"][0]["statementRef"]["docId"],
        "00000000-0000-0000-0000-000000000001"
    );
    assert_eq!(json["content"][2]["rows"][1]["statement"]["acls"]["view"][0], "o1/u/a");
    assert_eq!(json["content"][3]["attributes"]["k"], "{\"a\":1}");
}

#[test]
fn a_root_that_is_no_map_is_not_built() {
    assert!(build_doc(&DocNode::Str(s("x"))).is_err());
    assert!(build_doc(&DocNode::Dict(vec![(s("a"), DocNode::Str(s("x")))])).is_err());
    assert!(build_doc(&DocNode::Dict(vec![(
        s("a"),
        DocNode::Dict(vec![(s("k"), DocNode::Other)])
    )]))
    .is_err());
}

#[test]
fn approval_of_a_group_names_its_members() {
    let member = |user: u128| ColabUserApproval {
        state: ColabApprovalState::Approved,
        user,
        date: s("2024-05-01T10:00:00+00:00"),
    };
    let group = ColabApproval::Group(ColabGroupApproval {
        state: ColabApprovalState::Pending,
        group: 0x0102_0304_0506_0708_090a_0b0c_0d0e_0f10,
        approvals: vec![member(1), member(2)],
    });
    let node = approval_node(&group);
    let DocNode::Dict(entries) = &node else { panic!("a map") };
    let keys: Vec<&str> = entries.iter().map(|e| e.0.as_str()).collect();
    assert_eq!(keys, vec!["type", "state", "group", "approvals"]);
    assert!(matches!(&entries[0].1, DocNode::Str(t) if t == "group"));
    assert!(matches!(&entries[1].1, DocNode::Str(t) if t == "pending"));
    assert!(
        matches!(&entries[2].1, DocNode::Str(t) if t == "01020304-0506-0708-090a-0b0c0d0e0f10")
    );
    let DocNode::List(members) = &entries[3].1 else { panic!("a list") };
    assert_eq!(members.len(), 2);
    let DocNode::Dict(first) = &members[0] else { panic!("a map") };
    assert!(matches!(&first[1].1, DocNode::Str(t) if t == "00000000-0000-0000-0000-000000000001"));

    let alone = ColabApproval::Group(ColabGroupApproval {
        state: ColabApprovalState::Draft,
        group: 7,
        approvals: vec![],
    });
    let DocNode::Dict(entries) = approval_node(&alone) else { panic!("a map") };
    assert_eq!(entries.len(), 3);
    let DocNode::Dict(entries) = approval_node(&ColabApproval::User(member(3))) else {
        panic!("a map")
    };
    let keys: Vec<&str> = entries.iter().map(|e| e.0.as_str()).collect();
    assert_eq!(keys, vec!["type", "state", "user", "date"]);
}

#[test]
fn a_list_takes_strings_and_containers_only() {
    let with_int = DocNode::Dict(vec![(
        s("a"),
        DocNode::Dict(vec![(s("k"), DocNode::List(vec![DocNode::Int(1)]))]),
    )]);
    assert!(build_doc(&with_int).is_err());
    let with_text = DocNode::Dict(vec![(
        s("a"),
        DocNode::Movable(vec![DocNode::Str(s("x")), DocNode::Text(s("y"))]),
    )]);
    let doc = build_doc(&with_text).expect("a tree that can be written");
    assert_eq!(normal(&read_doc(&doc)), normal(&with_text));
    let json = as_json(&doc);
    assert_eq!(json["a"][0], "x");
    assert_eq!(json["a"][1], "y");
}

fn path(steps: &[&str]) -> String {
    steps.join("/")
}

fn show(p: &Vec<Step>) -> String {
    p.iter()
        .map(|st| match st {
            Step::Key(k) => k.clone(),
            Step::At(i) => i.to_string(),
        })
        .collect::<Vec<_>>()
        .join("/")
}

#[test]
fn statement_plan_names_root_and_languages() {
    let plan = plan_acl_clear(&statement_node(&statement())).unwrap();
    let got: Vec<String> = plan.iter().map(show).collect();
    assert_eq!(got, vec![path(&["acls"]), path(&["content", "en", "acls"])]);
}

#[test]
fn sheet_plan_names_blocks_and_local_statements() {
    let plan = plan_acl_clear(&sheet_node(&sheet())).unwrap();
    let got: Vec<String> = plan.iter().map(show).collect();
    assert_eq!(
        got,
        vec![
            s("acls"),
            s("content/1/acls"),
            s("content/2/acls"),
            s("content/2/rows/1/statement/acls"),
            s("content/2/rows/1/statement/content/en/acls"),
            s("content/3/acls"),
        ]
    );
}

#[test]
fn unknown_types_are_not_supported() {
    let no_type = DocNode::Dict(vec![(s("properties"), DocNode::Dict(vec![]))]);
    assert_eq!(plan_acl_clear(&no_type).unwrap_err(), ErrorKind::Unsupported);
    let odd = DocNode::Dict(vec![(
        s("properties"),
        DocNode::Dict(vec![(s("type"), DocNode::Str(s("colab-other")))]),
    )]);
    assert_eq!(plan_acl_clear(&odd).unwrap_err(), ErrorKind::Unsupported);
    let sheet_with = |block: DocNode| {
        DocNode::Dict(vec![
            (
                s("properties"),
                DocNode::Dict(vec![(s("type"), DocNode::Str(s("colab-sheet")))]),
            ),
            (s("content"), DocNode::Movable(vec![block])),
        ])
    };
    let odd_block = sheet_with(DocNode::Dict(vec![(s("type"), DocNode::Str(s("chart")))]));
    assert_eq!(plan_acl_clear(&odd_block).unwrap_err(), ErrorKind::Unsupported);
    let untyped = sheet_with(DocNode::Dict(vec![]));
    assert_eq!(plan_acl_clear(&untyped).unwrap_err(), ErrorKind::Internal);
    let rowless =
        sheet_with(DocNode::Dict(vec![(s("type"), DocNode::Str(s("statement-grid")))]));
    assert_eq!(plan_acl_clear(&rowless).unwrap_err(), ErrorKind::Internal);
    let local_without_statement = sheet_with(DocNode::Dict(vec![
        (s("type"), DocNode::Str(s("statement-grid"))),
        (
            s("rows"),
            DocNode::Movable(vec![DocNode::Dict(vec![(s("type"), DocNode::Str(s("local")))])]),
        ),
    ]));
    assert_eq!(plan_acl_clear(&local_without_statement).unwrap_err(), ErrorKind::Internal);
    let plain_item = sheet_with(DocNode::Str(s("x")));
    assert_eq!(plan_acl_clear(&plain_item).unwrap().len(), 1);
}

#[test]
fn moving_a_statement_clears_its_access_lists() {
    let mut doc = stmt_to_loro_doc(&statement()).unwrap();
    assert_eq!(clear_acls(&mut doc).unwrap(), 2);
    let snapshot = doc.export(loro::ExportMode::Snapshot).unwrap();
    let back = loro::LoroDoc::new();
    back.import(&snapshot).unwrap();
    let json = as_json(&back);
    assert_eq!(json["acls"], serde_json::Value::Object(serde_json::Map::new()));
    assert_eq!(
        json["content"]["en"]["acls"],
        serde_json::Value::Object(serde_json::Map::new())
    );
    assert_eq!(json["content"]["en"]["textElement"]["nodeName"], "doc");
}

#[test]
fn moving_a_sheet_clears_block_and_row_access_lists() {
    let mut doc = sheet_to_loro_doc(&sheet()).unwrap();
    assert_eq!(clear_acls(&mut doc).unwrap(), 6);
    let json = as_json(&doc);
    let empty = serde_json::Value::Object(serde_json::Map::new());
    assert_eq!(json["acls"], empty);
    assert_eq!(json["content"][1]["acls"], empty);
    assert_eq!(json["content"][2]["acls"], empty);
    assert_eq!(json["content"][2]["rows"][1]["statement"]["acls"], empty);
    assert_eq!(json["content"][2]["rows"][1]["statement"]["content"]["en"]["acls"], empty);
    assert_eq!(json["content"][2]["rows"][0]["statementRef"]["version"], 4);
}

#[test]
fn a_document_of_unknown_type_is_left_alone() {
    let mut doc = loro::LoroDoc::new();
    doc.get_map("acls").insert("view", "x").unwrap();
    doc.get_map("properties").insert("type", "other").unwrap();
    doc.commit();
    assert_eq!(clear_acls(&mut doc).unwrap_err(), ErrorKind::Unsupported);
    assert_eq!(as_json(&doc)["acls"]["view"], "x");
}

#[test]
fn trees_are_alike_whatever_the_order_of_their_entries() {
    let a = DocNode::Dict(vec![
        (s("x"), DocNode::Str(s("1"))),
        (s("y"), DocNode::List(vec![DocNode::Text(s("t")), DocNode::Int(2)])),
    ]);
    let b = DocNode::Dict(vec![
        (s("y"), DocNode::List(vec![DocNode::Text(s("t")), DocNode::Int(2)])),
        (s("x"), DocNode::Str(s("1"))),
    ]);
    assert!(same_tree(&a, &b));
    assert!(same_tree(&b, &a));
    // a list keeps its order, and a list is no movable list
    let l = DocNode::List(vec![DocNode::Int(2), DocNode::Text(s("t"))]);
    assert!(!same_tree(&l, &DocNode::List(vec![DocNode::Text(s("t")), DocNode::Int(2)])));
    assert!(!same_tree(&l, &DocNode::Movable(vec![DocNode::Int(2), DocNode::Text(s("t"))])));
    // a string is no text, one entry more is another tree, a key twice is not one key
    assert!(!same_tree(&DocNode::Str(s("t")), &DocNode::Text(s("t"))));
    let more = DocNode::Dict(vec![
        (s("x"), DocNode::Str(s("1"))),
        (s("y"), DocNode::List(vec![DocNode::Text(s("t")), DocNode::Int(2)])),
        (s("z"), DocNode::Int(0)),
    ]);
    assert!(!same_tree(&a, &more));
    assert!(!same_tree(&more, &a));
    let twice = DocNode::Dict(vec![(s("x"), DocNode::Str(s("1"))), (s("x"), DocNode::Str(s("1")))]);
    let other = DocNode::Dict(vec![(s("x"), DocNode::Str(s("1"))), (s("w"), DocNode::Str(s("1")))]);
    assert!(!same_tree(&twice, &other));
    assert!(!same_tree(&DocNode::Other, &DocNode::Other));
}

#[test]
fn a_document_is_handed_out_only_where_it_holds_the_tree() {
    let good = DocNode::Dict(vec![(
        s("a"),
        DocNode::Dict(vec![(s("k"), DocNode::Str(s("1"))), (s("l"), DocNode::Int(2))]),
    )]);
    let doc = build_doc(&good).expect("a tree without a key twice");
    assert!(same_tree(&good, &read_doc(&doc)));
    // a key twice in one map: the document would hold one entry only
    let twice = DocNode::Dict(vec![(
        s("a"),
        DocNode::Dict(vec![(s("k"), DocNode::Str(s("1"))), (s("k"), DocNode::Int(2))]),
    )]);
    assert!(build_doc(&twice).is_err());
    // the documents of the models read as their trees
    let doc = stmt_to_loro_doc(&statement()).unwrap();
    assert!(same_tree(&statement_node(&statement()), &read_doc(&doc)));
    let doc = sheet_to_loro_doc(&sheet()).unwrap();
    assert!(same_tree(&sheet_node(&sheet()), &read_doc(&doc)));
}

#[test]
fn clearing_leaves_everything_else_as_it_was() {
    let mut doc = stmt_to_loro_doc(&statement()).unwrap();
    // what this crate does not read stays where it is, too
    doc.get_map("properties").insert("draft", true).unwrap();
    doc.get_map("properties").insert("weight", 1.5).unwrap();
    doc.commit();
    let before = as_json(&doc);
    assert_eq!(clear_acls(&mut doc).unwrap(), 2);
    let after = as_json(&doc);
    let empty = serde_json::Value::Object(serde_json::Map::new());
    assert_eq!(after["acls"], empty);
    assert_eq!(after["content"]["en"]["acls"], empty);
    assert_eq!(after["properties"], before["properties"]);
    assert_eq!(after["content"]["en"]["textElement"], before["content"]["en"]["textElement"]);
    assert_eq!(after["properties"]["draft"], true);
    // clearing again finds the access lists empty and leaves them so
    assert_eq!(clear_acls(&mut doc).unwrap(), 2);
    assert_eq!(as_json(&doc), after);
}
