use colabri_doc::codec::package::{decode_package, encode_package, ColabPackage};
use colabri_doc::error::ErrorKind;
use colabri_doc::load::{
    context_for_new_stream, context_from_stream, fetch_doc_snapshot_from_db, synthesize, Loaded, FIRST_VERSION,
};
use colabri_doc::models::colab::{
    ColabModel, ColabModelProperties, ColabModelType, ColabStatementModel,
};
use colabri_doc::store::{
    is_viewable, plan_load, ColabDocument, DocumentAclRow, DocumentStreamRow, LoadPlan,
};
use std::collections::HashMap;

fn stream(id: u128, name: &str, version: u32, content: Option<Vec<u8>>) -> DocumentStreamRow {
    DocumentStreamRow {
        org: "o1".to_string(),
        id,
        name: name.to_string(),
        document: 9,
        version,
        content,
        pointer: None,
        size: 0,
        deleted: false,
    }
}

fn document(streams: Vec<DocumentStreamRow>, json: Option<&str>) -> ColabDocument {
    ColabDocument {
        id: 9,
        name: "n".to_string(),
        doc_type: "colab-statement".to_string(),
        owner: "o1/u/owner".to_string(),
        json: json.map(|j| j.to_string()),
        acls: vec![],
        streams,
    }
}

fn model() -> ColabModel {
    ColabModel::Statement(ColabStatementModel {
        properties: ColabModelProperties {
            type_: ColabModelType::ColabStatement,
            content_type: "x".to_string(),
            master_lang_code: None,
            country_codes: None,
            lang_codes: None,
        },
        acls: vec![],
        content: vec![],
    })
}

fn blob(snapshot: &[u8], peer: u64, who: &str) -> Vec<u8> {
    let mut peer_map = HashMap::new();
    peer_map.insert(peer, who.to_string());
    encode_package(&ColabPackage::new(snapshot.to_vec(), peer_map))
}

#[test]
fn latest_is_the_greatest_main_version_with_content() {
    let streams = vec![
        stream(1, "main", 2, Some(vec![1])),
        stream(2, "side", 9, Some(vec![1])),
        stream(3, "main", 5, None),
        stream(4, "main", 4, Some(vec![1])),
        stream(5, "main", 4, Some(vec![2])),
        stream(6, "main", 0, Some(vec![1])),
    ];
    assert_eq!(plan_load(&streams, true, None), LoadPlan::FromStream { index: 3 });
    assert_eq!(plan_load(&streams, true, Some(2)), LoadPlan::FromStream { index: 0 });
    assert_eq!(plan_load(&streams, true, Some(0)), LoadPlan::FromStream { index: 5 });
    assert_eq!(plan_load(&streams, true, Some(5)), LoadPlan::NoSuchVersion);
    assert_eq!(plan_load(&streams, true, Some(9)), LoadPlan::NoSuchVersion);
    let zero_only = vec![stream(1, "main", 0, Some(vec![1]))];
    assert_eq!(plan_load(&zero_only, false, None), LoadPlan::FromStream { index: 0 });
}

#[test]
fn without_streams_the_model_is_used() {
    let none: Vec<DocumentStreamRow> = vec![];
    assert_eq!(plan_load(&none, true, None), LoadPlan::FromModel);
    assert_eq!(plan_load(&none, false, None), LoadPlan::NoContent);
    assert_eq!(plan_load(&none, true, Some(1)), LoadPlan::NoSuchVersion);
    let empty = vec![stream(1, "main", 3, None), stream(2, "other", 1, Some(vec![]))];
    assert_eq!(plan_load(&empty, true, None), LoadPlan::FromModel);
}

#[test]
fn context_of_a_stream() {
    let doc = document(vec![stream(77, "main", 6, Some(blob(&[5, 6], 3, "o1/u/a")))], None);
    let (snapshot, ctx) = context_from_stream("o1", &doc, 0).unwrap();
    assert_eq!(snapshot, vec![5, 6]);
    assert_eq!(ctx.org, "o1");
    assert_eq!(ctx.doc_id, 9);
    assert_eq!(ctx.doc_stream_id, 77);
    assert_eq!(ctx.doc_version, 6);
    assert_eq!(ctx.doc_owner, "o1/u/owner");
    assert_eq!(ctx.peer_map.len(), 1);
    assert_eq!(ctx.peer_map[&3], "o1/u/a");
    assert_eq!(ctx.last_updating_peer, None);
    let bad = document(vec![stream(77, "main", 6, Some(vec![1, 2, 3]))], None);
    assert_eq!(context_from_stream("o1", &bad, 0).unwrap_err(), ErrorKind::Internal);
}

#[test]
fn load_from_json_fallback() {
    let doc = document(vec![], Some("{}"));
    let m = model();
    let built = match fetch_doc_snapshot_from_db("o1", Some(&doc), Some(&m), None, "s/colabri-doc").unwrap() {
        Loaded::MustInsert(b) => b,
        _ => panic!("the model was not used"),
    };
    assert_eq!(built.peer_map.len(), 1);
    assert_eq!(built.peer_map[&built.peer], "s/colabri-doc");
    let pkg = decode_package(&built.blob).unwrap();
    assert_eq!(pkg.snapshot, built.snapshot);
    assert_eq!(pkg.peer_map, built.peer_map);
    let back = loro::LoroDoc::new();
    back.import(&pkg.snapshot).unwrap();
    let json = loro::ToJson::to_json_value(&back.get_deep_value());
    assert_eq!(json["properties"]["contentType"], "x");
    let peer = built.peer;
    let content = built.blob.clone();
    let (snapshot, ctx) = context_for_new_stream("o1", &doc, 0x55, built);
    assert_eq!(snapshot, pkg.snapshot);
    assert_eq!(ctx.doc_version, FIRST_VERSION);
    assert_eq!(ctx.doc_version, 1);
    assert_eq!(ctx.doc_stream_id, 0x55);
    assert_eq!(ctx.last_updating_peer, Some(peer));
    // the next load finds the stream that was written
    let stored = document(vec![stream(0x55, "main", 1, Some(content))], Some("{}"));
    match fetch_doc_snapshot_from_db("o1", Some(&stored), Some(&m), None, "s/colabri-doc").unwrap() {
        Loaded::Ready(s2, c2) => {
            assert_eq!(s2, snapshot);
            assert_eq!(c2.peer_map, ctx.peer_map);
            assert_eq!(c2.last_updating_peer, None);
        },
        _ => panic!("the stream was not used"),
    }
}

#[test]
fn load_outcomes() {
    let m = model();
    assert!(matches!(
        fetch_doc_snapshot_from_db("o1", None, Some(&m), None, "s/x").unwrap(),
        Loaded::Missing
    ));
    let doc = document(vec![], None);
    assert_eq!(
        fetch_doc_snapshot_from_db("o1", Some(&doc), None, None, "s/x").err(),
        Some(ErrorKind::NotFound)
    );
    let doc = document(vec![], Some("{"));
    assert_eq!(
        fetch_doc_snapshot_from_db("o1", Some(&doc), None, None, "s/x").err(),
        Some(ErrorKind::Internal)
    );
    let doc = document(vec![stream(1, "main", 1, Some(blob(&[], 1, "a")))], None);
    assert!(matches!(
        fetch_doc_snapshot_from_db("o1", Some(&doc), None, Some(2), "s/x").unwrap(),
        Loaded::Missing
    ));
    assert!(matches!(
        fetch_doc_snapshot_from_db("o1", Some(&doc), None, Some(1), "s/x").unwrap(),
        Loaded::Ready(_, _)
    ));
    assert!(synthesize(&m, "s/x").is_ok());
}

#[test]
fn who_may_view_a_document() {
    let mut doc = document(vec![], None);
    doc.acls = vec![
        DocumentAclRow {
            org: "o1".to_string(),
            id: 1,
            document: 9,
            prpl: "o1/u/editor".to_string(),
            permission: "edit".to_string(),
        },
        DocumentAclRow {
            org: "o1".to_string(),
            id: 2,
            document: 9,
            prpl: "o1/u/viewer".to_string(),
            permission: "view".to_string(),
        },
    ];
    let p = |x: &str| vec![x.to_string()];
    assert!(is_viewable(&doc, "o1", &p("o1/u/owner")));
    assert!(is_viewable(&doc, "o1", &p("o1/u/viewer")));
    assert!(!is_viewable(&doc, "o1", &p("o1/u/editor")));
    assert!(is_viewable(&doc, "o1", &p("o1/f/admin")));
    assert!(!is_viewable(&doc, "o1", &p("o2/f/admin")));
    assert!(is_viewable(&doc, "o1", &p("r/Colabri-CloudAdmin")));
    assert!(!is_viewable(&doc, "o1", &vec![]));
}
