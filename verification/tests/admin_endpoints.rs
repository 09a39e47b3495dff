use colabri_doc::admin::{
    build_doc_payload, build_version_payload, check_doc_request, diagnostics, doc_delete,
    doc_move_lib, export_from_store, export_response, latest_from_room, latest_from_store, latest_response,
    parse_doc_id, payload_of, store_failed, version_from_room, version_from_store, OutputFormat,
    Source,
};
use colabri_doc::doc::write::stmt_to_loro_doc;
use colabri_doc::encoding::to_base64;
use colabri_doc::models::api::{
    DocumentDeleteRequest, DocumentMoveLibRequest, DocumentVersionRequest,
};
use colabri_doc::models::colab::{
    ColabModelPermission, ColabModelProperties, ColabModelType, ColabStatementElement,
    ColabStatementModel, TextElement, TextElementChildrenOrString,
};
use colabri_doc::room::docctx::DocContext;
use colabri_doc::room::hub::{Closed, Hub, HubRegistry};
use colabri_doc::room::room::CrdtKind;
use std::collections::HashMap;

const DOC: &str = "a1a2a3a4-b1b2-c1c2-d1d2-d3d4d5d6d7d8";

fn prpls(items: &[&str]) -> Vec<String> {
    items.iter().map(|s| s.to_string()).collect()
}

fn app() -> Vec<String> {
    prpls(&["s/colabri-app"])
}

fn two_peers() -> loro::LoroDoc {
    let a = loro::LoroDoc::new();
    a.set_peer_id(1).unwrap();
    let t = a.get_text("t");
    t.insert(0, "a").unwrap();
    a.commit();
    t.insert(1, "b").unwrap();
    a.commit();
    t.insert(2, "c").unwrap();
    a.commit();
    let b = loro::LoroDoc::new();
    b.set_peer_id(2).unwrap();
    b.get_text("u").insert(0, "12345").unwrap();
    b.commit();
    let doc = loro::LoroDoc::new();
    doc.import(&a.export(loro::ExportMode::all_updates()).unwrap()).unwrap();
    doc.import(&b.export(loro::ExportMode::all_updates()).unwrap()).unwrap();
    doc
}

fn peers() -> HashMap<u64, String> {
    let mut m = HashMap::new();
    m.insert(1, "o1/u/a".to_string());
    m.insert(2, "o1/u/b".to_string());
    m
}

fn ctx(version: u32) -> DocContext {
    DocContext {
        org: "o1".to_string(),
        doc_id: 1,
        doc_stream_id: 2,
        doc_version: version,
        doc_owner: "o1/u/owner".to_string(),
        peer_map: peers(),
        last_updating_peer: None,
    }
}

fn json(text: &Option<String>) -> serde_json::Value {
    serde_json::from_str(text.as_ref().unwrap()).unwrap()
}

#[test]
fn output_format_of_a_query() {
    assert_eq!(OutputFormat::from_query(None), Ok(OutputFormat::Json));
    assert_eq!(OutputFormat::from_query(Some("".to_string())), Ok(OutputFormat::Json));
    assert_eq!(OutputFormat::from_query(Some("  \t".to_string())), Ok(OutputFormat::Json));
    assert_eq!(OutputFormat::from_query(Some("json".to_string())), Ok(OutputFormat::Json));
    assert_eq!(OutputFormat::from_query(Some(" Binary ".to_string())), Ok(OutputFormat::Binary));
    assert_eq!(OutputFormat::from_query(Some("BOTH".to_string())), Ok(OutputFormat::Both));
    assert_eq!(
        OutputFormat::from_query(Some(" XML ".to_string())),
        Err("Invalid output format 'xml'. Use 'json', 'binary', or 'both'.".to_string())
    );
    assert_eq!(OutputFormat::from_word("both"), Ok(OutputFormat::Both));
    assert!(OutputFormat::from_word("Both").is_err());
}

#[test]
fn what_a_format_includes() {
    assert!(OutputFormat::Json.include_json());
    assert!(!OutputFormat::Json.include_binary());
    assert!(!OutputFormat::Binary.include_json());
    assert!(OutputFormat::Binary.include_binary());
    assert!(OutputFormat::Both.include_json());
    assert!(OutputFormat::Both.include_binary());
}

#[test]
fn document_identifiers() {
    assert_eq!(parse_doc_id(DOC).unwrap(), 0xa1a2a3a4b1b2c1c2d1d2d3d4d5d6d7d8u128);
    let e = parse_doc_id("nope").unwrap_err();
    assert_eq!(e.code, 400);
    assert_eq!(e.status, "400 Bad Request");
    assert_eq!(e.error, "Invalid document UUID 'nope'");
}

#[test]
fn request_checks_come_in_order() {
    let ok = check_doc_request(&app(), DOC, Some("both".to_string())).unwrap();
    assert_eq!(ok.format, OutputFormat::Both);
    assert_eq!(ok.doc_id, 0xa1a2a3a4b1b2c1c2d1d2d3d4d5d6d7d8u128);
    // a bad format is told before the caller is looked at
    let e = check_doc_request(&prpls(&[]), "nope", Some("x".to_string())).unwrap_err();
    assert_eq!(e.code, 400);
    assert_eq!(e.error, "Invalid output format 'x'. Use 'json', 'binary', or 'both'.");
    let e = check_doc_request(&prpls(&["o1/u/a"]), "nope", None).unwrap_err();
    assert_eq!(e.code, 403);
    assert_eq!(e.error, "Service 'colabri-app' access denied");
    let e = check_doc_request(&prpls(&["r/Colabri-CloudAdmin"]), "nope", None).unwrap_err();
    assert_eq!(e.code, 400);
    assert_eq!(e.error, "Invalid document UUID 'nope'");
}

#[test]
fn base64_of_bytes() {
    assert_eq!(to_base64(b"hello world~").unwrap(), "aGVsbG8gd29ybGR+");
    assert_eq!(to_base64(b"").unwrap(), "");
    assert_eq!(to_base64(&[0xff, 0xfe]).unwrap(), "//4=");
}

#[test]
fn payload_is_made_of_what_was_read() {
    let p = payload_of(
        Some("{\"t\":\"abc\"}".to_string()),
        vec![(7, 2), (3, 9)],
        Some(Ok(b"hello".to_vec())),
        &peers(),
        "no".to_string(),
    )
    .unwrap();
    assert_eq!(p.json.as_deref(), Some("{\"t\":\"abc\"}"));
    assert_eq!(p.binary.as_deref(), Some("aGVsbG8="));
    assert_eq!(p.version_v, vec![(7, 2), (3, 9)]);
    assert_eq!(p.peer_map, peers());
    let p = payload_of(None, vec![], None, &HashMap::new(), "no".to_string()).unwrap();
    assert!(p.json.is_none() && p.binary.is_none());
    assert!(p.version_v.is_empty() && p.peer_map.is_empty());
    let e = payload_of(
        None,
        vec![],
        Some(Err("broken".to_string())),
        &peers(),
        "Failed to export document 'x' to binary".to_string(),
    )
    .unwrap_err();
    assert_eq!(e.code, 500);
    assert_eq!(e.error, "Failed to export document 'x' to binary");
}

#[test]
fn payload_follows_the_format() {
    let doc = two_peers();
    let p = build_doc_payload(&doc, &peers(), DOC, OutputFormat::Json).unwrap();
    assert!(p.binary.is_none());
    assert_eq!(json(&p.json)["t"], "abc");
    assert_eq!(json(&p.json)["u"], "12345");
    let mut vv = p.version_v.clone();
    vv.sort();
    assert_eq!(vv, vec![(1, 3), (2, 5)]);
    assert_eq!(p.peer_map, peers());
    let p = build_doc_payload(&doc, &peers(), DOC, OutputFormat::Binary).unwrap();
    assert!(p.json.is_none());
    let want = to_base64(&doc.export(loro::ExportMode::state_only(None)).unwrap()).unwrap();
    assert_eq!(p.binary.unwrap(), want);
    let p = build_doc_payload(&doc, &peers(), DOC, OutputFormat::Both).unwrap();
    assert!(p.json.is_some() && p.binary.is_some());
}

#[test]
fn version_checkout_leaves_out_later_operations() {
    let doc = two_peers();
    let at = Some(vec![(1u64, 2i32)]);
    let p = build_version_payload(&doc, &peers(), DOC, &at, OutputFormat::Both).unwrap();
    let state = json(&p.json);
    assert_eq!(state["t"], "ab");
    assert!(state.get("u").map(|u| u == "").unwrap_or(true));
    assert_eq!(p.version_v, vec![(1, 2)]);
    assert!(p.binary.is_some());
    // the document itself is where it was
    let latest = build_doc_payload(&doc, &peers(), DOC, OutputFormat::Json).unwrap();
    assert_eq!(json(&latest.json)["t"], "abc");
    assert_eq!(json(&latest.json)["u"], "12345");
    assert!(!doc.is_detached());
}

#[test]
fn checkout_to_the_current_version_is_the_latest_state() {
    let doc = two_peers();
    let latest = build_doc_payload(&doc, &peers(), DOC, OutputFormat::Json).unwrap();
    let current = Some(latest.version_v.clone());
    let p = build_version_payload(&doc, &peers(), DOC, &current, OutputFormat::Json).unwrap();
    assert_eq!(json(&p.json), json(&latest.json));
    let none = build_version_payload(&doc, &peers(), DOC, &None, OutputFormat::Json).unwrap();
    assert_eq!(json(&none.json), json(&latest.json));
}

#[test]
fn version_that_the_history_does_not_reach() {
    let doc = two_peers();
    let at = Some(vec![(9u64, 4i32)]);
    let e = build_version_payload(&doc, &peers(), DOC, &at, OutputFormat::Json).unwrap_err();
    assert_eq!(e.code, 500);
    assert_eq!(e.status, "500 Internal Server Error");
}

#[test]
fn latest_reads_an_open_room_or_asks_the_store() {
    assert!(matches!(latest_from_room(None, DOC, OutputFormat::Json), Ok(Source::Store)));
    let mut hub = Hub::new("o1");
    hub.open(CrdtKind::Loro, DOC);
    let idx = hub.find(CrdtKind::Loro, DOC).unwrap();
    assert!(matches!(
        latest_from_room(Some(&hub.rooms[idx]), DOC, OutputFormat::Json),
        Ok(Source::Store)
    ));
    hub.install(CrdtKind::Loro, DOC, two_peers(), ctx(4));
    match latest_from_room(Some(&hub.rooms[idx]), DOC, OutputFormat::Json).unwrap() {
        Source::Memory(p, version) => {
            assert_eq!(version, 4);
            let resp = latest_response(p, version);
            assert_eq!(resp.version, 4);
            assert_eq!(json(&resp.json)["t"], "abc");
        },
        Source::Store => panic!("the room was not read"),
    }
}

#[test]
fn latest_from_the_store() {
    let snapshot = two_peers().export(loro::ExportMode::Snapshot).unwrap();
    let r = latest_from_store(Ok(Some((snapshot, ctx(7)))), "o1", DOC, OutputFormat::Json).unwrap();
    assert_eq!(r.version, 7);
    assert_eq!(json(&r.json)["t"], "abc");
    assert_eq!(r.peer_map, peers());
    let e = latest_from_store(Ok(None), "o1", DOC, OutputFormat::Json).unwrap_err();
    assert_eq!(e.code, 404);
    assert_eq!(e.status, "404 Not Found");
    assert_eq!(e.error, format!("Document '{DOC}' not found in organization 'o1'"));
    let e = latest_from_store(Err("down".to_string()), "o1", DOC, OutputFormat::Json).unwrap_err();
    assert_eq!(e.code, 503);
    assert_eq!(e.error, format!("Error loading document '{DOC}' from database: down"));
    let e = latest_from_store(Ok(Some((vec![1, 2], ctx(7)))), "o1", DOC, OutputFormat::Json)
        .unwrap_err();
    assert_eq!(e.code, 500);
}

#[test]
fn version_reads_the_room_of_that_version_only() {
    let mut hub = Hub::new("o1");
    hub.open(CrdtKind::Loro, DOC);
    hub.install(CrdtKind::Loro, DOC, two_peers(), ctx(4));
    let room = &hub.rooms[0];
    let req = DocumentVersionRequest { version: 4, version_v: Some(vec![(1, 1)]), format: None };
    let r = version_from_room(Some(room), DOC, &req, OutputFormat::Json).unwrap().unwrap();
    assert_eq!(r.version, 4);
    assert_eq!(json(&r.json)["t"], "a");
    let other = DocumentVersionRequest { version: 3, version_v: None, format: None };
    assert!(version_from_room(Some(room), DOC, &other, OutputFormat::Json).unwrap().is_none());
    assert!(version_from_room(None, DOC, &req, OutputFormat::Json).unwrap().is_none());
    // the room still holds the latest state
    let p = build_doc_payload(room.doc.as_ref().unwrap(), &peers(), DOC, OutputFormat::Json)
        .unwrap();
    assert_eq!(json(&p.json)["t"], "abc");
}

#[test]
fn version_from_the_store() {
    let snapshot = two_peers().export(loro::ExportMode::Snapshot).unwrap();
    let req = DocumentVersionRequest { version: 2, version_v: Some(vec![(1, 2)]), format: None };
    let r = version_from_store(Ok(Some((snapshot, ctx(2)))), "o1", DOC, &req, OutputFormat::Json)
        .unwrap();
    assert_eq!(r.version, 2);
    assert_eq!(r.version_v, vec![(1, 2)]);
    assert_eq!(json(&r.json)["t"], "ab");
    let e = version_from_store(Ok(None), "o1", DOC, &req, OutputFormat::Json).unwrap_err();
    assert_eq!(e.code, 404);
    assert_eq!(
        e.error,
        format!("Document '{DOC}' with version 2 not found in organization 'o1'")
    );
    let e = version_from_store(Err("x".to_string()), "o1", DOC, &req, OutputFormat::Json)
        .unwrap_err();
    assert_eq!(e.code, 503);
    assert_eq!(e.status, "503 Service Unavailable");
}

#[test]
fn export_from_the_store() {
    let snapshot = two_peers().export(loro::ExportMode::Snapshot).unwrap();
    let r = export_from_store(Ok(Some((snapshot, ctx(7)))), "o1", DOC).unwrap();
    assert_eq!(json(&Some(r.json))["t"], "abc");
    assert_eq!(r.peer_map, peers());
    let mut vv = r.version_v.clone();
    vv.sort();
    assert_eq!(vv, vec![(1, 3), (2, 5)]);
    let e = export_from_store(Ok(None), "o1", DOC).unwrap_err();
    assert_eq!(e.code, 404);
    assert_eq!(e.error, format!("Document '{DOC}' not found in organization 'o1'"));
    let e = export_from_store(Err("down".to_string()), "o1", DOC).unwrap_err();
    assert_eq!(e.code, 503);
    assert_eq!(e.error, format!("Error loading document '{DOC}' from database: down"));
    let e = export_from_store(Ok(Some((vec![1, 2], ctx(7)))), "o1", DOC).unwrap_err();
    assert_eq!(e.code, 500);
    assert_eq!(e.error, format!("Failed to import snapshot for document '{DOC}'"));
}

#[test]
fn export_is_always_json() {
    let r = export_response(&two_peers(), &peers(), DOC).unwrap();
    let state: serde_json::Value = serde_json::from_str(&r.json).unwrap();
    assert_eq!(state["u"], "12345");
    assert_eq!(r.peer_map, peers());
    assert_eq!(r.version_v.len(), 2);
}

#[test]
fn delete_is_checked_then_force_closes() {
    let req = || DocumentDeleteRequest { by_prpl: "s/colabri-app".to_string() };
    let plan = doc_delete(&app(), DOC, req()).unwrap();
    assert_eq!(plan.doc_id, 0xa1a2a3a4b1b2c1c2d1d2d3d4d5d6d7d8u128);
    assert_eq!(plan.by_prpl, "s/colabri-app");
    assert_eq!(doc_delete(&prpls(&["o1/u/a"]), DOC, req()).unwrap_err().code, 403);
    assert_eq!(doc_delete(&app(), "d1", req()).unwrap_err().code, 400);
    let e = store_failed("delete", DOC, "gone");
    assert_eq!(e.code, 503);
    assert_eq!(e.error, format!("Failed to delete document '{DOC}': gone"));
    // the room is closed although a subscriber is in it, and twice is once
    let mut hub = Hub::new("o1");
    hub.open(CrdtKind::Loro, DOC);
    hub.install(CrdtKind::Loro, DOC, two_peers(), ctx(1));
    hub.subscribe(CrdtKind::Loro, DOC, 11).unwrap();
    match hub.close(CrdtKind::Loro, DOC, true) {
        Closed::Gone { notify, .. } => assert_eq!(notify, vec![11]),
        _ => panic!("the room stayed"),
    }
    assert!(matches!(hub.close(CrdtKind::Loro, DOC, true), Closed::NotOpen));
    assert_eq!(hub.counts().n_conn, 0);
}

#[test]
fn move_to_library_is_checked() {
    let req = |lib: &str| DocumentMoveLibRequest {
        library_id: lib.to_string(),
        by_prpl: "o1/u/a".to_string(),
    };
    let plan = doc_move_lib(&app(), DOC, req("00000000-0000-0000-0000-00000000000f")).unwrap();
    assert_eq!(plan.library_id, 15);
    assert_eq!(plan.by_prpl, "o1/u/a");
    let e = doc_move_lib(&app(), DOC, req("lib")).unwrap_err();
    assert_eq!(e.code, 400);
    assert_eq!(e.error, "Invalid library UUID 'lib'");
    let e = doc_move_lib(&app(), "doc", req("lib")).unwrap_err();
    assert_eq!(e.error, "Invalid document UUID 'doc'");
    assert_eq!(doc_move_lib(&prpls(&[]), DOC, req("lib")).unwrap_err().code, 403);
}

#[test]
fn move_to_library_clears_access_lists_and_closes() {
    let text = || TextElement {
        children: TextElementChildrenOrString::AsStringArray(vec![]),
        attributes: vec![],
        node_name: "doc".to_string(),
    };
    let model = ColabStatementModel {
        properties: ColabModelProperties {
            type_: ColabModelType::ColabStatement,
            content_type: "x".to_string(),
            master_lang_code: None,
            country_codes: None,
            lang_codes: None,
        },
        acls: vec![(ColabModelPermission::View, vec!["o1/u/a".to_string()])],
        content: vec![(
            "en".to_string(),
            ColabStatementElement {
                text_element: text(),
                acls: vec![(ColabModelPermission::Edit, vec!["o1/u/b".to_string()])],
                comments: vec![],
                approvals: vec![],
            },
        )],
    };
    let doc = stmt_to_loro_doc(&model).unwrap();
    let own = doc.peer_id();
    let mut hub = Hub::new("o1");
    assert_eq!(
        hub.clear_acls(CrdtKind::Loro, DOC, "s/colabri-doc"),
        Err(colabri_doc::error::ErrorKind::NotFound)
    );
    hub.open(CrdtKind::Loro, DOC);
    hub.install(CrdtKind::Loro, DOC, doc, ctx(1));
    hub.subscribe(CrdtKind::Loro, DOC, 5).unwrap();
    let peer = hub.clear_acls(CrdtKind::Loro, DOC, "s/colabri-doc").unwrap();
    assert_eq!(peer, own);
    let room = &hub.rooms[0];
    assert!(room.dirty);
    let c = room.ctx.as_ref().unwrap();
    assert_eq!(c.peer_map[&peer], "s/colabri-doc");
    assert_eq!(c.peer_map[&1], "o1/u/a");
    assert_eq!(c.last_updating_peer, Some(peer));
    let (notify, job) = match hub.close(CrdtKind::Loro, DOC, true) {
        Closed::Gone { notify, save } => (notify, save.unwrap().unwrap()),
        _ => panic!("the room stayed"),
    };
    assert_eq!(notify, vec![5]);
    assert_eq!(job.by_prpl, "s/colabri-doc");
    // a reload shows both access lists empty
    let pkg = colabri_doc::codec::package::decode_package(&job.blob).unwrap();
    let back = loro::LoroDoc::new();
    back.import(&pkg.snapshot).unwrap();
    let state = loro::ToJson::to_json_value(&back.get_deep_value());
    let empty = serde_json::Value::Object(serde_json::Map::new());
    assert_eq!(state["acls"], empty);
    assert_eq!(state["content"]["en"]["acls"], empty);
    assert_eq!(state, serde_json::from_str::<serde_json::Value>(&job.json).unwrap());
}

#[test]
fn diagnostics_are_for_cloud_admins() {
    let mut reg = HubRegistry::new();
    let i = reg.ensure_hub("o1");
    reg.hubs[i].open(CrdtKind::Loro, "d");
    let d = diagnostics(&prpls(&["r/Colabri-CloudAdmin"]), &reg, 12).unwrap();
    assert_eq!(d.n_user_ctx, 12);
    assert_eq!(d.counts.n_rooms, 1);
    assert_eq!(d.counts.n_doc_rooms, 1);
    assert_eq!(d.counts.n_conn, 0);
    let big = diagnostics(&prpls(&["r/Colabri-CloudAdmin"]), &reg, u64::MAX).unwrap();
    assert_eq!(big.n_user_ctx, u32::MAX);
    let e = diagnostics(&app(), &reg, 0).unwrap_err();
    assert_eq!(e.code, 403);
    assert_eq!(e.error, "Cloud Admin access required");
}
