use colabri_doc::codec::package::decode_package;
use colabri_doc::doc::write::stmt_to_loro_doc;
use colabri_doc::error::ErrorKind;
use colabri_doc::models::colab::{
    ColabModelProperties, ColabModelType, ColabStatementModel,
};
use colabri_doc::room::admission::Admission;
use colabri_doc::room::docctx::DocContext;
use colabri_doc::room::hub::{Closed, Hub, HubRegistry, Opened};
use colabri_doc::room::room::{CrdtKind, Room};
use std::collections::HashMap;

fn statement() -> ColabStatementModel {
    ColabStatementModel {
        properties: ColabModelProperties {
            type_: ColabModelType::ColabStatement,
            content_type: "x".to_string(),
            master_lang_code: None,
            country_codes: None,
            lang_codes: None,
        },
        acls: vec![],
        content: vec![],
    }
}

fn context(doc: &loro::LoroDoc) -> DocContext {
    let mut peer_map = HashMap::new();
    peer_map.insert(doc.peer_id(), "s/colabri-doc".to_string());
    DocContext {
        org: "o1".to_string(),
        doc_id: 0xd1,
        doc_stream_id: 0x51,
        doc_version: 1,
        doc_owner: "o1/u/owner".to_string(),
        peer_map,
        last_updating_peer: None,
    }
}

fn prpls(items: &[&str]) -> Vec<String> {
    items.iter().map(|s| s.to_string()).collect()
}

/// An update made under `peer` on top of `base`: one more key in `properties`.
fn update_under(peer: u64, base: &[u8], key: &str) -> Vec<u8> {
    let client = loro::LoroDoc::new();
    client.import(base).unwrap();
    client.set_peer_id(peer).unwrap();
    let seen = client.oplog_vv();
    client.get_map("properties").insert(key, "v").unwrap();
    client.commit();
    client.export(loro::ExportMode::updates(&seen)).unwrap()
}

fn open_room(hub: &mut Hub) -> Vec<u8> {
    let doc = stmt_to_loro_doc(&statement()).unwrap();
    let snapshot = doc.export(loro::ExportMode::Snapshot).unwrap();
    assert_eq!(hub.open(CrdtKind::Loro, "d1"), Opened::MustLoad);
    let ctx = context(&doc);
    assert!(hub.install(CrdtKind::Loro, "d1", doc, ctx));
    snapshot
}

fn room<'a>(hub: &'a Hub) -> &'a Room {
    &hub.rooms[hub.find(CrdtKind::Loro, "d1").unwrap()]
}

fn state(hub: &Hub) -> String {
    loro::ToJson::to_json(&room(hub).doc.as_ref().unwrap().get_deep_value())
}

#[test]
fn open_is_idempotent_and_asks_for_one_load() {
    let mut hub = Hub::new("o1");
    assert_eq!(hub.open(CrdtKind::Loro, "d1"), Opened::MustLoad);
    assert_eq!(hub.open(CrdtKind::Loro, "d1"), Opened::Present);
    assert_eq!(hub.open(CrdtKind::LoroEphemeralStore, "d1"), Opened::MustLoad);
    assert_eq!(hub.rooms.len(), 2);
}

#[test]
fn room_without_context_takes_no_subscriber() {
    let mut hub = Hub::new("o1");
    assert_eq!(hub.subscribe(CrdtKind::Loro, "d1", 1), Err(ErrorKind::NotFound));
    hub.open(CrdtKind::Loro, "d1");
    assert_eq!(hub.subscribe(CrdtKind::Loro, "d1", 1), Err(ErrorKind::NotFound));
    assert!(room(&hub).subs.is_empty());
    assert!(room(&hub).ctx.is_none());
    // a failed load discards the room
    assert!(hub.discard(CrdtKind::Loro, "d1").is_empty());
    assert!(hub.find(CrdtKind::Loro, "d1").is_none());
}

#[test]
fn subscribers_are_a_set() {
    let mut hub = Hub::new("o1");
    open_room(&mut hub);
    assert_eq!(hub.subscribe(CrdtKind::Loro, "d1", 1), Ok(()));
    assert_eq!(hub.subscribe(CrdtKind::Loro, "d1", 2), Ok(()));
    assert_eq!(hub.subscribe(CrdtKind::Loro, "d1", 1), Ok(()));
    assert_eq!(room(&hub).subs, vec![1, 2]);
    assert!(room(&hub).ctx.is_some());
    assert!(!hub.unsubscribe(CrdtKind::Loro, "d1", 1));
    assert!(!hub.unsubscribe(CrdtKind::Loro, "d1", 9));
    assert!(hub.unsubscribe(CrdtKind::Loro, "d1", 2));
    assert!(!hub.unsubscribe(CrdtKind::Loro, "nope", 2));
}

#[test]
fn accepted_update_binds_peer_marks_dirty_and_fans_out() {
    let mut hub = Hub::new("o1");
    let snapshot = open_room(&mut hub);
    for c in [1, 2, 3] {
        hub.subscribe(CrdtKind::Loro, "d1", c).unwrap();
    }
    let bytes = update_under(7, &snapshot, "fromA");
    let out = hub.update(
        CrdtKind::Loro,
        "d1",
        2,
        &bytes,
        Some(&prpls(&["o1/u/a"])),
        Some("o1/u/a"),
    );
    assert_eq!(out.admission, Admission::Accepted { peer: 7 });
    assert_eq!(out.fan_out, vec![1, 3]);
    let r = room(&hub);
    assert!(r.dirty);
    let ctx = r.ctx.as_ref().unwrap();
    assert_eq!(ctx.peer_map[&7], "o1/u/a");
    assert_eq!(ctx.last_updating_peer, Some(7));
    assert!(state(&hub).contains("fromA"));
}

#[test]
fn peer_impersonation_is_blocked() {
    let mut hub = Hub::new("o1");
    let snapshot = open_room(&mut hub);
    hub.subscribe(CrdtKind::Loro, "d1", 1).unwrap();
    hub.subscribe(CrdtKind::Loro, "d1", 2).unwrap();
    let first = update_under(7, &snapshot, "fromA");
    let out = hub.update(
        CrdtKind::Loro,
        "d1",
        1,
        &first,
        Some(&prpls(&["o1/u/a"])),
        Some("o1/u/a"),
    );
    assert_eq!(out.admission, Admission::Accepted { peer: 7 });
    hub.saved(CrdtKind::Loro, "d1", room(&hub).changes);
    assert!(!room(&hub).dirty);
    let json_before = state(&hub);
    let vv_before = room(&hub).doc.as_ref().unwrap().state_vv();
    // the second user writes under the first user's peer
    let base = room(&hub).doc.as_ref().unwrap().export(loro::ExportMode::Snapshot).unwrap();
    let forged = update_under(7, &base, "fromB");
    let out = hub.update(
        CrdtKind::Loro,
        "d1",
        2,
        &forged,
        Some(&prpls(&["o1/u/b"])),
        Some("o1/u/b"),
    );
    assert_eq!(out.admission, Admission::Denied { kind: ErrorKind::PermissionDenied });
    assert!(out.fan_out.is_empty());
    let r = room(&hub);
    assert_eq!(state(&hub), json_before);
    assert_eq!(r.doc.as_ref().unwrap().state_vv(), vv_before);
    assert!(!r.dirty);
    assert_eq!(r.ctx.as_ref().unwrap().peer_map[&7], "o1/u/a");
    assert_eq!(r.ctx.as_ref().unwrap().last_updating_peer, None);
    assert_eq!(r.subs, vec![1, 2]);
}

#[test]
fn update_of_unknown_room_or_bad_bytes_is_refused() {
    let mut hub = Hub::new("o1");
    let p = prpls(&["o1/u/a"]);
    let out = hub.update(CrdtKind::Loro, "d1", 1, &[1, 2, 3], Some(&p), Some("o1/u/a"));
    assert_eq!(out.admission, Admission::Denied { kind: ErrorKind::NotFound });
    open_room(&mut hub);
    let out = hub.update(CrdtKind::Loro, "d1", 1, &[1, 2, 3], Some(&p), Some("o1/u/a"));
    assert_eq!(out.admission, Admission::Denied { kind: ErrorKind::PermissionDenied });
    hub.subscribe(CrdtKind::Loro, "d1", 1).unwrap();
    let out = hub.update(CrdtKind::Loro, "d1", 1, &[1, 2, 3], Some(&p), Some("o1/u/a"));
    assert_eq!(out.admission, Admission::Denied { kind: ErrorKind::InvalidArgument });
    let out = hub.update(CrdtKind::Loro, "d1", 1, &[1, 2, 3], None, Some("o1/u/a"));
    assert_eq!(out.admission, Admission::Denied { kind: ErrorKind::Unauthenticated });
    assert!(!room(&hub).dirty);
}

#[test]
fn replayed_update_changes_nothing() {
    let mut hub = Hub::new("o1");
    let snapshot = open_room(&mut hub);
    hub.subscribe(CrdtKind::Loro, "d1", 1).unwrap();
    let bytes = update_under(7, &snapshot, "k");
    let p = prpls(&["o1/u/a"]);
    let out = hub.update(CrdtKind::Loro, "d1", 1, &bytes, Some(&p), Some("o1/u/a"));
    assert_eq!(out.admission, Admission::Accepted { peer: 7 });
    let changes = room(&hub).changes;
    let out = hub.update(CrdtKind::Loro, "d1", 1, &bytes, Some(&p), Some("o1/u/a"));
    assert_eq!(out.admission, Admission::NoChange);
    assert_eq!(room(&hub).changes, changes);
}

#[test]
fn clean_room_is_not_saved() {
    let mut hub = Hub::new("o1");
    open_room(&mut hub);
    assert!(!room(&hub).dirty);
    assert!(room(&hub).ctx.as_ref().unwrap().last_updating_peer.is_none());
    assert!(hub.save_job(CrdtKind::Loro, "d1").unwrap().is_none());
    assert!(hub.save_job(CrdtKind::Loro, "unknown").unwrap().is_none());
    assert!(hub.dirty_rooms().is_empty());
    assert!(!room(&hub).dirty);
}

#[test]
fn save_job_holds_the_package_and_clears_on_success() {
    let mut hub = Hub::new("o1");
    let snapshot = open_room(&mut hub);
    hub.subscribe(CrdtKind::Loro, "d1", 1).unwrap();
    let bytes = update_under(7, &snapshot, "k");
    let p = prpls(&["o1/u/a"]);
    hub.update(CrdtKind::Loro, "d1", 1, &bytes, Some(&p), Some("o1/u/a"));
    assert_eq!(hub.dirty_rooms(), vec![0]);
    let job = hub.save_job(CrdtKind::Loro, "d1").unwrap().unwrap();
    assert_eq!(job.org, "o1");
    assert_eq!(job.doc_id, 0xd1);
    assert_eq!(job.doc_stream_id, 0x51);
    assert_eq!(job.doc_type, ColabModelType::ColabStatement);
    assert_eq!(job.by_prpl, "o1/u/a");
    let pkg = decode_package(&job.blob).unwrap();
    assert_eq!(pkg.peer_map, room(&hub).ctx.as_ref().unwrap().peer_map);
    // every peer of the version vector is bound in the stored package
    assert!(!job.version_v.is_empty());
    for (peer, _) in &job.version_v {
        assert!(pkg.peer_map.contains_key(peer));
    }
    let back = loro::LoroDoc::new();
    back.import(&pkg.snapshot).unwrap();
    assert_eq!(loro::ToJson::to_json(&back.get_deep_value()), state(&hub));
    let parsed: serde_json::Value = serde_json::from_str(&job.json).unwrap();
    assert_eq!(parsed["properties"]["type"], "colab-statement");
    // a save that is older than the last update leaves the room dirty
    hub.saved(CrdtKind::Loro, "d1", job.mark.wrapping_sub(1));
    assert!(room(&hub).dirty);
    hub.saved(CrdtKind::Loro, "d1", job.mark);
    assert!(!room(&hub).dirty);
    assert_eq!(room(&hub).ctx.as_ref().unwrap().last_updating_peer, None);
    assert!(hub.save_job(CrdtKind::Loro, "d1").unwrap().is_none());
}

#[test]
fn save_with_an_unbound_peer_is_a_conflict() {
    let mut hub = Hub::new("o1");
    let snapshot = open_room(&mut hub);
    hub.subscribe(CrdtKind::Loro, "d1", 1).unwrap();
    // a batch that advances two peers: only the first is bound
    let a = loro::LoroDoc::new();
    a.import(&snapshot).unwrap();
    a.set_peer_id(7).unwrap();
    let seen = a.oplog_vv();
    a.get_map("properties").insert("a", "1").unwrap();
    a.commit();
    let b = loro::LoroDoc::new();
    b.import(&a.export(loro::ExportMode::Snapshot).unwrap()).unwrap();
    b.set_peer_id(8).unwrap();
    b.get_map("properties").insert("b", "2").unwrap();
    b.commit();
    let both = b.export(loro::ExportMode::updates(&seen)).unwrap();
    let p = prpls(&["o1/u/a"]);
    let out = hub.update(CrdtKind::Loro, "d1", 1, &both, Some(&p), Some("o1/u/a"));
    assert!(matches!(out.admission, Admission::Accepted { .. }));
    assert_eq!(room(&hub).ctx.as_ref().unwrap().peer_map.len(), 2);
    assert_eq!(hub.save_job(CrdtKind::Loro, "d1").unwrap_err(), ErrorKind::Conflict);
    assert!(room(&hub).dirty);
}

#[test]
fn close_waits_for_subscribers_unless_forced() {
    let mut hub = Hub::new("o1");
    open_room(&mut hub);
    hub.subscribe(CrdtKind::Loro, "d1", 4).unwrap();
    hub.subscribe(CrdtKind::Loro, "d1", 5).unwrap();
    assert!(matches!(hub.close(CrdtKind::Loro, "d1", false), Closed::InUse));
    assert!(hub.find(CrdtKind::Loro, "d1").is_some());
    match hub.close(CrdtKind::Loro, "d1", true) {
        Closed::Gone { notify, save } => {
            assert_eq!(notify, vec![4, 5]);
            assert!(save.unwrap().is_none());
        },
        _ => panic!("the room stayed"),
    }
    assert!(hub.find(CrdtKind::Loro, "d1").is_none());
    // a second close finds nothing to do
    assert!(matches!(hub.close(CrdtKind::Loro, "d1", true), Closed::NotOpen));
    assert!(hub.rooms.is_empty());
}

#[test]
fn close_of_a_dirty_room_hands_back_its_last_write() {
    let mut hub = Hub::new("o1");
    let snapshot = open_room(&mut hub);
    hub.subscribe(CrdtKind::Loro, "d1", 1).unwrap();
    let bytes = update_under(7, &snapshot, "k");
    let p = prpls(&["o1/u/a"]);
    hub.update(CrdtKind::Loro, "d1", 1, &bytes, Some(&p), Some("o1/u/a"));
    assert!(hub.unsubscribe(CrdtKind::Loro, "d1", 1));
    match hub.close(CrdtKind::Loro, "d1", false) {
        Closed::Gone { notify, save } => {
            assert!(notify.is_empty());
            let job = save.unwrap().unwrap();
            assert_eq!(job.by_prpl, "o1/u/a");
        },
        _ => panic!("the room stayed"),
    }
}

#[test]
fn dropped_connection_leaves_every_room() {
    let mut hub = Hub::new("o1");
    open_room(&mut hub);
    hub.open(CrdtKind::Loro, "d2");
    let doc = stmt_to_loro_doc(&statement()).unwrap();
    let ctx = context(&doc);
    hub.install(CrdtKind::Loro, "d2", doc, ctx);
    hub.subscribe(CrdtKind::Loro, "d1", 1).unwrap();
    hub.subscribe(CrdtKind::Loro, "d1", 2).unwrap();
    hub.subscribe(CrdtKind::Loro, "d2", 1).unwrap();
    let left = hub.drop_connection(1);
    assert_eq!(left, vec![1]);
    assert_eq!(hub.rooms[0].subs, vec![2]);
    assert!(hub.rooms[1].subs.is_empty());
    assert!(hub.drop_connection(9).is_empty());
}

#[test]
fn counts_over_hubs() {
    let mut reg = HubRegistry::new();
    let a = reg.ensure_hub("o1");
    let b = reg.ensure_hub("o2");
    assert_eq!(reg.ensure_hub("o1"), a);
    assert_eq!(reg.hub_index("o2"), Some(b));
    assert_eq!(reg.hub_index("o3"), None);
    let snapshot = open_room(&mut reg.hubs[a]);
    reg.hubs[a].subscribe(CrdtKind::Loro, "d1", 1).unwrap();
    reg.hubs[a].subscribe(CrdtKind::Loro, "d1", 2).unwrap();
    reg.hubs[a].open(CrdtKind::LoroEphemeralStore, "d1");
    let bytes = update_under(7, &snapshot, "k");
    let p = prpls(&["o1/u/a"]);
    reg.hubs[a].update(CrdtKind::Loro, "d1", 1, &bytes, Some(&p), Some("o1/u/a"));
    open_room(&mut reg.hubs[b]);
    reg.hubs[b].subscribe(CrdtKind::Loro, "d1", 3).unwrap();
    let one = reg.hubs[a].counts();
    assert_eq!(
        (one.n_conn, one.n_rooms, one.n_doc_rooms, one.n_ephemeral_rooms, one.n_dirty_docs),
        (2, 2, 1, 1, 1)
    );
    let all = reg.totals();
    assert_eq!(
        (all.n_conn, all.n_rooms, all.n_doc_rooms, all.n_ephemeral_rooms, all.n_dirty_docs),
        (3, 3, 2, 1, 1)
    );
}

#[test]
fn only_subscribers_and_the_system_may_send() {
    let mut hub = Hub::new("o1");
    let snapshot = open_room(&mut hub);
    hub.subscribe(CrdtKind::Loro, "d1", 1).unwrap();
    let bytes = update_under(7, &snapshot, "k");
    let p = prpls(&["o1/u/a"]);
    // connection 2 never joined the room
    let out = hub.update(CrdtKind::Loro, "d1", 2, &bytes, Some(&p), Some("o1/u/a"));
    assert_eq!(out.admission, Admission::Denied { kind: ErrorKind::PermissionDenied });
    assert!(!room(&hub).dirty);
    assert!(!room(&hub).ctx.as_ref().unwrap().peer_map.contains_key(&7));
    // the system connection is in no room and may send
    let system = prpls(&["s/colabri-system"]);
    let out = hub.update(CrdtKind::Loro, "d1", 0, &bytes, Some(&system), Some("s/colabri-system"));
    assert_eq!(out.admission, Admission::Accepted { peer: 7 });
    assert_eq!(out.fan_out, vec![1]);
    assert_eq!(room(&hub).ctx.as_ref().unwrap().peer_map[&7], "s/colabri-system");
}

#[test]
fn loading_installs_what_the_store_gave_or_discards_the_room() {
    let doc = stmt_to_loro_doc(&statement()).unwrap();
    let snapshot = doc.export(loro::ExportMode::Snapshot).unwrap();

    let mut hub = Hub::new("o1");
    assert_eq!(hub.open(CrdtKind::Loro, "d1"), Opened::MustLoad);
    assert_eq!(hub.load(CrdtKind::Loro, "d1", Ok(Some((snapshot.clone(), context(&doc))))), Ok(()));
    let installed = room(&hub).ctx.as_ref().expect("the context of the room");
    assert_eq!(installed.doc_stream_id, 0x51);
    assert_eq!(installed.peer_map, context(&doc).peer_map);
    assert!(!room(&hub).dirty);
    assert_eq!(hub.subscribe(CrdtKind::Loro, "d1", 4), Ok(()));
    assert_eq!(state(&hub), loro::ToJson::to_json(&doc.get_deep_value()));

    // nothing in the store, a failing store, a snapshot that cannot be read
    for (fetched, want) in [
        (Ok(None), ErrorKind::NotFound),
        (Err("down".to_string()), ErrorKind::StoreUnavailable),
        (Ok(Some((vec![1, 2, 3], context(&doc)))), ErrorKind::Internal),
    ] {
        let mut hub = Hub::new("o1");
        assert_eq!(hub.open(CrdtKind::Loro, "d1"), Opened::MustLoad);
        assert_eq!(hub.load(CrdtKind::Loro, "d1", fetched), Err(want));
        assert!(hub.find(CrdtKind::Loro, "d1").is_none());
        assert!(hub.rooms.is_empty());
    }

    // the room was closed while the store was asked
    let mut hub = Hub::new("o1");
    assert_eq!(
        hub.load(CrdtKind::Loro, "d1", Ok(Some((snapshot, context(&doc))))),
        Err(ErrorKind::NotFound)
    );
    assert!(hub.rooms.is_empty());
}

#[test]
fn system_edit_binds_its_peer_and_closes_the_room() {
    // by force: the subscribers are told, the last state is written
    let mut hub = Hub::new("o1");
    open_room(&mut hub);
    assert_eq!(hub.subscribe(CrdtKind::Loro, "d1", 4), Ok(()));
    let (peer, closed) = hub.edit_doc(CrdtKind::Loro, "d1", "s/colabri-doc", true).unwrap();
    assert!(hub.rooms.is_empty());
    let Closed::Gone { notify, save } = closed else { panic!("the room is gone") };
    assert_eq!(notify, vec![4]);
    let job = save.unwrap().expect("an edited room is written");
    assert_eq!(job.by_prpl, "s/colabri-doc");
    let package = decode_package(&job.blob).unwrap();
    assert_eq!(package.peer_map.get(&peer).map(|s| s.as_str()), Some("s/colabri-doc"));

    // without force a room with subscribers stays, edited and dirty
    let mut hub = Hub::new("o1");
    open_room(&mut hub);
    assert_eq!(hub.subscribe(CrdtKind::Loro, "d1", 4), Ok(()));
    let (peer, closed) = hub.edit_doc(CrdtKind::Loro, "d1", "s/colabri-doc", false).unwrap();
    assert!(matches!(closed, Closed::InUse));
    assert!(room(&hub).dirty);
    assert_eq!(room(&hub).ctx.as_ref().unwrap().last_updating_peer, Some(peer));
    assert_eq!(room(&hub).subs, vec![4]);

    // without force a room without subscribers is closed
    let mut hub = Hub::new("o1");
    open_room(&mut hub);
    let (_, closed) = hub.edit_doc(CrdtKind::Loro, "d1", "s/colabri-doc", false).unwrap();
    assert!(matches!(closed, Closed::Gone { .. }));
    assert!(hub.rooms.is_empty());

    // no room, no edit
    let mut hub = Hub::new("o1");
    assert!(matches!(
        hub.edit_doc(CrdtKind::Loro, "d1", "s/colabri-doc", true),
        Err(ErrorKind::NotFound)
    ));
}

#[test]
fn joining_subscribes_and_hands_out_the_document() {
    let mut hub = Hub::new("o1");
    assert!(matches!(hub.join(CrdtKind::Loro, "d1", 4), Err(ErrorKind::NotFound)));
    assert_eq!(hub.open(CrdtKind::Loro, "d1"), Opened::MustLoad);
    // the room waits for its document
    assert!(matches!(hub.join(CrdtKind::Loro, "d1", 4), Err(ErrorKind::NotFound)));
    assert!(room(&hub).subs.is_empty());

    let mut hub = Hub::new("o1");
    open_room(&mut hub);
    let bytes = hub.join(CrdtKind::Loro, "d1", 4).unwrap();
    assert_eq!(room(&hub).subs, vec![4]);
    let copy = loro::LoroDoc::new();
    copy.import(&bytes).unwrap();
    assert_eq!(loro::ToJson::to_json(&copy.get_deep_value()), state(&hub));
    // joining again changes nothing
    hub.join(CrdtKind::Loro, "d1", 4).unwrap();
    assert_eq!(room(&hub).subs, vec![4]);
}

#[test]
fn save_tick_writes_the_dirty_rooms_only() {
    let mut hub = Hub::new("o1");
    let base = open_room(&mut hub);
    assert_eq!(hub.open(CrdtKind::Loro, "d2"), Opened::MustLoad);
    let doc = stmt_to_loro_doc(&statement()).unwrap();
    let ctx = context(&doc);
    assert!(hub.install(CrdtKind::Loro, "d2", doc, ctx));
    // nothing was changed: nothing is written
    assert!(hub.save_jobs().is_empty());
    assert!(hub.dirty_rooms().is_empty());

    assert_eq!(hub.subscribe(CrdtKind::Loro, "d1", 4), Ok(()));
    let update = update_under(7, &base, "k");
    let outcome = hub.update(
        CrdtKind::Loro,
        "d1",
        4,
        &update,
        Some(&prpls(&["o1/u/a"])),
        Some("o1/u/a"),
    );
    assert!(matches!(outcome.admission, Admission::Accepted { peer: 7 }));
    let jobs = hub.save_jobs();
    assert_eq!(jobs.len(), 1);
    let (at, job) = &jobs[0];
    let job = job.as_ref().expect("the write that is due");
    assert_eq!(hub.rooms[*at].key.room, "d1");
    assert_eq!(job.by_prpl, "o1/u/a");
    assert_eq!(decode_package(&job.blob).unwrap().peer_map.get(&7).unwrap(), "o1/u/a");

    // once the write went well the room is clean again
    let mark = job.mark;
    hub.saved(CrdtKind::Loro, "d1", mark);
    assert!(hub.save_jobs().is_empty());
}
