use colabri_doc::error::ErrorKind;
use colabri_doc::room::admission::{
    admit_update, counter_of, decide_update, updating_peer, Admission,
};
use colabri_doc::room::docctx::DocContext;
use std::collections::HashMap;

fn ctx(peers: &[(u64, &str)]) -> DocContext {
    let mut peer_map = HashMap::new();
    for (p, who) in peers {
        peer_map.insert(*p, who.to_string());
    }
    DocContext {
        org: "o1".to_string(),
        doc_id: 1,
        doc_stream_id: 2,
        doc_version: 3,
        doc_owner: "o1/u/owner".to_string(),
        peer_map,
        last_updating_peer: None,
    }
}

fn prpls(items: &[&str]) -> Vec<String> {
    items.iter().map(|s| s.to_string()).collect()
}

#[test]
fn counters_default_to_zero() {
    let vv = vec![(1u64, 3i32), (2, 5)];
    assert_eq!(counter_of(&vv, 1), 3);
    assert_eq!(counter_of(&vv, 2), 5);
    assert_eq!(counter_of(&vv, 9), 0);
}

#[test]
fn updating_peer_is_the_first_that_advanced() {
    let before = vec![(1u64, 3i32), (2, 5)];
    assert_eq!(updating_peer(&before, &vec![(1, 3), (2, 5)]), None);
    assert_eq!(updating_peer(&before, &vec![(2, 5), (1, 4)]), Some(1));
    assert_eq!(updating_peer(&before, &vec![(2, 6), (1, 4)]), Some(2));
    assert_eq!(updating_peer(&before, &vec![(1, 4), (2, 6)]), Some(1));
    assert_eq!(updating_peer(&before, &vec![(1, 3), (2, 5), (7, 1)]), Some(7));
    assert_eq!(updating_peer(&before, &vec![(1, 2)]), None);
    assert_eq!(updating_peer(&vec![], &vec![(7, 0)]), None);
}

#[test]
fn new_peer_is_bound_to_the_sender() {
    let mut c = ctx(&[]);
    let r = admit_update(
        &mut c,
        &vec![],
        &vec![(7, 1)],
        Some(&prpls(&["o1/u/a", "r/x"])),
        Some("o1/u/a"),
    );
    assert_eq!(r, Admission::Accepted { peer: 7 });
    assert_eq!(c.peer_map[&7], "o1/u/a");
    assert_eq!(c.last_updating_peer, Some(7));
}

#[test]
fn bound_peer_takes_updates_of_its_principal_only() {
    let mut c = ctx(&[(7, "o1/u/a")]);
    let before = vec![(7u64, 1i32)];
    let after = vec![(7u64, 2i32)];
    let r = admit_update(&mut c, &before, &after, Some(&prpls(&["o1/u/b"])), Some("o1/u/b"));
    assert_eq!(r, Admission::Denied { kind: ErrorKind::PermissionDenied });
    assert_eq!(c.peer_map.len(), 1);
    assert_eq!(c.peer_map[&7], "o1/u/a");
    assert_eq!(c.last_updating_peer, None);
    let r = admit_update(&mut c, &before, &after, Some(&prpls(&["x", "o1/u/a"])), Some("o1/u/z"));
    assert_eq!(r, Admission::Accepted { peer: 7 });
    // the binding does not change once it is set
    assert_eq!(c.peer_map[&7], "o1/u/a");
    assert_eq!(c.last_updating_peer, Some(7));
}

#[test]
fn batch_without_advance_changes_nothing() {
    let mut c = ctx(&[(7, "o1/u/a")]);
    let vv = vec![(7u64, 1i32)];
    let r = admit_update(&mut c, &vv, &vv, Some(&prpls(&["o1/u/b"])), Some("o1/u/b"));
    assert_eq!(r, Admission::NoChange);
    assert_eq!(c.last_updating_peer, None);
    assert_eq!(c.peer_map.len(), 1);
}

#[test]
fn missing_principals_are_unauthenticated() {
    let mut c = ctx(&[]);
    let r = admit_update(&mut c, &vec![], &vec![(7, 1)], None, Some("o1/u/a"));
    assert_eq!(r, Admission::Denied { kind: ErrorKind::Unauthenticated });
    assert!(c.peer_map.is_empty());
}

#[test]
fn sender_without_org_principal_binds_no_peer() {
    let mut c = ctx(&[]);
    let r = admit_update(&mut c, &vec![], &vec![(7, 1)], Some(&prpls(&["r/x"])), None);
    assert_eq!(r, Admission::Denied { kind: ErrorKind::PermissionDenied });
    assert!(c.peer_map.is_empty());
    assert_eq!(c.last_updating_peer, None);
}

#[test]
fn several_advanced_peers_are_attributed_to_the_first() {
    let mut c = ctx(&[(2, "o1/u/other")]);
    // peer 9 comes first and is new: it is bound; peer 2 is not looked at
    let r = admit_update(
        &mut c,
        &vec![(2, 1)],
        &vec![(9, 1), (2, 2)],
        Some(&prpls(&["o1/u/a"])),
        Some("o1/u/a"),
    );
    assert_eq!(r, Admission::Accepted { peer: 9 });
    assert_eq!(c.peer_map[&9], "o1/u/a");
    assert_eq!(c.peer_map[&2], "o1/u/other");
    // peer 2 comes first: it is bound to another principal
    let d = decide_update(
        &c,
        &vec![(2, 1)],
        &vec![(2, 2), (10, 1)],
        Some(&prpls(&["o1/u/a"])),
        Some("o1/u/a"),
    );
    assert_eq!(d, Admission::Denied { kind: ErrorKind::PermissionDenied });
}
