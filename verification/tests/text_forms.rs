use colabri_doc::admin::OutputFormat;
use colabri_doc::ids::format_uuid;
use colabri_doc::room::hub::{Closed, HubRegistry, Opened};
use colabri_doc::room::room::CrdtKind;
use colabri_doc::session::{keeps_up, update_status, CloseReason, UpdateStatus};
use colabri_doc::room::admission::Admission;
use colabri_doc::error::ErrorKind;
use colabri_doc::text::{trim_str, white};

#[test]
fn identifiers_are_written_as_the_uuid_crate_writes_them() {
    let cases = [
        0u128,
        1,
        0xa1a2a3a4b1b2c1c2d1d2d3d4d5d6d7d8,
        u128::MAX,
        0x0123456789abcdef0123456789abcdef,
        0x10000000000000000000000000000000,
    ];
    for id in cases {
        assert_eq!(format_uuid(id), uuid::Uuid::from_u128(id).to_string());
    }
    assert_eq!(format_uuid(0xff), "00000000-0000-0000-0000-0000000000ff");
}

#[test]
fn trimming_is_that_of_the_standard_library() {
    let cases = [
        "",
        " ",
        "a",
        "  a b  ",
        "\t\n json \r\n",
        "\u{3000}json\u{2003}",
        "\u{85}x\u{a0}",
        "\u{1680}\u{2028}\u{2029}\u{202f}\u{205f}",
        "\u{200b}x\u{200b}",
        "\u{feff}x",
        "x\u{0}",
        "é ",
    ];
    for c in cases {
        assert_eq!(trim_str(c), c.trim());
    }
    for n in 0u32..0x3100 {
        if let Some(c) = char::from_u32(n) {
            assert_eq!(white(c), c.is_whitespace());
        }
    }
    assert_eq!(
        OutputFormat::from_query(Some("\u{3000}Binary\u{2003}".to_string())),
        Ok(OutputFormat::Binary)
    );
}

#[test]
fn what_a_sender_is_told() {
    assert_eq!(update_status(Admission::NoChange), UpdateStatus::Taken);
    assert_eq!(update_status(Admission::Accepted { peer: 1 }), UpdateStatus::Taken);
    let denied = |kind| update_status(Admission::Denied { kind });
    assert_eq!(denied(ErrorKind::PermissionDenied), UpdateStatus::PermissionDenied);
    assert_eq!(denied(ErrorKind::Unauthenticated), UpdateStatus::PermissionDenied);
    assert_eq!(denied(ErrorKind::InvalidArgument), UpdateStatus::InvalidUpdate);
    assert_eq!(denied(ErrorKind::NotFound), UpdateStatus::AppError);
    assert_eq!(denied(ErrorKind::Internal), UpdateStatus::AppError);
    assert_eq!(CloseReason::Moved.as_str(), "moved");
    assert_eq!(CloseReason::Deleted.as_str(), "deleted");
    assert!(keeps_up(0, 1));
    assert!(!keeps_up(1, 1));
    assert!(!keeps_up(0, 0));
}

#[test]
fn rooms_by_organisation() {
    let mut reg = HubRegistry::new();
    assert!(reg.is_well_formed());
    assert_eq!(reg.open("o1", CrdtKind::Loro, "d1"), Opened::MustLoad);
    assert_eq!(reg.open("o1", CrdtKind::Loro, "d1"), Opened::Present);
    assert_eq!(reg.open("o2", CrdtKind::Loro, "d1"), Opened::MustLoad);
    assert_eq!(reg.hubs.len(), 2);
    assert!(matches!(reg.close("o3", CrdtKind::Loro, "d1", true), Closed::NotOpen));
    assert!(matches!(reg.close("o1", CrdtKind::Loro, "d2", true), Closed::NotOpen));
    assert!(matches!(reg.close("o1", CrdtKind::Loro, "d1", false), Closed::Gone { .. }));
    assert!(matches!(reg.close("o1", CrdtKind::Loro, "d1", false), Closed::NotOpen));
    assert_eq!(reg.hubs[1].rooms.len(), 1);
    assert!(reg.is_well_formed());
    // a registry that was tampered with is told
    let twin = colabri_doc::room::room::Room::new(CrdtKind::Loro, "d1");
    reg.hubs[1].rooms.push(twin);
    assert!(!reg.hubs[1].is_well_formed());
    assert!(!reg.is_well_formed());
    reg.hubs[1].rooms.pop();
    reg.hubs[1].rooms[0].subs.push(3);
    assert!(!reg.hubs[1].rooms[0].is_well_formed());
    reg.hubs[1].rooms[0].subs.clear();
    reg.hubs[1].rooms[0].dirty = true;
    assert!(!reg.is_well_formed());
}
