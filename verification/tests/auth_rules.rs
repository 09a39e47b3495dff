use colabri_doc::auth::{
    _ensure_org_member, _ensure_service_or_org_member, _is_authenticated, _is_org_admin,
    _is_org_member, _is_service, ensure_cloud_admin, ensure_service, is_cloud_admin,
};
use colabri_doc::error::{status_line, ErrorKind, ErrorResponse};

fn prpls(items: &[&str]) -> Vec<String> {
    items.iter().map(|s| s.to_string()).collect()
}

#[test]
fn authenticated_means_some_principal() {
    assert!(!_is_authenticated(&prpls(&[])));
    assert!(_is_authenticated(&prpls(&["x"])));
}

#[test]
fn cloud_admin_is_matched_exactly() {
    assert!(is_cloud_admin(&prpls(&["o1/u/a", "r/Colabri-CloudAdmin"])));
    assert!(!is_cloud_admin(&prpls(&["r/Colabri-CloudAdmin2", "r/colabri-cloudadmin"])));
    assert!(!is_cloud_admin(&prpls(&[])));
}

#[test]
fn service_principal_is_s_slash_name() {
    assert!(_is_service(&prpls(&["s/colabri-app"]), "colabri-app"));
    assert!(!_is_service(&prpls(&["s/colabri-app"]), "colabri"));
    assert!(!_is_service(&prpls(&["colabri-app"]), "colabri-app"));
}

#[test]
fn org_admin_is_org_f_admin_or_cloud_admin() {
    assert!(_is_org_admin(&prpls(&["o1/f/admin"]), "o1"));
    assert!(!_is_org_admin(&prpls(&["o1/f/admin"]), "o2"));
    assert!(_is_org_admin(&prpls(&["r/Colabri-CloudAdmin"]), "o2"));
    assert!(!_is_org_admin(&prpls(&["o1/u/a"]), "o1"));
}

#[test]
fn org_member_needs_the_user_prefix() {
    assert!(_is_org_member(&prpls(&["o1/u/a"]), "o1"));
    assert!(!_is_org_member(&prpls(&["o1/u/a"]), "o"));
    assert!(!_is_org_member(&prpls(&["o10/u/a"]), "o1"));
    assert!(_is_org_member(&prpls(&["r/Colabri-CloudAdmin"]), "o1"));
    assert!(!_is_org_member(&prpls(&["o1/f/admin"]), "o1"));
}

#[test]
fn ensure_service_prefers_the_service_principal() {
    let both = prpls(&["r/Colabri-CloudAdmin", "s/colabri-app"]);
    assert_eq!(ensure_service(&both, "colabri-app").unwrap(), "s/colabri-app");
    let admin = prpls(&["r/Colabri-CloudAdmin"]);
    assert_eq!(ensure_service(&admin, "colabri-app").unwrap(), "r/Colabri-CloudAdmin");
}

#[test]
fn ensure_service_refuses_with_403() {
    let e = ensure_service(&prpls(&["o1/u/a"]), "colabri-app").unwrap_err();
    assert_eq!(e.code, 403);
    assert_eq!(e.status, "403 Forbidden");
    assert_eq!(e.error, "Service 'colabri-app' access denied");
}

#[test]
fn ensure_cloud_admin_refuses_others() {
    assert_eq!(
        ensure_cloud_admin(&prpls(&["r/Colabri-CloudAdmin"])).unwrap(),
        "r/Colabri-CloudAdmin"
    );
    let e = ensure_cloud_admin(&prpls(&["s/colabri-app"])).unwrap_err();
    assert_eq!(e.code, 403);
    assert_eq!(e.error, "Cloud Admin access required");
}

#[test]
fn org_member_yields_the_user_id() {
    let p = prpls(&["x", "o1/u/a1a2a3a4-b1b2-c1c2-d1d2-d3d4d5d6d7d8", "o1/u/zzz"]);
    let (id, who) = _ensure_org_member(&p, "o1").unwrap();
    assert_eq!(id, Some(0xa1a2a3a4b1b2c1c2d1d2d3d4d5d6d7d8u128));
    assert_eq!(who, "o1/u/a1a2a3a4-b1b2-c1c2-d1d2-d3d4d5d6d7d8");
}

#[test]
fn org_member_looks_at_the_first_org_principal_only() {
    // the first principal of the organisation spells no identifier: the
    // second is not looked at
    let p = prpls(&["o1/u/zzz", "o1/u/a1a2a3a4-b1b2-c1c2-d1d2-d3d4d5d6d7d8"]);
    let e = _ensure_org_member(&p, "o1").unwrap_err();
    assert_eq!(e.code, 403);
    assert_eq!(e.error, "User is not a member of the organization");
    let mut with_admin = p.clone();
    with_admin.push("r/Colabri-CloudAdmin".to_string());
    let (id, who) = _ensure_org_member(&with_admin, "o1").unwrap();
    assert_eq!(id, None);
    assert_eq!(who, "r/Colabri-CloudAdmin");
}

#[test]
fn service_or_org_member_order() {
    let p = prpls(&["o1/u/a1a2a3a4-b1b2-c1c2-d1d2-d3d4d5d6d7d8", "s/colabri-app"]);
    let (id, who) = _ensure_service_or_org_member(&p, "colabri-app", "o1").unwrap();
    assert_eq!(id, None);
    assert_eq!(who, "s/colabri-app");
    let (id, _) = _ensure_service_or_org_member(&p, "other", "o1").unwrap();
    assert_eq!(id, Some(0xa1a2a3a4b1b2c1c2d1d2d3d4d5d6d7d8u128));
    let e = _ensure_service_or_org_member(&prpls(&["x"]), "other", "o1").unwrap_err();
    assert_eq!(e.error, "Access denied");
}

#[test]
fn status_lines_of_every_kind() {
    let cases = [
        (ErrorKind::InvalidArgument, 400, "400 Bad Request"),
        (ErrorKind::Unauthenticated, 401, "401 Unauthorized"),
        (ErrorKind::PermissionDenied, 403, "403 Forbidden"),
        (ErrorKind::NotFound, 404, "404 Not Found"),
        (ErrorKind::Conflict, 409, "409 Conflict"),
        (ErrorKind::StoreUnavailable, 503, "503 Service Unavailable"),
        (ErrorKind::Unsupported, 500, "500 Internal Server Error"),
        (ErrorKind::IdentityUnavailable, 500, "500 Internal Server Error"),
        (ErrorKind::Internal, 500, "500 Internal Server Error"),
    ];
    for (kind, code, line) in cases {
        assert_eq!(kind.http_code(), code);
        let e = ErrorResponse::new(kind, "m".to_string());
        assert_eq!(e.code, code);
        assert_eq!(e.status, line);
        assert_eq!(e.error, "m");
    }
    assert_eq!(status_line(418), "418 ");
}
