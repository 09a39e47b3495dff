use colabri_doc::connctx::{ConnCtx, ConnRegistry, SYSTEM_CONN};
use colabri_doc::error::ErrorKind;
use colabri_doc::json::{string_items, string_list};
use colabri_doc::models::messages::{
    delivers_to, handle_load_message, handle_ping_message, handle_update_message, LoadMessage,
    PingMessage, SendMessage, UpdateMessage,
};
use colabri_doc::session::{
    admit_user, auth_middleware, authorize_room, caller_of, get_user_prpls, on_auth_handshake,
    on_authenticate, request_principals,
    room_permission, sender_identity, service_principals, token_identity, Caller, Permission,
};
use colabri_doc::store::{ColabDocument, DocumentAclRow};
use colabri_doc::token::{find_cookie, get_auth_token, read_claims, validate_jwt, Claims};
use colabri_doc::userctx::{
    get_user_ctx_from_cache, parse_principals_from_json, Identity, UserCtx, UserCtxCache,
};

fn strs(items: &[&str]) -> Vec<String> {
    items.iter().map(|s| s.to_string()).collect()
}

fn user(principals: &[&str], roles: &[&str]) -> UserCtx {
    UserCtx { principals: strs(principals), token_roles: strs(roles) }
}

fn token(secret: &str, claims: &[(&str, serde_json::Value)], valid_for: i64) -> String {
    let now = std::time::SystemTime::now()
        .duration_since(std::time::UNIX_EPOCH)
        .unwrap()
        .as_secs() as i64;
    let mut m = serde_json::Map::new();
    m.insert("exp".to_string(), serde_json::Value::from(now + valid_for));
    for (k, v) in claims {
        m.insert(k.to_string(), v.clone());
    }
    jsonwebtoken::encode(
        &jsonwebtoken::Header::default(),
        &serde_json::Value::Object(m),
        &jsonwebtoken::EncodingKey::from_secret(secret.as_bytes()),
    )
    .unwrap()
}

fn v(s: &str) -> serde_json::Value {
    serde_json::Value::String(s.to_string())
}

#[test]
fn token_from_the_authorization_header() {
    assert_eq!(get_auth_token(Some("Bearer abc"), None), Ok("abc".to_string()));
    assert_eq!(get_auth_token(Some("abc"), Some("auth_token=x")), Ok("abc".to_string()));
    assert_eq!(get_auth_token(Some("bearer abc"), None), Ok("bearer abc".to_string()));
    assert_eq!(get_auth_token(Some("Bearer "), None), Ok("".to_string()));
}

#[test]
fn token_from_the_cookie() {
    assert_eq!(
        get_auth_token(None, Some("a=1; auth_token=tok; auth_token=other")),
        Ok("tok".to_string())
    );
    assert_eq!(get_auth_token(None, Some("auth_token=t%20k")), Ok("t%20k".to_string()));
    assert_eq!(
        get_auth_token(None, Some("a=1; novalue; b=2")),
        Err("auth_token cookie not found".to_string())
    );
    assert_eq!(
        get_auth_token(None, None),
        Err("Missing Authorization header or Cookie".to_string())
    );
    let parsed = vec![None, Some(("a".to_string(), "1".to_string()))];
    assert_eq!(find_cookie(&parsed, "a"), Some("1".to_string()));
    assert_eq!(find_cookie(&parsed, "b"), None);
}

#[test]
fn claims_are_read_from_json() {
    let c = read_claims("{\"sub\":\"u1\",\"type\":\"user\",\"roles\":[\"A\",7,\"B\"]}");
    assert_eq!(c.sub, Some("u1".to_string()));
    assert_eq!(c.type_, Some("user".to_string()));
    assert_eq!(c.roles, strs(&["A", "B"]));
    let c = read_claims("{\"sub\":5,\"roles\":\"x\"}");
    assert_eq!(c.sub, None);
    assert_eq!(c.type_, None);
    assert!(c.roles.is_empty());
    let c = read_claims("not json");
    assert!(c.sub.is_none() && c.roles.is_empty());
}

#[test]
fn json_lists_of_strings() {
    assert_eq!(string_list("[\"a\",\"b\"]"), Some(strs(&["a", "b"])));
    assert_eq!(string_list("[]"), Some(vec![]));
    assert_eq!(string_list("[\"a\",1]"), None);
    assert_eq!(string_list("{}"), None);
    assert_eq!(string_items("[\"a\",1,\"b\\n\"]"), strs(&["a", "b\n"]));
    assert!(string_items("3").is_empty());
}

#[test]
fn tokens_are_verified_with_the_secret() {
    let t = token("secret", &[("sub", v("u1")), ("type", v("user"))], 600);
    let c = validate_jwt(&t, "secret").unwrap();
    assert_eq!(c.sub, Some("u1".to_string()));
    assert_eq!(c.type_, Some("user".to_string()));
    assert!(validate_jwt(&t, "other").is_err());
    assert!(validate_jwt("a.b.c", "secret").is_err());
    let old = token("secret", &[("sub", v("u1"))], -600);
    assert!(validate_jwt(&old, "secret").is_err());
}

#[test]
fn who_a_token_speaks_for() {
    let claims = |sub: Option<&str>, t: Option<&str>| Claims {
        sub: sub.map(|s| s.to_string()),
        type_: t.map(|s| s.to_string()),
        roles: strs(&["R"]),
    };
    match caller_of(claims(Some("u1"), Some("user"))).unwrap() {
        Caller::User { uid, roles } => {
            assert_eq!(uid, "u1");
            assert_eq!(roles, strs(&["R"]));
        },
        _ => panic!("no user"),
    }
    match caller_of(claims(Some("colabri-app"), Some("service"))).unwrap() {
        Caller::Service { name } => assert_eq!(name, "colabri-app"),
        _ => panic!("no service"),
    }
    assert_eq!(caller_of(claims(None, Some("user"))).err(), Some(ErrorKind::Unauthenticated));
    assert_eq!(caller_of(claims(Some("u1"), None)).err(), Some(ErrorKind::Unauthenticated));
    assert_eq!(
        caller_of(claims(Some("u1"), Some("robot"))).err(),
        Some(ErrorKind::Unauthenticated)
    );
}

#[test]
fn identity_of_a_request() {
    let t = token("secret", &[("sub", v("colabri-app")), ("type", v("service"))], 600);
    let bearer = format!("Bearer {t}");
    match token_identity(Some(&bearer), None, Some("secret")).unwrap() {
        Caller::Service { name } => {
            assert_eq!(service_principals(&name), strs(&["s/colabri-app"]));
        },
        _ => panic!("no service"),
    }
    let cookie = format!("x=1; auth_token={t}");
    assert!(token_identity(None, Some(&cookie), Some("secret")).is_ok());
    assert_eq!(
        token_identity(Some(&bearer), None, None).err(),
        Some(ErrorKind::Unauthenticated)
    );
    assert_eq!(
        token_identity(Some(&bearer), None, Some("wrong")).err(),
        Some(ErrorKind::Unauthenticated)
    );
    assert_eq!(token_identity(None, None, Some("secret")).err(), Some(ErrorKind::Unauthenticated));
}

#[test]
fn principals_of_a_user() {
    let u = user(&["x", "o1/u/a", "o1/u/b", "o2/u/c"], &["Admin", "Colabri-CloudAdmin"]);
    assert_eq!(u.get_user_principal("o1"), Some("o1/u/a".to_string()));
    assert_eq!(u.get_user_principal("o2"), Some("o2/u/c".to_string()));
    assert_eq!(u.get_user_principal("o"), None);
    assert_eq!(
        u.get_all_prpls(),
        strs(&["x", "o1/u/a", "o1/u/b", "o2/u/c", "r/Admin", "r/Colabri-CloudAdmin"])
    );
    assert_eq!(
        get_user_prpls("u1", Ok(&u)),
        Ok(("u1".to_string(), u.get_all_prpls()))
    );
    assert_eq!(
        get_user_prpls("u1", Err("down")),
        Err("Failed to load user context for u1: down".to_string())
    );
}

#[test]
fn principals_in_an_answer() {
    assert_eq!(parse_principals_from_json("[\"a\",\"b\"]"), strs(&["a", "b"]));
    assert_eq!(parse_principals_from_json("{\"prpls\":[\"a\"]}"), strs(&["a"]));
    assert_eq!(parse_principals_from_json("{\"prpls\":[\"a\",1]}"), Vec::<String>::new());
    assert_eq!(parse_principals_from_json("{\"other\":[\"a\"]}"), Vec::<String>::new());
    assert_eq!(parse_principals_from_json("{\"prpls\":null}"), Vec::<String>::new());
    assert_eq!(parse_principals_from_json("nonsense"), Vec::<String>::new());
}

#[test]
fn identity_cache_steps() {
    let mut cache = UserCtxCache::new();
    assert!(matches!(cache.begin("u1", false), Identity::MustFetch));
    assert_eq!(
        cache.finish("u1", strs(&["R"]), Err("timeout")).err(),
        Some(ErrorKind::IdentityUnavailable)
    );
    // a failure stores nothing
    assert!(get_user_ctx_from_cache(&cache, "u1").is_none());
    let ctx = cache.finish("u1", strs(&["R"]), Ok("{\"prpls\":[\"o1/u/a\"]}")).unwrap();
    assert_eq!(ctx.principals, strs(&["o1/u/a"]));
    assert_eq!(ctx.token_roles, strs(&["R"]));
    match cache.begin("u1", false) {
        Identity::Known(c) => assert_eq!(c.principals, strs(&["o1/u/a"])),
        Identity::MustFetch => panic!("the user was not stored"),
    }
    assert!(matches!(cache.begin("u1", true), Identity::MustFetch));
    assert!(matches!(cache.begin("u2", false), Identity::MustFetch));
}

#[test]
fn handshake_admits_members_and_cloud_admins() {
    assert!(admit_user(&user(&["o1/u/a"], &[]), "o1"));
    assert!(!admit_user(&user(&["o1/u/a"], &[]), "o2"));
    assert!(admit_user(&user(&[], &["Colabri-CloudAdmin"]), "o2"));
    assert!(admit_user(&user(&["r/Colabri-CloudAdmin"], &[]), "o2"));
    assert!(!admit_user(&user(&["o1/f/admin", "s/x"], &["Admin"]), "o1"));
    assert!(!admit_user(&user(&[], &[]), "o1"));
}

#[test]
fn connection_registry() {
    let mut reg = ConnRegistry::new();
    assert!(reg.lookup(5).is_none());
    reg.insert(5, "u1", "o1");
    let c = reg.lookup(5).unwrap();
    assert_eq!((c.conn_id, c.uid.as_str(), c.org_id.as_str()), (5, "u1", "o1"));
    reg.invalidate(5);
    assert!(reg.lookup(5).is_none());
    // the system connection is always known and never stored
    assert_eq!(SYSTEM_CONN, 0);
    reg.insert(0, "u9", "o9");
    let sys = reg.lookup(0).unwrap();
    assert_eq!(sys.uid, "s/colabri-system");
    assert_eq!(sys.org_id, "");
    reg.invalidate(0);
    assert!(reg.lookup(0).is_some());
}

#[test]
fn joining_a_room() {
    let conn = ConnCtx { conn_id: 5, uid: "u1".to_string(), org_id: "o1".to_string() };
    let u = user(&["o1/u/a"], &["R"]);
    let q = authorize_room(Some(&conn), Some(&u), "00000000-0000-0000-0000-000000000010").unwrap();
    assert_eq!(q.org, "o1");
    assert_eq!(q.doc_id, 16);
    assert_eq!(q.principals, strs(&["o1/u/a"]));
    assert_eq!(
        authorize_room(None, Some(&u), "x").unwrap_err(),
        "No connection context found"
    );
    assert_eq!(authorize_room(Some(&conn), None, "x").unwrap_err(), "No user context found");
    assert_eq!(authorize_room(Some(&conn), Some(&u), "x").unwrap_err(), "Invalid document UUID");
    assert_eq!(room_permission(true), Some(Permission::Write));
    assert_eq!(room_permission(false), None);
}

#[test]
fn identity_of_a_sender() {
    let u = user(&["o2/u/z", "o1/u/a"], &["R"]);
    let (prpls, by) = sender_identity(5, Some(&u), "o1");
    assert_eq!(prpls, Some(strs(&["o2/u/z", "o1/u/a", "r/R"])));
    assert_eq!(by, Some("o1/u/a".to_string()));
    // no principal in the organisation: nothing to bind a peer to
    let (prpls, by) = sender_identity(5, Some(&u), "o3");
    assert!(prpls.is_some());
    assert_eq!(by, None);
    assert_eq!(sender_identity(5, None, "o1"), (None, None));
    let (prpls, by) = sender_identity(0, None, "o1");
    assert_eq!(prpls, Some(strs(&["s/colabri-system"])));
    assert_eq!(by, Some("s/colabri-system".to_string()));
}

#[test]
fn session_messages() {
    let load = LoadMessage { user: "u".to_string(), peer: "p".to_string() };
    match handle_load_message(&load, "d1", vec![1, 2]) {
        SendMessage::Init(m) => {
            assert_eq!(m.colab_doc.id, "d1");
            assert_eq!(m.colab_doc.name, "d1");
            assert_eq!(m.colab_doc.loro_doc, vec![1, 2]);
        },
        _ => panic!("no init"),
    }
    let ping = PingMessage { user: "u".to_string(), peer: "p".to_string() };
    match handle_ping_message(&ping, "2024-01-01T00:00:00Z".to_string()) {
        SendMessage::Pong(m) => assert_eq!(m.date, "2024-01-01T00:00:00Z"),
        _ => panic!("no pong"),
    }
    let update = UpdateMessage { delta: vec![9], user: "u".to_string(), peer: "p".to_string() };
    let b = handle_update_message(update, "c1");
    assert_eq!(b.update.delta, vec![9]);
    assert!(!delivers_to(&b, "c1"));
    assert!(delivers_to(&b, "c2"));
}

#[test]
fn handshake_records_whom_it_admits() {
    let mut conns = ConnRegistry::new();
    let alice = Caller::User { uid: "alice".to_string(), roles: vec![] };
    let member = user(&["o1/u/alice"], &[]);
    let ctx = on_auth_handshake(&mut conns, 7, "o1", &alice, Some(&member)).expect("admitted");
    assert_eq!((ctx.conn_id, ctx.uid.as_str(), ctx.org_id.as_str()), (7, "alice", "o1"));
    let known = conns.lookup(7).expect("recorded");
    assert_eq!((known.uid.as_str(), known.org_id.as_str()), ("alice", "o1"));

    // a user of another organisation, and a user whose principals could not be had
    assert!(on_auth_handshake(&mut conns, 8, "o2", &alice, Some(&member)).is_none());
    assert!(conns.lookup(8).is_none());
    assert!(on_auth_handshake(&mut conns, 9, "o1", &alice, None).is_none());
    assert!(conns.lookup(9).is_none());

    // the cloud admin by role, in any organisation
    let admin = user(&[], &["Colabri-CloudAdmin"]);
    assert!(on_auth_handshake(&mut conns, 10, "o2", &alice, Some(&admin)).is_some());

    // a service needs no principals
    let app = Caller::Service { name: "colabri-app".to_string() };
    let ctx = on_auth_handshake(&mut conns, 11, "o1", &app, None).expect("admitted");
    assert_eq!(ctx.uid, "colabri-app");
    assert_eq!(conns.lookup(11).map(|c| c.uid), Some("colabri-app".to_string()));
}

#[test]
fn permission_in_a_room() {
    const DOC: &str = "a1a2a3a4-b1b2-c1c2-d1d2-d3d4d5d6d7d8";
    let id: u128 = 0xa1a2a3a4_b1b2_c1c2_d1d2_d3d4d5d6d7d8;
    let conn = ConnCtx { conn_id: 7, uid: "alice".to_string(), org_id: "o1".to_string() };
    let doc = |id: u128| ColabDocument {
        id,
        name: "n".to_string(),
        doc_type: "colab-statement".to_string(),
        owner: "o1/u/owner".to_string(),
        json: None,
        acls: vec![DocumentAclRow {
            org: "o1".to_string(),
            id: 1,
            document: id,
            prpl: "o1/u/alice".to_string(),
            permission: "view".to_string(),
        }],
        streams: vec![],
    };
    let alice = user(&["o1/u/alice"], &[]);
    let bob = user(&["o1/u/bob"], &[]);
    let owner = user(&["o1/u/owner"], &[]);
    let org_admin = user(&["o1/f/admin"], &[]);
    let it = doc(id);
    let ask = |u: &UserCtx| on_authenticate(Some(&conn), Some(u), DOC, Ok(Some(&it)));
    assert_eq!(ask(&alice), Ok(Some(Permission::Write)));
    assert_eq!(ask(&owner), Ok(Some(Permission::Write)));
    assert_eq!(ask(&org_admin), Ok(Some(Permission::Write)));
    assert_eq!(ask(&bob), Ok(None));

    // the store has no such document, or gave another one
    assert_eq!(on_authenticate(Some(&conn), Some(&alice), DOC, Ok(None)), Ok(None));
    let other = doc(1);
    assert_eq!(on_authenticate(Some(&conn), Some(&alice), DOC, Ok(Some(&other))), Ok(None));

    // no answer
    assert_eq!(
        on_authenticate(None, Some(&alice), DOC, Ok(Some(&it))),
        Err("No connection context found".to_string())
    );
    assert_eq!(
        on_authenticate(Some(&conn), None, DOC, Ok(Some(&it))),
        Err("No user context found".to_string())
    );
    assert_eq!(
        on_authenticate(Some(&conn), Some(&alice), "d1", Ok(Some(&it))),
        Err("Invalid document UUID".to_string())
    );
    assert_eq!(
        on_authenticate(Some(&conn), Some(&alice), DOC, Err("pool timed out")),
        Err("Database error: pool timed out".to_string())
    );
}

#[test]
fn requests_are_turned_away_before_their_handler() {
    let good = token("k", &[("sub", v("u1")), ("type", v("user"))], 600);
    let bearer = format!("Bearer {good}");
    assert!(matches!(
        auth_middleware(Some(&bearer), None, Some("k")),
        Ok(Caller::User { uid, .. }) if uid == "u1"
    ));
    // no token at all, with or without a secret
    assert_eq!(auth_middleware(None, None, Some("k")).unwrap_err(), ErrorKind::Unauthenticated);
    assert_eq!(auth_middleware(None, None, None).unwrap_err(), ErrorKind::Unauthenticated);
    // a token, and no secret to verify it with
    assert_eq!(auth_middleware(Some(&bearer), None, None).unwrap_err(), ErrorKind::Internal);
    assert_eq!(ErrorKind::Internal.http_code(), 500);
    // a token that does not verify
    assert_eq!(
        auth_middleware(Some(&bearer), None, Some("other")).unwrap_err(),
        ErrorKind::Unauthenticated
    );
    assert_eq!(ErrorKind::Unauthenticated.http_code(), 401);
}

#[test]
fn request_principals_name_each_role_once() {
    let alice = Caller::User { uid: "alice".to_string(), roles: strs(&["Admin", "Editor", "Admin"]) };
    let ctx = user(&["o1/u/alice", "r/Editor"], &[]);
    assert_eq!(
        request_principals(&alice, Ok(&ctx)),
        Ok(strs(&["o1/u/alice", "r/Editor", "r/Admin"]))
    );
    let plain = Caller::User { uid: "bob".to_string(), roles: vec![] };
    assert_eq!(request_principals(&plain, Ok(&ctx)), Ok(strs(&["o1/u/alice", "r/Editor"])));
    assert_eq!(
        request_principals(&alice, Err("down")),
        Err("Failed to load user context for alice: down".to_string())
    );
    let app = Caller::Service { name: "colabri-app".to_string() };
    assert_eq!(request_principals(&app, Err("no user")), Ok(strs(&["s/colabri-app"])));
    assert_eq!(request_principals(&app, Ok(&ctx)), Ok(strs(&["s/colabri-app"])));
}
