use colabri_doc::admin::{health_check, ready_check};
use colabri_doc::client::{get_app_service_client, init_app_service_client, AppServiceClient};
use colabri_doc::config::{get_config, init_config, Config};
use colabri_doc::connctx::{get_conn_ctx_cache, init_conn_ctx_cache};
use colabri_doc::userctx::{get_user_ctx_cache, get_user_ctx_from_cache, init_user_ctx_cache};
use colabri_doc::sql::{escape_sql_string_literal, org_policy_statement};
use colabri_doc::text::{decimal_string, find_prefixed, starts_with, strip_prefix};

#[test]
fn default_config_values() {
    let c = Config::default();
    assert_eq!(c.host, "0.0.0.0");
    assert_eq!(c.port, 3000);
    assert_eq!(c.websocket_port(), 9001);
    assert_eq!(c.environment, "development");
    assert_eq!(c.log_level, "info");
    assert_eq!(c.cloud_service_name, "colabri-doc");
    assert_eq!(c.cloud_app_service_domain, "app.colabri.cloud");
    assert_eq!(
        c.cloud_cors_origins,
        "http://localhost:*,http://*.colabri-local.cloud,http://colabri-local.cloud,https://*.colabri.cloud,https://colabri.cloud"
    );
    assert!(c.cloud_auth_jwt_secret.is_none());
    assert!(c.db_url.is_none());
}

#[test]
fn server_address_is_host_colon_port() {
    let mut c = Config::default();
    assert_eq!(c.server_address(), "0.0.0.0:3000");
    c.host = "example.org".to_string();
    c.port = 65535;
    assert_eq!(c.server_address(), "example.org:65535");
    c.port = 0;
    assert_eq!(c.server_address(), "example.org:0");
}

#[test]
fn app_service_url_by_environment() {
    let mut c = Config::default();
    assert_eq!(c.app_service_url(), "http://localhost:8080");
    c.environment = "production".to_string();
    assert_eq!(c.app_service_url(), "http://app.colabri.cloud");
    c.cloud_app_service_domain = "id.example".to_string();
    assert_eq!(c.app_service_url(), "http://id.example");
}

#[test]
fn config_is_put_in_place_once() {
    let mut place: Option<Config> = None;
    assert_eq!(init_config(&mut place, Config::default()), Ok(()));
    let mut other = Config::default();
    other.port = 1;
    assert_eq!(init_config(&mut place, other), Err("Configuration already initialized"));
    assert_eq!(get_config(&place).port, 3000);
}

#[test]
fn app_service_client_is_put_in_place_once() {
    let mut place: Option<AppServiceClient> = None;
    let r = init_app_service_client(
        &mut place,
        "http://a".to_string(),
        "secret".to_string(),
        "colabri-doc".to_string(),
    );
    assert_eq!(r, Ok(()));
    let r = init_app_service_client(
        &mut place,
        "http://b".to_string(),
        "x".to_string(),
        "y".to_string(),
    );
    assert_eq!(r, Err("AppServiceClient already initialized"));
    let c = place.unwrap();
    assert_eq!(c.base_url, "http://a");
    assert_eq!(c.prpls_url("u1"), "http://a/auth/prpls/u1");
    assert_eq!(AppServiceClient::authorization("t"), "Bearer t");
    let claims = c.token_claims(1_000).unwrap();
    assert_eq!(claims.exp, 1_060);
    assert_eq!(claims.sub, "colabri-doc");
    assert_eq!(claims.type_, "service");
    assert!(c.token_claims(i64::MAX - 59).is_none());
    assert_eq!(c.token_claims(i64::MAX - 60).unwrap().exp, i64::MAX);
}

#[test]
fn sql_escape_doubles_backslash_and_quote() {
    assert_eq!(escape_sql_string_literal(""), "");
    assert_eq!(escape_sql_string_literal("plain"), "plain");
    assert_eq!(escape_sql_string_literal("a'b"), "a''b");
    assert_eq!(escape_sql_string_literal("a\\b"), "a\\\\b");
    assert_eq!(escape_sql_string_literal("\\'"), "\\\\''");
    assert_eq!(escape_sql_string_literal("é'ü"), "é''ü");
}

#[test]
fn org_policy_statement_quotes_the_org() {
    assert_eq!(org_policy_statement("o1"), "SET LOCAL app.orgs = 'o1'");
    assert_eq!(org_policy_statement("o'1"), "SET LOCAL app.orgs = 'o''1'");
}

#[test]
fn decimal_digits() {
    assert_eq!(decimal_string(0), "0");
    assert_eq!(decimal_string(9), "9");
    assert_eq!(decimal_string(10), "10");
    assert_eq!(decimal_string(65535), "65535");
    assert_eq!(decimal_string(u64::MAX), "18446744073709551615");
}

#[test]
fn prefixes() {
    assert!(starts_with("o1/u/a", "o1/u/"));
    assert!(starts_with("abc", ""));
    assert!(!starts_with("ab", "abc"));
    assert!(starts_with("éa", "é"));
    assert_eq!(strip_prefix("Bearer tok", "Bearer "), "tok");
    let items = vec!["x".to_string(), "o1/u/a".to_string(), "o1/u/b".to_string()];
    assert_eq!(find_prefixed(&items, "o1/u/"), Some(1));
    assert_eq!(find_prefixed(&items, "o2/u/"), None);
}

#[test]
fn singletons_are_made_once() {
    let mut conns = None;
    init_conn_ctx_cache(&mut conns);
    get_conn_ctx_cache(&conns).lookup(0).expect("the system connection");
    conns.as_mut().unwrap().insert(3, "u", "o");
    init_conn_ctx_cache(&mut conns);
    assert!(get_conn_ctx_cache(&conns).lookup(3).is_some());

    let mut users = None;
    init_user_ctx_cache(&mut users);
    assert!(get_user_ctx_from_cache(get_user_ctx_cache(&users), "u1").is_none());

    let mut client = None;
    assert!(get_app_service_client(&client).is_none());
    assert_eq!(
        init_app_service_client(&mut client, "http://a".into(), "k".into(), "svc".into()),
        Ok(())
    );
    assert_eq!(get_app_service_client(&client).unwrap().prpls_url("u1"), "http://a/auth/prpls/u1");
    assert_eq!(
        init_app_service_client(&mut client, "http://b".into(), "k".into(), "svc".into()),
        Err("AppServiceClient already initialized")
    );
    assert_eq!(get_app_service_client(&client).unwrap().base_url, "http://a");
}

#[test]
fn probes_answer_ok() {
    let h = health_check();
    assert_eq!((h.status.as_str(), h.message.as_str()), ("ok", "Server is running"));
    let r = ready_check();
    assert_eq!((r.status.as_str(), r.message.as_str()), ("ok", "Service is ready"));
}
