use collector::ad::client::LdapTestResult;
use collector::ad::sync::SyncReport;
use collector::config::LoggingConfig;
use collector::http::{
    default_limit, is_auth_exempt, is_login_path, is_protected_api, sync_ad_status,
    test_ad_status, CatalogUsersQuery, MiddlewareChainDoc,
};
use collector::logging::{default_filter_directive, uses_json_format};
use collector::service::{config_path_from_args, install_service, uninstall_service, ServiceError};
use collector::store::{groups_from_json, groups_to_json, like_prefix_pattern, CatalogUserRow};

#[test]
fn catalog_query_limits() {
    assert_eq!(default_limit(), 50);
    let q = |limit| CatalogUsersQuery { q: None, limit, offset: 0 };
    assert_eq!(q(10).page_limit(), 10);
    assert_eq!(q(500).page_limit(), 500);
    assert_eq!(q(100000).page_limit(), 500);
}

#[test]
fn auth_paths() {
    assert!(is_auth_exempt("/api/v1/auth/login"));
    assert!(is_auth_exempt("/healthz"));
    assert!(!is_auth_exempt("/healthz/x"));
    assert!(is_protected_api("/api/v1/status"));
    assert!(!is_protected_api("/api/v1/auth/logout"));
    assert!(!is_protected_api("/login"));
    assert!(is_login_path("/api/v1/auth/login"));
    assert!(!is_login_path("/api/v1/auth/logout"));
    assert!(MiddlewareChainDoc::CHAIN.contains("ConcurrencyLimitLayer"));
}

#[test]
fn ad_endpoint_statuses() {
    let mut t = LdapTestResult {
        ok: true,
        uri: "u".into(),
        bind_dn: "b".into(),
        domain: "d".into(),
        users_found: 0,
        sample_users: vec![],
        duration_ms: 0,
        message: None,
    };
    assert_eq!(test_ad_status(true, Some(&t)), 200);
    assert_eq!(test_ad_status(false, Some(&t)), 400);
    t.ok = false;
    assert_eq!(test_ad_status(true, Some(&t)), 502);
    assert_eq!(test_ad_status(true, None), 500);
    assert_eq!(test_ad_status(false, None), 400);
    let mut r = SyncReport { ok: true, users_synced: 1, incremental: false, new_cursor: None, message: None };
    assert_eq!(sync_ad_status(Some(&r)), 200);
    r.ok = false;
    assert_eq!(sync_ad_status(Some(&r)), 400);
    assert_eq!(sync_ad_status(None), 500);
}

#[test]
fn log_settings() {
    let l = LoggingConfig { level: "debug".into(), format: "json".into() };
    assert_eq!(default_filter_directive(&l), "collector=debug,common=debug,server=debug");
    assert!(uses_json_format(&l));
    let t = LoggingConfig { level: "info".into(), format: "text".into() };
    assert!(!uses_json_format(&t));
}

#[test]
fn service_requests_off_windows() {
    match install_service("configs/collector.yaml") {
        Err(ServiceError::Unsupported(m)) => {
            assert_eq!(m, "service install is only supported on Windows")
        }
        Ok(()) => panic!("install must fail"),
    }
    match uninstall_service() {
        Err(ServiceError::Unsupported(m)) => {
            assert_eq!(m, "service uninstall is only supported on Windows")
        }
        Ok(()) => panic!("uninstall must fail"),
    }
}

#[test]
fn config_path_arguments() {
    let args = |v: &[&str]| v.iter().map(|s| s.to_string()).collect::<Vec<String>>();
    assert_eq!(config_path_from_args(&args(&["service", "--config", "C:\\c.yaml"])), "C:\\c.yaml");
    assert_eq!(config_path_from_args(&args(&["-c", "a.yaml", "--config", "b.yaml"])), "a.yaml");
    assert_eq!(config_path_from_args(&args(&["service", "--config"])), "configs/collector.yaml");
    assert_eq!(config_path_from_args(&args(&[])), "configs/collector.yaml");
}

#[test]
fn groups_json_column() {
    let groups = vec!["Engineering".to_string(), "VPN \"Users\"".to_string()];
    let json = groups_to_json(&groups);
    assert_eq!(json, "[\"Engineering\",\"VPN \\\"Users\\\"\"]");
    assert_eq!(groups_from_json(&json), groups);
    assert_eq!(groups_from_json("[]"), Vec::<String>::new());
    assert_eq!(groups_from_json("not json"), Vec::<String>::new());
    assert_eq!(groups_to_json(&vec![]), "[]");
}

#[test]
fn catalog_rows_and_patterns() {
    assert_eq!(like_prefix_pattern("al"), "al%");
    assert_eq!(like_prefix_pattern(""), "%");
    let row = CatalogUserRow::from_columns(
        "alice".into(),
        "S-1".into(),
        None,
        Some("CN=alice".into()),
        "[\"Sales\"]",
        "2026-08-07T10:00:00Z".into(),
    );
    assert_eq!(row.groups, vec!["Sales"]);
    assert_eq!(row.username, "alice");
    assert_eq!(row.dn.as_deref(), Some("CN=alice"));
}
