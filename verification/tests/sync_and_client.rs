use collector::ad::client::{warn_if_ldaps_mismatch, LdapClient, PageCounter};
use collector::ad::mapper::{LdapAttribute, LdapEntry};
use collector::ad::sync::{
    scheduler_step, sync_step, CursorUpdate, SchedulerAction, SchedulerEvent, SyncAction,
    SyncEvent, SyncReport, SyncState,
};
use collector::config::{
    default_bind, AdConfig, AuthConfig, CollectorConfig, HttpConfig, LdapFlavor, LoggingConfig,
    ServerConfig, StoreConfig,
};

fn ad(enabled: bool, use_usn_changed: bool) -> AdConfig {
    AdConfig {
        enabled,
        domain: "corp.local".into(),
        ldap_uris: vec!["ldap://127.0.0.1:1389".into(), "ldap://backup:389".into()],
        base_dn: "DC=corp,DC=local".into(),
        bind_dn: "cn=admin".into(),
        bind_password_ref: "LDAP_BIND_PASSWORD".into(),
        sync_interval_secs: 3600,
        page_size: 2,
        use_usn_changed,
        ldap_flavor: LdapFlavor::Ad,
        allow_insecure_ldap: true,
    }
}

fn config(ad: AdConfig) -> CollectorConfig {
    CollectorConfig {
        tenant_id: "t1".into(),
        collector_id: "c1".into(),
        http: HttpConfig { bind: default_bind(), static_dir: "web/static".into() },
        auth: AuthConfig {
            jwt_secret: "s".into(),
            require_local_login: true,
            ad_bind_login: None,
            login_rate_limit_per_minute: 10,
        },
        ad,
        server: ServerConfig {
            ingest_base_url: "https://x".into(),
            api_key_ref: "K".into(),
            mtls_cert_path: None,
            mtls_key_path: None,
            heartbeat_interval_secs: 60,
        },
        store: StoreConfig { sqlite_path: "data/collector.db".into() },
        logging: LoggingConfig { level: "info".into(), format: "text".into() },
    }
}

fn user(dn: &str, name: &str, usn: &str) -> LdapEntry {
    LdapEntry {
        dn: dn.into(),
        attrs: vec![
            LdapAttribute { name: "sAMAccountName".into(), values: vec![name.into()] },
            LdapAttribute { name: "uSNChanged".into(), values: vec![usn.into()] },
            LdapAttribute { name: "memberOf".into(), values: vec!["CN=Sales,OU=G".into()] },
        ],
    }
}

#[test]
fn insecure_ldap_warns() {
    let a = ad(true, true);
    assert_eq!(
        warn_if_ldaps_mismatch(&a),
        Some("ad.allow_insecure_ldap=true — for local OpenLDAP/dev only")
    );
    let mut b = ad(true, true);
    b.allow_insecure_ldap = false;
    assert_eq!(warn_if_ldaps_mismatch(&b), None);
}

#[test]
fn client_reports_samples() {
    let client = LdapClient::new(&config(ad(true, true)));
    assert_eq!(client.tenant_id(), "t1");
    assert_eq!(client.first_uri().as_deref(), Some("ldap://127.0.0.1:1389"));
    let entries = vec![
        user("CN=alice,DC=corp", "alice", "5"),
        LdapEntry { dn: "CN=nobody".into(), attrs: vec![] },
    ];
    let r = client.test_result("ldap://127.0.0.1:1389".into(), Ok(entries), 12);
    assert!(r.ok);
    assert_eq!(r.users_found, 1);
    assert_eq!(r.sample_users[0].username, "alice");
    assert_eq!(r.sample_users[0].sid, "CN=alice,DC=corp");
    assert_eq!(r.sample_users[0].groups, vec!["Sales"]);
    assert_eq!(r.bind_dn, "cn=admin");
    assert_eq!(r.duration_ms, 12);
    assert_eq!(r.message, None);
    let f = client.test_result("ldap://x".into(), Err("LDAP bind rejected".into()), 3);
    assert!(!f.ok);
    assert_eq!(f.users_found, 0);
    assert!(f.sample_users.is_empty());
    assert_eq!(f.message.as_deref(), Some("LDAP bind rejected"));
    let mut no_uri = ad(true, true);
    no_uri.ldap_uris.clear();
    assert_eq!(LdapClient::new(&config(no_uri)).first_uri(), None);
}

#[test]
fn page_counter_stops_after_max_pages() {
    let mut p = PageCounter::new(2, Some(2));
    assert!(!p.record_entry());
    assert!(!p.record_entry());
    assert_eq!(p.pages, 1);
    assert!(!p.record_entry());
    assert!(p.record_entry());
    assert_eq!(p.pages, 2);
    let mut all = PageCounter::new(1, None);
    for _ in 0..10 {
        assert!(!all.record_entry());
    }
    assert_eq!(all.pages, 10);
}

fn finish(action: SyncAction) -> SyncReport {
    match action {
        SyncAction::Finish(r) => r,
        other => panic!("expected finish, got {other:?}"),
    }
}

#[test]
fn disabled_sync_reports_at_once() {
    let a = ad(false, true);
    let (s, act) = sync_step(&a, "t1", SyncState::Start, SyncEvent::Begin);
    assert!(matches!(s, SyncState::Done));
    let r = finish(act);
    assert!(!r.ok);
    assert_eq!(r.users_synced, 0);
    assert!(!r.incremental);
    assert_eq!(r.message.as_deref(), Some("ad.enabled is false"));
}

#[test]
fn incremental_sync_run() {
    let a = ad(true, true);
    let (s, act) = sync_step(&a, "t1", SyncState::Start, SyncEvent::Begin);
    match act {
        SyncAction::LoadCursor { domain } => assert_eq!(domain, "corp.local"),
        other => panic!("{other:?}"),
    }
    let (s, act) = sync_step(&a, "t1", s, SyncEvent::CursorLoaded(Some("500100".into())));
    match act {
        SyncAction::Search { cursor } => assert_eq!(cursor.as_deref(), Some("500100")),
        other => panic!("{other:?}"),
    }
    let entries = vec![
        user("CN=alice,DC=corp", "alice", "500100"),
        user("CN=bob,DC=corp", "bob", "500110"),
        LdapEntry { dn: "CN=skip".into(), attrs: vec![] },
        user("CN=carol,DC=corp", "carol", "500105"),
    ];
    let (s, act) = sync_step(&a, "t1", s, SyncEvent::EntriesLoaded(entries));
    match act {
        SyncAction::Persist { users, skipped, cursor } => {
            assert_eq!(skipped, vec!["CN=skip"]);
            let names: Vec<&str> = users.iter().map(|u| u.username.as_str()).collect();
            assert_eq!(names, vec!["alice", "bob", "carol"]);
            assert_eq!(users[0].domain, "corp.local");
            assert_eq!(users[0].dn.as_deref(), Some("CN=alice,DC=corp"));
            assert_eq!(users[0].groups, vec!["Sales"]);
            match cursor {
                CursorUpdate::Store { domain, usn } => {
                    assert_eq!(domain, "corp.local");
                    assert_eq!(usn, "500110");
                }
                other => panic!("{other:?}"),
            }
        }
        other => panic!("{other:?}"),
    }
    let (s, act) = sync_step(&a, "t1", s, SyncEvent::Persisted);
    assert!(matches!(s, SyncState::Done));
    let r = finish(act);
    assert!(r.ok);
    assert_eq!(r.users_synced, 3);
    assert!(r.incremental);
    assert_eq!(r.new_cursor.as_deref(), Some("500110"));
    assert_eq!(r.message, None);
}

#[test]
fn full_sync_without_cursor_touches() {
    let a = ad(true, false);
    let (s, act) = sync_step(&a, "t1", SyncState::Start, SyncEvent::Begin);
    match act {
        SyncAction::Search { cursor } => assert_eq!(cursor, None),
        other => panic!("{other:?}"),
    }
    let (s, act) = sync_step(&a, "t1", s, SyncEvent::EntriesLoaded(vec![]));
    match act {
        SyncAction::Persist { users, skipped, cursor } => {
            assert!(users.is_empty());
            assert!(skipped.is_empty());
            assert!(matches!(cursor, CursorUpdate::Touch { .. }));
        }
        other => panic!("{other:?}"),
    }
    let (_, act) = sync_step(&a, "t1", s, SyncEvent::Persisted);
    let r = finish(act);
    assert!(r.ok);
    assert!(!r.incremental);
    assert_eq!(r.new_cursor, None);
    // an event that does not fit the state changes nothing
    let (s, act) = sync_step(&a, "t1", SyncState::Start, SyncEvent::Persisted);
    assert!(matches!(s, SyncState::Start));
    assert!(matches!(act, SyncAction::Unexpected));
}

#[test]
fn connection_test_shows_at_most_five_samples() {
    let client = LdapClient::new(&config(ad(true, true)));
    let entries: Vec<LdapEntry> = (0..8)
        .map(|i| user(&format!("CN=u{i},DC=corp"), &format!("u{i}"), "1"))
        .collect();
    let r = client.test_result("ldap://x".into(), Ok(entries), 1);
    assert!(r.ok);
    assert_eq!(r.users_found, 5);
    let names: Vec<&str> = r.sample_users.iter().map(|s| s.username.as_str()).collect();
    assert_eq!(names, vec!["u0", "u1", "u2", "u3", "u4"]);
}

#[test]
fn scheduler_decisions() {
    let a = ad(true, true);
    assert_eq!(scheduler_step(&a, SchedulerEvent::Start), SchedulerAction::Arm { period_secs: 3600 });
    assert_eq!(scheduler_step(&a, SchedulerEvent::Tick), SchedulerAction::RunSync);
    assert_eq!(scheduler_step(&a, SchedulerEvent::ManualTrigger), SchedulerAction::RunSync);
    let d = ad(false, true);
    assert_eq!(scheduler_step(&d, SchedulerEvent::Start), SchedulerAction::Stop);
}
