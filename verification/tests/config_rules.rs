use collector::config::{
    default_bind, default_heartbeat_interval_secs, default_ldap_page_size,
    default_ldap_sync_interval_secs, default_log_format, default_log_level,
    default_login_rate_limit, default_require_local_login, default_sqlite_path,
    default_static_dir, default_use_usn_changed, AdBindLoginConfig, AdConfig, AuthConfig,
    CollectorConfig, ConfigError, HttpConfig, IpAddress, LdapFlavor, LoggingConfig, ServerConfig,
    SocketAddress, StoreConfig,
};

fn sample_config() -> CollectorConfig {
    CollectorConfig {
        tenant_id: "tenant-1".into(),
        collector_id: "collector-1".into(),
        http: HttpConfig { bind: default_bind(), static_dir: default_static_dir() },
        auth: AuthConfig {
            jwt_secret: "jwt-secret".into(),
            require_local_login: default_require_local_login(),
            ad_bind_login: Some(AdBindLoginConfig {
                enabled: false,
                bind_dn: "cn=op".into(),
                password_ref: "OP_PW".into(),
            }),
            login_rate_limit_per_minute: default_login_rate_limit(),
        },
        ad: AdConfig {
            enabled: true,
            domain: "corp.local".into(),
            ldap_uris: vec!["ldaps://dc1.corp.local:636".into()],
            base_dn: "DC=corp,DC=local".into(),
            bind_dn: "CN=svc,DC=corp,DC=local".into(),
            bind_password_ref: "LDAP_BIND_PASSWORD".into(),
            sync_interval_secs: default_ldap_sync_interval_secs(),
            page_size: default_ldap_page_size(),
            use_usn_changed: default_use_usn_changed(),
            ldap_flavor: LdapFlavor::default(),
            allow_insecure_ldap: false,
        },
        server: ServerConfig {
            ingest_base_url: "https://server.example.com".into(),
            api_key_ref: "COLLECTOR_SERVER_API_KEY".into(),
            mtls_cert_path: None,
            mtls_key_path: Some("key.pem".into()),
            heartbeat_interval_secs: default_heartbeat_interval_secs(),
        },
        store: StoreConfig { sqlite_path: default_sqlite_path() },
        logging: LoggingConfig { level: default_log_level(), format: default_log_format() },
    }
}

fn validation_message(c: &CollectorConfig) -> Option<String> {
    match c.validate() {
        Ok(()) => None,
        Err(ConfigError::Validation(m)) => Some(m),
        Err(other) => panic!("unexpected error {other:?}"),
    }
}

#[test]
fn defaults_have_documented_values() {
    assert_eq!(default_sqlite_path(), "data/collector.db");
    assert_eq!(default_static_dir(), "web/static");
    assert!(default_require_local_login());
    assert_eq!(default_login_rate_limit(), 10);
    assert_eq!(default_ldap_sync_interval_secs(), 900);
    assert_eq!(default_ldap_page_size(), 1000);
    assert!(default_use_usn_changed());
    assert_eq!(default_heartbeat_interval_secs(), 60);
    assert_eq!(default_log_level(), "info");
    assert_eq!(default_log_format(), "text");
    assert_eq!(LdapFlavor::default(), LdapFlavor::Ad);
    let bind = default_bind();
    assert_eq!(bind.port(), 8080);
    assert!(bind.ip().is_loopback());
}

#[test]
fn valid_config_passes() {
    assert_eq!(validation_message(&sample_config()), None);
}

#[test]
fn blank_ids_are_refused() {
    let mut c = sample_config();
    c.tenant_id = " \t ".into();
    assert_eq!(validation_message(&c).as_deref(), Some("tenant_id must not be empty"));
    let mut c = sample_config();
    c.collector_id = String::new();
    assert_eq!(validation_message(&c).as_deref(), Some("collector_id must not be empty"));
    let mut c = sample_config();
    c.server.ingest_base_url = "   ".into();
    assert_eq!(
        validation_message(&c).as_deref(),
        Some("server.ingest_base_url must not be empty")
    );
}

#[test]
fn bind_must_be_loopback() {
    let mut c = sample_config();
    c.http.bind = SocketAddress::V4 { ip: [0, 0, 0, 0], port: 8080 };
    assert_eq!(
        validation_message(&c).as_deref(),
        Some("http.bind must be loopback (127.0.0.1) — admin UI must not be exposed on LAN in Phase 1")
    );
    c.http.bind = SocketAddress::V4 { ip: [127, 1, 2, 3], port: 9000 };
    assert_eq!(validation_message(&c), None);
    c.http.bind = SocketAddress::V6 { ip: [0, 0, 0, 0, 0, 0, 0, 1], port: 8080, flowinfo: 0, scope_id: 0 };
    assert_eq!(validation_message(&c), None);
    c.http.bind = SocketAddress::V6 { ip: [0, 0, 0, 0, 0, 0xffff, 0x7f00, 1], port: 8080, flowinfo: 0, scope_id: 0 };
    assert!(validation_message(&c).is_some());
    assert!(!IpAddress::V6([0, 0, 0, 0, 0, 0, 0, 0]).is_loopback());
}

#[test]
fn enabled_ad_needs_uris() {
    let mut c = sample_config();
    c.ad.ldap_uris.clear();
    assert_eq!(
        validation_message(&c).as_deref(),
        Some("ad.ldap_uris must not be empty when ad.enabled is true")
    );
    c.ad.enabled = false;
    assert_eq!(validation_message(&c), None);
}

#[test]
fn first_failing_rule_is_reported() {
    let mut c = sample_config();
    c.tenant_id = String::new();
    c.collector_id = String::new();
    assert_eq!(validation_message(&c).as_deref(), Some("tenant_id must not be empty"));
}

#[test]
fn redacted_hides_secrets_only() {
    let c = sample_config();
    let r = c.redacted();
    assert_eq!(r.auth.jwt_secret, "***");
    assert_eq!(r.ad.bind_password_ref, "***");
    assert_eq!(r.server.api_key_ref, "***");
    assert_eq!(r.tenant_id, c.tenant_id);
    assert_eq!(r.ad.ldap_uris, c.ad.ldap_uris);
    assert_eq!(r.ad.bind_dn, c.ad.bind_dn);
    assert_eq!(r.server.mtls_key_path, c.server.mtls_key_path);
    assert_eq!(r.auth.ad_bind_login.as_ref().unwrap().password_ref, "OP_PW");
    // redaction keeps validity and is idempotent
    assert_eq!(validation_message(&r), validation_message(&c));
    let rr = r.redacted();
    assert_eq!(rr.auth.jwt_secret, "***");
    assert_eq!(rr.ad.domain, c.ad.domain);
}
