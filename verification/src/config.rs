//! Collector configuration: the data model of the YAML file, its defaults,
//! its validation rules and the redacted view served to the admin UI.

use vstd::prelude::*;

use crate::text::{is_blank, owned, trim};

verus! {

/// `std::io::Error`, carried in [`ConfigError::Io`].
#[verifier::external_type_specification]
#[verifier::external_body]
pub struct ExIoError(std::io::Error);

/// `serde_yaml::Error`, carried in [`ConfigError::Parse`].
#[verifier::external_type_specification]
#[verifier::external_body]
pub struct ExYamlError(serde_yaml::Error);

/// An IP address as `std::net::IpAddr` holds it.
#[derive(Clone, Copy, Debug)]
pub enum IpAddress {
    V4([u8; 4]),
    V6([u16; 8]),
}

/// A socket address as `std::net::SocketAddr` holds it.
#[derive(Clone, Copy, Debug)]
#[allow(inconsistent_fields)]
pub enum SocketAddress {
    V4 { ip: [u8; 4], port: u16 },
    V6 { ip: [u16; 8], port: u16, flowinfo: u32, scope_id: u32 },
}

/// `Ipv4Addr::is_loopback` (127.0.0.0/8) and `Ipv6Addr::is_loopback` (`::1`).
pub open spec fn ip_is_loopback(ip: IpAddress) -> bool {
    match ip {
        IpAddress::V4(o) => o[0] == 127,
        IpAddress::V6(s) => s[0] == 0 && s[1] == 0 && s[2] == 0 && s[3] == 0 && s[4] == 0 && s[5]
            == 0 && s[6] == 0 && s[7] == 1,
    }
}

impl SocketAddress {
    pub open spec fn spec_ip(self) -> IpAddress {
        match self {
            SocketAddress::V4 { ip, .. } => IpAddress::V4(ip),
            SocketAddress::V6 { ip, .. } => IpAddress::V6(ip),
        }
    }

    pub open spec fn spec_port(self) -> u16 {
        match self {
            SocketAddress::V4 { port, .. } => port,
            SocketAddress::V6 { port, .. } => port,
        }
    }

    /// The IP part of the address.
    pub fn ip(&self) -> (r: IpAddress)
        ensures
            r == self.spec_ip(),
    {
        match self {
            SocketAddress::V4 { ip, .. } => IpAddress::V4(*ip),
            SocketAddress::V6 { ip, .. } => IpAddress::V6(*ip),
        }
    }

    /// The port.
    pub fn port(&self) -> (r: u16)
        ensures
            r == self.spec_port(),
    {
        match self {
            SocketAddress::V4 { port, .. } => *port,
            SocketAddress::V6 { port, .. } => *port,
        }
    }
}

impl IpAddress {
    /// Whether the address is a loopback address.
    pub fn is_loopback(&self) -> (r: bool)
        ensures
            r == ip_is_loopback(*self),
    {
        match self {
            IpAddress::V4(o) => o[0] == 127,
            IpAddress::V6(s) => s[0] == 0 && s[1] == 0 && s[2] == 0 && s[3] == 0 && s[4] == 0
                && s[5] == 0 && s[6] == 0 && s[7] == 1,
        }
    }
}

/// Top-level Collector configuration file.
#[derive(Debug)]
pub struct CollectorConfig {
    pub tenant_id: String,
    pub collector_id: String,
    pub http: HttpConfig,
    pub auth: AuthConfig,
    pub ad: AdConfig,
    pub server: ServerConfig,
    pub store: StoreConfig,
    pub logging: LoggingConfig,
}

/// Local admin listener.
#[derive(Debug)]
pub struct HttpConfig {
    /// Local admin bind address (HTML pages and `/api/v1/*`, localhost only).
    pub bind: SocketAddress,
    /// Static asset root for `/static/*`.
    pub static_dir: String,
}

/// Operator authentication.
#[derive(Debug)]
pub struct AuthConfig {
    /// HS256 secret for admin JWTs.
    pub jwt_secret: String,
    /// Require login for the local web UI.
    pub require_local_login: bool,
    /// Optional AD LDAP bind for operator login.
    pub ad_bind_login: Option<AdBindLoginConfig>,
    /// Login rate limit: max attempts per minute per source IP.
    pub login_rate_limit_per_minute: u32,
}

/// AD bind used for operator login.
#[derive(Debug)]
pub struct AdBindLoginConfig {
    pub enabled: bool,
    pub bind_dn: String,
    /// Reference to a credential store entry or env var name.
    pub password_ref: String,
}

/// Which directory server the collector talks to.
#[derive(Debug, Clone, Copy, PartialEq, Eq, Structural)]
pub enum LdapFlavor {
    Ad,
    Openldap,
}

impl Default for LdapFlavor {
    fn default() -> (r: LdapFlavor)
        ensures
            r == LdapFlavor::Ad,
    {
        LdapFlavor::Ad
    }
}

/// Active Directory / LDAP source.
#[derive(Debug)]
pub struct AdConfig {
    pub enabled: bool,
    pub domain: String,
    /// LDAP/LDAPS URIs, e.g. `ldaps://dc1.corp.local:636`.
    pub ldap_uris: Vec<String>,
    pub base_dn: String,
    pub bind_dn: String,
    /// Reference to credential store key or env var.
    pub bind_password_ref: String,
    /// Full sync interval in seconds.
    pub sync_interval_secs: u64,
    /// LDAP page size for paged searches.
    pub page_size: u32,
    /// Incremental sync via uSNChanged (AD) or modifyTimestamp (OpenLDAP).
    pub use_usn_changed: bool,
    pub ldap_flavor: LdapFlavor,
    /// Allow plain `ldap://` without TLS (local development only).
    pub allow_insecure_ldap: bool,
}

/// Local SQLite store.
#[derive(Debug)]
pub struct StoreConfig {
    pub sqlite_path: String,
}

/// Upstream server.
#[derive(Debug)]
pub struct ServerConfig {
    /// Server ingest base URL.
    pub ingest_base_url: String,
    /// Tenant-scoped API key for ingest.
    pub api_key_ref: String,
    pub mtls_cert_path: Option<String>,
    pub mtls_key_path: Option<String>,
    /// Heartbeat interval in seconds.
    pub heartbeat_interval_secs: u64,
}

/// Log output.
#[derive(Debug)]
pub struct LoggingConfig {
    pub level: String,
    /// `text` or `json`.
    pub format: String,
}

/// Why a configuration could not be loaded.
#[derive(Debug)]
pub enum ConfigError {
    /// The file could not be read.
    Io { path: String, source: std::io::Error },
    /// The YAML could not be parsed.
    Parse(serde_yaml::Error),
    /// A validation rule failed.
    Validation(String),
}

/// The message of the first validation rule that `c` breaks, if any.
pub open spec fn validation_failure(c: CollectorConfig) -> Option<Seq<char>> {
    if trim(c.tenant_id@).len() == 0 {
        Some("tenant_id must not be empty"@)
    } else if trim(c.collector_id@).len() == 0 {
        Some("collector_id must not be empty"@)
    } else if !ip_is_loopback(c.http.bind.spec_ip()) {
        Some(
            "http.bind must be loopback (127.0.0.1) — admin UI must not be exposed on LAN in Phase 1"@,
        )
    } else if c.ad.enabled && c.ad.ldap_uris.len() == 0 {
        Some("ad.ldap_uris must not be empty when ad.enabled is true"@)
    } else if trim(c.server.ingest_base_url@).len() == 0 {
        Some("server.ingest_base_url must not be empty"@)
    } else {
        None
    }
}

/// The configuration with its three secrets replaced by `***`, all else kept.
pub open spec fn is_redaction_of(r: CollectorConfig, c: CollectorConfig) -> bool {
    &&& r.auth.jwt_secret@ == "***"@
    &&& r.ad.bind_password_ref@ == "***"@
    &&& r.server.api_key_ref@ == "***"@
    &&& r.tenant_id == c.tenant_id
    &&& r.collector_id == c.collector_id
    &&& r.http == c.http
    &&& r.auth == (AuthConfig { jwt_secret: r.auth.jwt_secret, ..c.auth })
    &&& r.ad.ldap_uris@ == c.ad.ldap_uris@
    &&& r.ad == (AdConfig {
        bind_password_ref: r.ad.bind_password_ref,
        ldap_uris: r.ad.ldap_uris,
        ..c.ad
    })
    &&& r.server == (ServerConfig { api_key_ref: r.server.api_key_ref, ..c.server })
    &&& r.store == c.store
    &&& r.logging == c.logging
}

fn copy_strings(v: &Vec<String>) -> (r: Vec<String>)
    ensures
        r@ == v@,
{
    let r = v.clone();
    assert(r@ =~= v@);
    r
}

fn copy_opt_string(v: &Option<String>) -> (r: Option<String>)
    ensures
        r == *v,
{
    match v {
        Some(s) => Some(s.clone()),
        None => None,
    }
}

impl AdConfig {
    /// A field-by-field copy.
    pub fn duplicate(&self) -> (r: AdConfig)
        ensures
            r.ldap_uris@ == self.ldap_uris@,
            r == (AdConfig { ldap_uris: r.ldap_uris, ..*self }),
    {
        AdConfig {
            enabled: self.enabled,
            domain: self.domain.clone(),
            ldap_uris: copy_strings(&self.ldap_uris),
            base_dn: self.base_dn.clone(),
            bind_dn: self.bind_dn.clone(),
            bind_password_ref: self.bind_password_ref.clone(),
            sync_interval_secs: self.sync_interval_secs,
            page_size: self.page_size,
            use_usn_changed: self.use_usn_changed,
            ldap_flavor: self.ldap_flavor,
            allow_insecure_ldap: self.allow_insecure_ldap,
        }
    }
}

impl CollectorConfig {
    /// Checks the rules a loadable configuration must meet.
    pub fn validate(&self) -> (r: Result<(), ConfigError>)
        ensures
            r is Ok <==> validation_failure(*self) is None,
            r is Err ==> (r matches Err(ConfigError::Validation(m)) && validation_failure(*self)
                == Some(m@)),
    {
        if is_blank(self.tenant_id.as_str()) {
            return Err(ConfigError::Validation(owned("tenant_id must not be empty")));
        }
        if is_blank(self.collector_id.as_str()) {
            return Err(ConfigError::Validation(owned("collector_id must not be empty")));
        }
        if self.http.bind.ip().is_loopback() == false {
            return Err(
                ConfigError::Validation(
                    owned(
                        "http.bind must be loopback (127.0.0.1) — admin UI must not be exposed on LAN in Phase 1",
                    ),
                ),
            );
        }
        if self.ad.enabled && self.ad.ldap_uris.len() == 0 {
            return Err(
                ConfigError::Validation(
                    owned("ad.ldap_uris must not be empty when ad.enabled is true"),
                ),
            );
        }
        if is_blank(self.server.ingest_base_url.as_str()) {
            return Err(ConfigError::Validation(owned("server.ingest_base_url must not be empty")));
        }
        Ok(())
    }

    /// Redacted view for `GET /api/v1/config`.
    pub fn redacted(&self) -> (r: CollectorConfig)
        ensures
            is_redaction_of(r, *self),
    {
        CollectorConfig {
            tenant_id: self.tenant_id.clone(),
            collector_id: self.collector_id.clone(),
            http: HttpConfig { bind: self.http.bind, static_dir: self.http.static_dir.clone() },
            auth: AuthConfig {
                jwt_secret: owned("***"),
                require_local_login: self.auth.require_local_login,
                ad_bind_login: match &self.auth.ad_bind_login {
                    Some(b) => Some(
                        AdBindLoginConfig {
                            enabled: b.enabled,
                            bind_dn: b.bind_dn.clone(),
                            password_ref: b.password_ref.clone(),
                        },
                    ),
                    None => None,
                },
                login_rate_limit_per_minute: self.auth.login_rate_limit_per_minute,
            },
            ad: AdConfig {
                enabled: self.ad.enabled,
                domain: self.ad.domain.clone(),
                ldap_uris: copy_strings(&self.ad.ldap_uris),
                base_dn: self.ad.base_dn.clone(),
                bind_dn: self.ad.bind_dn.clone(),
                bind_password_ref: owned("***"),
                sync_interval_secs: self.ad.sync_interval_secs,
                page_size: self.ad.page_size,
                use_usn_changed: self.ad.use_usn_changed,
                ldap_flavor: self.ad.ldap_flavor,
                allow_insecure_ldap: self.ad.allow_insecure_ldap,
            },
            server: ServerConfig {
                ingest_base_url: self.server.ingest_base_url.clone(),
                api_key_ref: owned("***"),
                mtls_cert_path: copy_opt_string(&self.server.mtls_cert_path),
                mtls_key_path: copy_opt_string(&self.server.mtls_key_path),
                heartbeat_interval_secs: self.server.heartbeat_interval_secs,
            },
            store: StoreConfig { sqlite_path: self.store.sqlite_path.clone() },
            logging: LoggingConfig {
                level: self.logging.level.clone(),
                format: self.logging.format.clone(),
            },
        }
    }
}


/// Default `store.sqlite_path`.
pub fn default_sqlite_path() -> (r: String)
    ensures
        r@ == "data/collector.db"@,
{
    owned("data/collector.db")
}

/// Default `http.bind`: `127.0.0.1:8080`.
pub fn default_bind() -> (r: SocketAddress)
    ensures
        r == (SocketAddress::V4 { ip: [127u8, 0u8, 0u8, 1u8], port: 8080u16 }),
{
    SocketAddress::V4 { ip: [127u8, 0u8, 0u8, 1u8], port: 8080u16 }
}

/// Default `http.static_dir`.
pub fn default_static_dir() -> (r: String)
    ensures
        r@ == "web/static"@,
{
    owned("web/static")
}

/// Default `auth.require_local_login`.
pub fn default_require_local_login() -> (r: bool)
    ensures
        r,
{
    true
}

/// Default `auth.login_rate_limit_per_minute`.
pub fn default_login_rate_limit() -> (r: u32)
    ensures
        r == 10,
{
    10
}

/// Default `ad.sync_interval_secs`: the scheduler ticks every 15 minutes.
pub fn default_ldap_sync_interval_secs() -> (r: u64)
    ensures
        r == 900,
{
    900
}

/// Default `ad.page_size`.
pub fn default_ldap_page_size() -> (r: u32)
    ensures
        r == 1000,
{
    1000
}

/// Default `ad.use_usn_changed`.
pub fn default_use_usn_changed() -> (r: bool)
    ensures
        r,
{
    true
}

/// Default `server.heartbeat_interval_secs`.
pub fn default_heartbeat_interval_secs() -> (r: u64)
    ensures
        r == 60,
{
    60
}

/// Default `logging.level`.
pub fn default_log_level() -> (r: String)
    ensures
        r@ == "info"@,
{
    owned("info")
}

/// Default `logging.format`.
pub fn default_log_format() -> (r: String)
    ensures
        r@ == "text"@,
{
    owned("text")
}

/// Redaction touches no field that validation reads: a configuration and its
/// redacted view are accepted or refused alike, with the same message.
pub proof fn lemma_redaction_keeps_validity(r: CollectorConfig, c: CollectorConfig)
    requires
        is_redaction_of(r, c),
    ensures
        validation_failure(r) == validation_failure(c),
{
}

/// Redacting an already redacted configuration is again a redaction of the
/// first configuration: the secrets stay `***` and every other field is unchanged.
pub proof fn lemma_redaction_idempotent(r1: CollectorConfig, r2: CollectorConfig, c: CollectorConfig)
    requires
        is_redaction_of(r1, c),
        is_redaction_of(r2, r1),
    ensures
        is_redaction_of(r2, c),
{
}


/// A configuration that validates keeps the admin UI on the local machine:
/// its bind address is a loopback address; it names a tenant, a collector and
/// an ingest URL that are not blank; and enabled AD sync has an LDAP URI.
pub proof fn lemma_valid_config_is_local_only(c: CollectorConfig)
    requires
        validation_failure(c) is None,
    ensures
        ip_is_loopback(c.http.bind.spec_ip()),
        trim(c.tenant_id@).len() > 0,
        trim(c.collector_id@).len() > 0,
        trim(c.server.ingest_base_url@).len() > 0,
        c.ad.enabled ==> c.ad.ldap_uris.len() > 0,
{
}

} // verus!
