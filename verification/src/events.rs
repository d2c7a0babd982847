//! Shared catalog and session types: the contract with the upstream server.

use vstd::prelude::*;

verus! {

/// `uuid::Uuid`, the identifier of each event.
#[verifier::external_type_specification]
#[verifier::external_body]
pub struct ExUuid(uuid::Uuid);

/// A point in time in UTC, as `chrono::DateTime<Utc>` holds it: whole seconds since
/// the Unix epoch and the nanoseconds within that second.
#[derive(Debug, Clone, Copy, PartialEq, Eq, Structural)]
pub struct UtcTimestamp {
    pub secs: i64,
    pub nanos: u32,
}

/// A fresh random (version 4) event identifier.
/// Trusted: calls `uuid::Uuid::new_v4`; the value is random, so nothing is stated of it.
#[verifier::external_body]
pub fn new_event_id() -> (id: uuid::Uuid) {
    uuid::Uuid::new_v4()
}

/// The current time in UTC.
/// Trusted: converts `std::time::SystemTime::now()` with chrono's
/// `From<SystemTime> for DateTime<Utc>`, which handles clocks set before 1970.
/// The value depends on the clock, so only what holds of every result is stated:
/// the nanoseconds are a fraction of a second (chrono builds the value with
/// `timestamp_opt` from a nanosecond count below 10^9, so it is no leap second).
/// Left unsaid: that conversion still unwraps, so a clock beyond chrono's
/// range (about year 262000) would panic.
#[verifier::external_body]
pub fn now_utc() -> (t: UtcTimestamp)
    ensures
        t.nanos < 1_000_000_000,
{
    let now = chrono::DateTime::<chrono::Utc>::from(std::time::SystemTime::now());
    UtcTimestamp { secs: now.timestamp(), nanos: now.timestamp_subsec_nanos() }
}

/// Directory catalog change from LDAP sync.
#[derive(Debug)]
pub struct CatalogEvent {
    pub event_id: uuid::Uuid,
    pub tenant_id: String,
    pub object_type: CatalogObjectType,
    pub sid: String,
    pub domain: String,
    pub name: String,
    pub groups: Vec<String>,
    pub attributes: CatalogAttributes,
    pub observed_at: UtcTimestamp,
}

/// The free-form attributes of a catalog event (`dn`, `upn`, `ldap_flavor`).
#[derive(Debug)]
pub struct CatalogAttributes {
    pub dn: String,
    pub upn: Option<String>,
    pub ldap_flavor: String,
}

/// Kind of directory object.
#[derive(Debug, Clone, Copy, PartialEq, Eq, Structural)]
pub enum CatalogObjectType {
    User,
    Group,
    Device,
}

/// Login/logout or session update from event log or syslog.
#[derive(Debug)]
pub struct SessionEvent {
    pub event_id: uuid::Uuid,
    pub tenant_id: String,
    pub event_type: SessionEventType,
    pub domain: String,
    pub username: String,
    pub ip_address: String,
    pub device: Option<String>,
    pub logon_type: Option<u32>,
    pub groups: Vec<String>,
    pub observed_at: UtcTimestamp,
}

/// Kind of session event.
#[derive(Debug, Clone, Copy, PartialEq, Eq, Structural)]
pub enum SessionEventType {
    Login,
    Logout,
    Refresh,
}

/// State of a normalized session.
#[derive(Debug, Clone, Copy, PartialEq, Eq, Structural)]
pub enum SessionState {
    Active,
    LoggedOut,
    Pending,
    Expired,
}

/// Normalized session row after catalog merge.
#[derive(Debug)]
pub struct SessionRecord {
    pub ip_address: String,
    pub username: String,
    pub domain: String,
    pub device: Option<String>,
    pub groups: Vec<String>,
    pub state: SessionState,
    pub last_seen: UtcTimestamp,
    pub pushed_to_server: bool,
}

} // verus!
