//! The decisions of one LDAP sync run, as a state machine: the caller performs
//! each action (read the cursor, search, write the store) and feeds back what
//! came of it.

use vstd::prelude::*;

use crate::ad::mapper::{
    attrs_view, entry_member_of, entry_sid, entry_upn, entry_username, first_value, groups_of,
    is_user_event_of, lemma_entry_identity_attributes, lookup_attr_ci, map_user_entry,
    max_usn_from_entries, spec_max_usn, LdapEntry,
};
use crate::config::AdConfig;
use crate::events::CatalogEvent;
use crate::text::owned;

verus! {

/// Result of one sync run (`POST /api/v1/sync/ad`).
#[derive(Debug)]
pub struct SyncReport {
    pub ok: bool,
    pub users_synced: usize,
    pub incremental: bool,
    pub new_cursor: Option<String>,
    pub message: Option<String>,
}

/// A sync report as plain values.
pub struct SyncReportView {
    pub ok: bool,
    pub users_synced: nat,
    pub incremental: bool,
    pub new_cursor: Option<Seq<char>>,
    pub message: Option<Seq<char>>,
}

impl View for SyncReport {
    type V = SyncReportView;

    open spec fn view(&self) -> SyncReportView {
        SyncReportView {
            ok: self.ok,
            users_synced: self.users_synced as nat,
            incremental: self.incremental,
            new_cursor: self.new_cursor.deep_view(),
            message: self.message.deep_view(),
        }
    }
}

/// One row to write into `catalog_users`.
#[derive(Debug)]
pub struct CatalogUserUpsert {
    pub domain: String,
    pub username: String,
    pub sid: String,
    pub upn: Option<String>,
    pub dn: Option<String>,
    pub groups: Vec<String>,
}

/// A catalog row as plain values: domain, username, sid, upn, dn, groups.
pub type UpsertView = (
    Seq<char>,
    Seq<char>,
    Seq<char>,
    Option<Seq<char>>,
    Option<Seq<char>>,
    Seq<Seq<char>>,
);

impl View for CatalogUserUpsert {
    type V = UpsertView;

    open spec fn view(&self) -> UpsertView {
        (
            self.domain@,
            self.username@,
            self.sid@,
            self.upn.deep_view(),
            self.dn.deep_view(),
            self.groups.deep_view(),
        )
    }
}

/// How the sync cursor of the domain is updated at the end of a run.
#[derive(Debug)]
pub enum CursorUpdate {
    /// Store `usn` as the domain's cursor (and the sync time).
    Store { domain: String, usn: String },
    /// Keep the cursor, record the sync time.
    Touch { domain: String },
}

pub enum CursorUpdateView {
    Store { domain: Seq<char>, usn: Seq<char> },
    Touch { domain: Seq<char> },
}

impl View for CursorUpdate {
    type V = CursorUpdateView;

    open spec fn view(&self) -> CursorUpdateView {
        match self {
            CursorUpdate::Store { domain, usn } => CursorUpdateView::Store {
                domain: domain@,
                usn: usn@,
            },
            CursorUpdate::Touch { domain } => CursorUpdateView::Touch { domain: domain@ },
        }
    }
}

/// Where a sync run stands.
#[derive(Debug)]
pub enum SyncState {
    Start,
    AwaitCursor,
    AwaitEntries { incremental: bool },
    AwaitPersist { users_synced: usize, incremental: bool, new_cursor: Option<String> },
    Done,
}

pub enum SyncStateView {
    Start,
    AwaitCursor,
    AwaitEntries { incremental: bool },
    AwaitPersist { users_synced: nat, incremental: bool, new_cursor: Option<Seq<char>> },
    Done,
}

impl View for SyncState {
    type V = SyncStateView;

    open spec fn view(&self) -> SyncStateView {
        match self {
            SyncState::Start => SyncStateView::Start,
            SyncState::AwaitCursor => SyncStateView::AwaitCursor,
            SyncState::AwaitEntries { incremental } => SyncStateView::AwaitEntries {
                incremental: *incremental,
            },
            SyncState::AwaitPersist { users_synced, incremental, new_cursor } =>
                SyncStateView::AwaitPersist {
                users_synced: *users_synced as nat,
                incremental: *incremental,
                new_cursor: new_cursor.deep_view(),
            },
            SyncState::Done => SyncStateView::Done,
        }
    }
}

/// What the caller reports back.
#[derive(Debug)]
pub enum SyncEvent {
    /// A run is requested (by the scheduler or by hand).
    Begin,
    /// The stored cursor of the domain was read.
    CursorLoaded(Option<String>),
    /// The LDAP search returned these entries.
    EntriesLoaded(Vec<LdapEntry>),
    /// The catalog rows and the cursor were written.
    Persisted,
}

pub enum SyncEventView {
    Begin,
    CursorLoaded(Option<Seq<char>>),
    EntriesLoaded(Seq<LdapEntry>),
    Persisted,
}

impl View for SyncEvent {
    type V = SyncEventView;

    open spec fn view(&self) -> SyncEventView {
        match self {
            SyncEvent::Begin => SyncEventView::Begin,
            SyncEvent::CursorLoaded(c) => SyncEventView::CursorLoaded(c.deep_view()),
            SyncEvent::EntriesLoaded(es) => SyncEventView::EntriesLoaded(es@),
            SyncEvent::Persisted => SyncEventView::Persisted,
        }
    }
}

/// What the caller must do next.
#[derive(Debug)]
pub enum SyncAction {
    /// Read the stored cursor of `domain`.
    LoadCursor { domain: String },
    /// Search the directory, incrementally from `cursor` when there is one.
    Search { cursor: Option<String> },
    /// Upsert these catalog rows in order, then update the cursor; `skipped`
    /// holds the DNs of the entries that did not map to a user (no username).
    Persist { users: Vec<CatalogUserUpsert>, skipped: Vec<String>, cursor: CursorUpdate },
    /// The run is over with this report.
    Finish(SyncReport),
    /// The event does not fit the state; nothing to do.
    Unexpected,
}

pub enum SyncActionView {
    LoadCursor { domain: Seq<char> },
    Search { cursor: Option<Seq<char>> },
    Persist { users: Seq<UpsertView>, skipped: Seq<Seq<char>>, cursor: CursorUpdateView },
    Finish(SyncReportView),
    Unexpected,
}

impl View for SyncAction {
    type V = SyncActionView;

    open spec fn view(&self) -> SyncActionView {
        match self {
            SyncAction::LoadCursor { domain } => SyncActionView::LoadCursor { domain: domain@ },
            SyncAction::Search { cursor } => SyncActionView::Search { cursor: cursor.deep_view() },
            SyncAction::Persist { users, skipped, cursor } => SyncActionView::Persist {
                users: users@.map_values(|u: CatalogUserUpsert| u@),
                skipped: skipped.deep_view(),
                cursor: cursor@,
            },
            SyncAction::Finish(r) => SyncActionView::Finish(r@),
            SyncAction::Unexpected => SyncActionView::Unexpected,
        }
    }
}

/// The catalog row of an entry, when it maps to a user event.
pub open spec fn upsert_of(e: LdapEntry, ad: AdConfig) -> Option<UpsertView> {
    match entry_username(e, ad.ldap_flavor) {
        Some(u) => Some(
            (
                ad.domain@,
                u,
                entry_sid(e, ad.ldap_flavor),
                entry_upn(e),
                Some(e.dn@),
                groups_of(entry_member_of(e)),
            ),
        ),
        None => None,
    }
}

/// The catalog rows of a search result, in order; entries without a username
/// are skipped.
pub open spec fn upserts_of(entries: Seq<LdapEntry>, ad: AdConfig) -> Seq<UpsertView>
    decreases entries.len(),
{
    if entries.len() == 0 {
        seq![]
    } else {
        upserts_of(entries.drop_last(), ad) + match upsert_of(entries.last(), ad) {
            Some(u) => seq![u],
            None => seq![],
        }
    }
}

/// The DNs of the entries of a search result that do not map to a user event.
pub open spec fn skipped_of(entries: Seq<LdapEntry>, ad: AdConfig) -> Seq<Seq<char>>
    decreases entries.len(),
{
    if entries.len() == 0 {
        seq![]
    } else {
        skipped_of(entries.drop_last(), ad) + match upsert_of(entries.last(), ad) {
            Some(_) => seq![],
            None => seq![entries.last().dn@],
        }
    }
}

/// The report of a run on a domain whose sync is disabled.
pub open spec fn disabled_report() -> SyncReportView {
    SyncReportView {
        ok: false,
        users_synced: 0,
        incremental: false,
        new_cursor: None,
        message: Some("ad.enabled is false"@),
    }
}

/// One step of a sync run: from the state and what came back, the next state
/// and what to do.
pub open spec fn sync_next(ad: AdConfig, state: SyncStateView, event: SyncEventView) -> (
    SyncStateView,
    SyncActionView,
) {
    match (state, event) {
        (SyncStateView::Start, SyncEventView::Begin) => if !ad.enabled {
            (SyncStateView::Done, SyncActionView::Finish(disabled_report()))
        } else if ad.use_usn_changed {
            (SyncStateView::AwaitCursor, SyncActionView::LoadCursor { domain: ad.domain@ })
        } else {
            (
                SyncStateView::AwaitEntries { incremental: false },
                SyncActionView::Search { cursor: None },
            )
        },
        (SyncStateView::AwaitCursor, SyncEventView::CursorLoaded(c)) => (
            SyncStateView::AwaitEntries { incremental: c is Some },
            SyncActionView::Search { cursor: c },
        ),
        (SyncStateView::AwaitEntries { incremental }, SyncEventView::EntriesLoaded(es)) => {
            let users = upserts_of(es, ad);
            let nc = spec_max_usn(es, ad.ldap_flavor);
            (
                SyncStateView::AwaitPersist {
                    users_synced: users.len(),
                    incremental,
                    new_cursor: nc,
                },
                SyncActionView::Persist {
                    users,
                    skipped: skipped_of(es, ad),
                    cursor: match nc {
                        Some(u) => CursorUpdateView::Store { domain: ad.domain@, usn: u },
                        None => CursorUpdateView::Touch { domain: ad.domain@ },
                    },
                },
            )
        },
        (
            SyncStateView::AwaitPersist { users_synced, incremental, new_cursor },
            SyncEventView::Persisted,
        ) => (
            SyncStateView::Done,
            SyncActionView::Finish(
                SyncReportView { ok: true, users_synced, incremental, new_cursor, message: None },
            ),
        ),
        _ => (state, SyncActionView::Unexpected),
    }
}

/// The rows to upsert for a search result: one per entry that maps to a user
/// event (`map_user_entry`), in order; and the DNs of the entries skipped.
pub fn plan_upserts(entries: &Vec<LdapEntry>, ad: &AdConfig, tenant_id: &str) -> (r: (
    Vec<CatalogUserUpsert>,
    Vec<String>,
))
    ensures
        r.0@.map_values(|u: CatalogUserUpsert| u@) == upserts_of(entries@, *ad),
        r.1.deep_view() == skipped_of(entries@, *ad),
{
    let mut r: Vec<CatalogUserUpsert> = Vec::new();
    let mut skipped: Vec<String> = Vec::new();
    let mut i: usize = 0;
    while i < entries.len()
        invariant
            i <= entries.len(),
            r@.map_values(|u: CatalogUserUpsert| u@) == upserts_of(entries@.take(i as int), *ad),
            skipped.deep_view() == skipped_of(entries@.take(i as int), *ad),
        decreases entries.len() - i,
    {
        let ghost before = r@.map_values(|u: CatalogUserUpsert| u@);
        let ghost before_skipped = skipped.deep_view();
        assert(entries@.take(i + 1).drop_last() == entries@.take(i as int));
        assert(entries@.take(i + 1).last() == entries@[i as int]);
        match map_user_entry(&entries[i], ad, tenant_id) {
            Ok(ev) => {
                let row = CatalogUserUpsert {
                    domain: ev.domain,
                    username: ev.name,
                    sid: ev.sid,
                    upn: ev.attributes.upn,
                    dn: Some(ev.attributes.dn),
                    groups: ev.groups,
                };
                r.push(row);
                assert(r@.map_values(|u: CatalogUserUpsert| u@) =~= before + seq![row@]);
                assert(before_skipped + Seq::<Seq<char>>::empty() =~= before_skipped);
            },
            Err(_) => {
                assert(before + Seq::<UpsertView>::empty() =~= before);
                skipped.push(entries[i].dn.clone());
                assert(skipped.deep_view() =~= before_skipped + seq![entries@[i as int].dn@]);
            },
        }
        i = i + 1;
    }
    assert(entries@.take(entries.len() as int) == entries@);
    (r, skipped)
}

/// Advances a sync run by one step.
pub fn sync_step(ad: &AdConfig, tenant_id: &str, state: SyncState, event: SyncEvent) -> (r: (
    SyncState,
    SyncAction,
))
    ensures
        (r.0@, r.1@) == sync_next(*ad, state@, event@),
{
    match (state, event) {
        (SyncState::Start, SyncEvent::Begin) => {
            if !ad.enabled {
                (
                    SyncState::Done,
                    SyncAction::Finish(
                        SyncReport {
                            ok: false,
                            users_synced: 0,
                            incremental: false,
                            new_cursor: None,
                            message: Some(owned("ad.enabled is false")),
                        },
                    ),
                )
            } else if ad.use_usn_changed {
                (SyncState::AwaitCursor, SyncAction::LoadCursor { domain: ad.domain.clone() })
            } else {
                (
                    SyncState::AwaitEntries { incremental: false },
                    SyncAction::Search { cursor: None },
                )
            }
        },
        (SyncState::AwaitCursor, SyncEvent::CursorLoaded(c)) => {
            let incremental = c.is_some();
            (SyncState::AwaitEntries { incremental }, SyncAction::Search { cursor: c })
        },
        (SyncState::AwaitEntries { incremental }, SyncEvent::EntriesLoaded(entries)) => {
            let (users, skipped) = plan_upserts(&entries, ad, tenant_id);
            let new_cursor = max_usn_from_entries(entries.as_slice(), ad.ldap_flavor);
            let cursor = match &new_cursor {
                Some(usn) => CursorUpdate::Store { domain: ad.domain.clone(), usn: usn.clone() },
                None => CursorUpdate::Touch { domain: ad.domain.clone() },
            };
            proof {
                assert(users@.map_values(|u: CatalogUserUpsert| u@).len() == users.len());
            }
            (
                SyncState::AwaitPersist { users_synced: users.len(), incremental, new_cursor },
                SyncAction::Persist { users, skipped, cursor },
            )
        },
        (
            SyncState::AwaitPersist { users_synced, incremental, new_cursor },
            SyncEvent::Persisted,
        ) => (
            SyncState::Done,
            SyncAction::Finish(
                SyncReport { ok: true, users_synced, incremental, new_cursor, message: None },
            ),
        ),
        (s, _) => (s, SyncAction::Unexpected),
    }
}


/// The cursor a run searches from: the stored one when incremental sync is on.
pub open spec fn search_cursor(ad: AdConfig, stored: Option<Seq<char>>) -> Option<Seq<char>> {
    if ad.use_usn_changed {
        stored
    } else {
        None
    }
}

/// A whole sync run. A disabled domain finishes at once with the disabled
/// report. Otherwise the run reads the stored cursor only when incremental
/// sync is on, searches from it (a full search without one), upserts exactly
/// the entries that map to users, in order (naming the skipped entries' DNs),
/// stores the search's high-water
/// mark as the new cursor (or only records the sync time when there is none),
/// and reports success with the number of users written, whether the search
/// was incremental, and the new cursor.
pub proof fn lemma_sync_run(ad: AdConfig, stored: Option<Seq<char>>, entries: Seq<LdapEntry>)
    ensures
        !ad.enabled ==> sync_next(ad, SyncStateView::Start, SyncEventView::Begin) == (
            SyncStateView::Done,
            SyncActionView::Finish(disabled_report()),
        ),
        ad.enabled ==> ({
            let first = sync_next(ad, SyncStateView::Start, SyncEventView::Begin);
            let searching = if ad.use_usn_changed {
                sync_next(ad, first.0, SyncEventView::CursorLoaded(stored))
            } else {
                first
            };
            let persisting = sync_next(ad, searching.0, SyncEventView::EntriesLoaded(entries));
            let done = sync_next(ad, persisting.0, SyncEventView::Persisted);
            let users = upserts_of(entries, ad);
            let new_cursor = spec_max_usn(entries, ad.ldap_flavor);
            &&& ad.use_usn_changed ==> first.1 == SyncActionView::LoadCursor { domain: ad.domain@ }
            &&& searching.1 == SyncActionView::Search { cursor: search_cursor(ad, stored) }
            &&& persisting.1 == SyncActionView::Persist {
                users,
                skipped: skipped_of(entries, ad),
                cursor: match new_cursor {
                    Some(u) => CursorUpdateView::Store { domain: ad.domain@, usn: u },
                    None => CursorUpdateView::Touch { domain: ad.domain@ },
                },
            }
            &&& done.0 == SyncStateView::Done
            &&& done.1 == SyncActionView::Finish(
                SyncReportView {
                    ok: true,
                    users_synced: users.len(),
                    incremental: search_cursor(ad, stored) is Some,
                    new_cursor,
                    message: None,
                },
            )
        }),
{
}


/// What wakes the sync scheduler.
#[derive(Debug, Clone, Copy, PartialEq, Eq, Structural)]
pub enum SchedulerEvent {
    /// The scheduler task starts.
    Start,
    /// The sync interval elapsed.
    Tick,
    /// Someone asked for a sync now (`trigger`).
    ManualTrigger,
}

/// What the sync scheduler does next.
#[derive(Debug, Clone, Copy, PartialEq, Eq, Structural)]
pub enum SchedulerAction {
    /// Sync is disabled: the scheduler ends.
    Stop,
    /// Start ticking every `period_secs` seconds (a missed tick is skipped).
    Arm { period_secs: u64 },
    /// Run one sync now.
    RunSync,
}

/// The scheduler's decision: on start it ends when AD sync is disabled and
/// otherwise ticks every `sync_interval_secs`; every tick and every manual
/// trigger runs one sync.
pub fn scheduler_step(ad: &AdConfig, event: SchedulerEvent) -> (a: SchedulerAction)
    ensures
        event is Start ==> a == (if ad.enabled {
            SchedulerAction::Arm { period_secs: ad.sync_interval_secs }
        } else {
            SchedulerAction::Stop
        }),
        !(event is Start) ==> a == SchedulerAction::RunSync,
{
    match event {
        SchedulerEvent::Start => {
            if ad.enabled {
                SchedulerAction::Arm { period_secs: ad.sync_interval_secs }
            } else {
                SchedulerAction::Stop
            }
        },
        SchedulerEvent::Tick => SchedulerAction::RunSync,
        SchedulerEvent::ManualTrigger => SchedulerAction::RunSync,
    }
}


/// The catalog row of an entry carries the fields of the user event the entry
/// maps to: its domain, name, identifier, UPN, DN and groups.
pub proof fn lemma_upsert_row_is_mapped_event(
    ev: CatalogEvent,
    e: LdapEntry,
    ad: AdConfig,
    tenant: Seq<char>,
)
    requires
        is_user_event_of(ev, e, ad, tenant),
    ensures
        upsert_of(e, ad) == Some(
            (
                ev.domain@,
                ev.name@,
                ev.sid@,
                ev.attributes.upn.deep_view(),
                Some(ev.attributes.dn@),
                ev.groups.deep_view(),
            ),
        ),
{
}

/// An entry yields a catalog row exactly when it has a username; the row's
/// UPN is the entry's first `userPrincipalName`, else its first `mail`, and
/// its DN is the entry's DN.
pub proof fn lemma_upsert_row_attributes(e: LdapEntry, ad: AdConfig)
    ensures
        upsert_of(e, ad) is Some <==> entry_username(e, ad.ldap_flavor) is Some,
        upsert_of(e, ad) matches Some(row) ==> row.0 == ad.domain@ && row.3 == (match first_value(
            lookup_attr_ci(attrs_view(e.attrs@), "userPrincipalName"@),
        ) {
            Some(u) => Some(u),
            None => first_value(lookup_attr_ci(attrs_view(e.attrs@), "mail"@)),
        }) && row.4 == Some(e.dn@),
{
    lemma_entry_identity_attributes(e);
}

/// The rows of a search result are those of each entry in turn: the rows of
/// one batch of entries followed by another are the first batch's rows, then
/// the second's; likewise the skipped DNs.
pub proof fn lemma_upserts_concat(a: Seq<LdapEntry>, b: Seq<LdapEntry>, ad: AdConfig)
    ensures
        upserts_of(a + b, ad) == upserts_of(a, ad) + upserts_of(b, ad),
        skipped_of(a + b, ad) == skipped_of(a, ad) + skipped_of(b, ad),
        upserts_of(seq![], ad) == Seq::<UpsertView>::empty(),
    decreases b.len(),
{
    if b.len() == 0 {
        assert(a + b =~= a);
        assert(upserts_of(a, ad) + upserts_of(b, ad) =~= upserts_of(a, ad));
        assert(skipped_of(a, ad) + skipped_of(b, ad) =~= skipped_of(a, ad));
    } else {
        lemma_upserts_concat(a, b.drop_last(), ad);
        assert((a + b).drop_last() =~= a + b.drop_last());
        assert((a + b).last() == b.last());
        let tail = match upsert_of(b.last(), ad) {
            Some(u) => seq![u],
            None => Seq::<UpsertView>::empty(),
        };
        assert(upserts_of(a, ad) + upserts_of(b.drop_last(), ad) + tail =~= upserts_of(a, ad) + (
        upserts_of(b.drop_last(), ad) + tail));
        let stail = match upsert_of(b.last(), ad) {
            Some(_) => Seq::<Seq<char>>::empty(),
            None => seq![b.last().dn@],
        };
        assert(skipped_of(a, ad) + skipped_of(b.drop_last(), ad) + stail =~= skipped_of(a, ad) + (
        skipped_of(b.drop_last(), ad) + stail));
    }
}

/// A single entry yields its own row, or is skipped under its DN.
pub proof fn lemma_upserts_single(e: LdapEntry, ad: AdConfig)
    ensures
        upserts_of(seq![e], ad) == (match upsert_of(e, ad) {
            Some(u) => seq![u],
            None => Seq::<UpsertView>::empty(),
        }),
        skipped_of(seq![e], ad) == (match upsert_of(e, ad) {
            Some(_) => Seq::<Seq<char>>::empty(),
            None => seq![e.dn@],
        }),
{
    let one = seq![e];
    assert(one.drop_last() =~= Seq::<LdapEntry>::empty());
    assert(one.last() == e);
    assert(upserts_of(Seq::<LdapEntry>::empty(), ad) =~= Seq::<UpsertView>::empty());
    assert(skipped_of(Seq::<LdapEntry>::empty(), ad) =~= Seq::<Seq<char>>::empty());
    assert(Seq::<UpsertView>::empty() + upserts_of(one, ad).skip(0) =~= upserts_of(one, ad));
    match upsert_of(e, ad) {
        Some(u) => {
            assert(Seq::<UpsertView>::empty() + seq![u] =~= seq![u]);
            assert(Seq::<Seq<char>>::empty() + Seq::<Seq<char>>::empty() =~= Seq::<Seq<char>>::empty());
        },
        None => {
            assert(Seq::<UpsertView>::empty() + Seq::<UpsertView>::empty() =~= Seq::<UpsertView>::empty());
            assert(Seq::<Seq<char>>::empty() + seq![e.dn@] =~= seq![e.dn@]);
        },
    }
}

} // verus!
