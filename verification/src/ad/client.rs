//! LDAP client data: the connection test report, the sample users it shows,
//! and the paging decisions of the user search.

use vstd::prelude::*;

use crate::ad::mapper::{
    entry_member_of, entry_sid, entry_username, groups_of, is_user_event_of, map_user_entry,
    LdapEntry,
};
use crate::config::{AdConfig, CollectorConfig, LdapFlavor};
use crate::events::CatalogEvent;

verus! {

/// Outcome of `POST /api/v1/test/ad`.
#[derive(Debug)]
pub struct LdapTestResult {
    pub ok: bool,
    pub uri: String,
    pub bind_dn: String,
    pub domain: String,
    pub users_found: usize,
    pub sample_users: Vec<SampleUser>,
    pub duration_ms: u128,
    pub message: Option<String>,
}

/// One user found by the connection test.
#[derive(Debug)]
pub struct SampleUser {
    pub username: String,
    pub sid: String,
    pub groups: Vec<String>,
    pub dn: String,
}

impl SampleUser {
    pub open spec fn fields(self) -> (Seq<char>, Seq<char>, Seq<Seq<char>>, Seq<char>) {
        (self.username@, self.sid@, self.groups.deep_view(), self.dn@)
    }
}

/// The sample user an entry yields: the entries without a username yield none.
pub open spec fn sample_of(e: LdapEntry, flavor: LdapFlavor) -> Option<
    (Seq<char>, Seq<char>, Seq<Seq<char>>, Seq<char>),
> {
    match entry_username(e, flavor) {
        Some(u) => Some((u, entry_sid(e, flavor), groups_of(entry_member_of(e)), e.dn@)),
        None => None,
    }
}

/// The sample users of a search result, in order.
pub open spec fn samples_of(entries: Seq<LdapEntry>, flavor: LdapFlavor) -> Seq<
    (Seq<char>, Seq<char>, Seq<Seq<char>>, Seq<char>),
>
    decreases entries.len(),
{
    if entries.len() == 0 {
        seq![]
    } else {
        samples_of(entries.drop_last(), flavor) + match sample_of(entries.last(), flavor) {
            Some(s) => seq![s],
            None => seq![],
        }
    }
}

/// The connection test shows at most this many sample users.
pub open spec fn max_sample_users() -> nat {
    5
}

/// The first `max_sample_users()` samples (all of them when there are fewer).
pub open spec fn capped_samples(s: Seq<(Seq<char>, Seq<char>, Seq<Seq<char>>, Seq<char>)>) -> Seq<
    (Seq<char>, Seq<char>, Seq<Seq<char>>, Seq<char>),
> {
    if s.len() <= max_sample_users() {
        s
    } else {
        s.take(max_sample_users() as int)
    }
}

/// Connection settings of the LDAP client: the directory config and tenant.
pub struct LdapClient {
    config: AdConfig,
    tenant_id: String,
}

/// The warning logged when plain LDAP is allowed.
pub open spec fn insecure_ldap_warning() -> Seq<char> {
    "ad.allow_insecure_ldap=true — for local OpenLDAP/dev only"@
}

/// The warning to log for `config`, if any: plain `ldap://` without TLS is
/// only for local development.
pub fn warn_if_ldaps_mismatch(config: &AdConfig) -> (r: Option<&'static str>)
    ensures
        r is Some <==> config.allow_insecure_ldap,
        r matches Some(w) ==> w@ == insecure_ldap_warning(),
{
    if config.allow_insecure_ldap {
        Some("ad.allow_insecure_ldap=true — for local OpenLDAP/dev only")
    } else {
        None
    }
}

impl LdapClient {
    pub closed spec fn spec_config(&self) -> AdConfig {
        self.config
    }

    pub closed spec fn spec_tenant_id(&self) -> Seq<char> {
        self.tenant_id@
    }

    /// A client for the directory of `config`.
    pub fn new(config: &CollectorConfig) -> (r: LdapClient)
        ensures
            r.spec_config().ldap_uris@ == config.ad.ldap_uris@,
            r.spec_config() == (AdConfig { ldap_uris: r.spec_config().ldap_uris, ..config.ad }),
            r.spec_tenant_id() == config.tenant_id@,
    {
        LdapClient { config: config.ad.duplicate(), tenant_id: config.tenant_id.clone() }
    }

    /// The directory configuration.
    pub fn config(&self) -> (r: &AdConfig)
        ensures
            *r == self.spec_config(),
    {
        &self.config
    }

    /// The tenant the client maps users for.
    pub fn tenant_id(&self) -> (r: &str)
        ensures
            r@ == self.spec_tenant_id(),
    {
        self.tenant_id.as_str()
    }

    /// The URI the client connects to: the first configured one.
    pub fn first_uri(&self) -> (r: Option<String>)
        ensures
            r is Some <==> self.spec_config().ldap_uris.len() > 0,
            r matches Some(u) ==> u@ == self.spec_config().ldap_uris@[0]@,
    {
        if self.config.ldap_uris.len() > 0 {
            Some(self.config.ldap_uris[0].clone())
        } else {
            None
        }
    }

    /// The users of a search result that map to catalog events, as samples.
    pub fn sample_users(&self, entries: &[LdapEntry]) -> (r: Vec<SampleUser>)
        ensures
            r@.map_values(|s: SampleUser| s.fields()) == samples_of(
                entries@,
                self.spec_config().ldap_flavor,
            ),
    {
        let ghost flavor = self.config.ldap_flavor;
        let mut r: Vec<SampleUser> = Vec::new();
        let mut i: usize = 0;
        while i < entries.len()
            invariant
                i <= entries.len(),
                flavor == self.config.ldap_flavor,
                r@.map_values(|s: SampleUser| s.fields()) == samples_of(
                    entries@.take(i as int),
                    flavor,
                ),
            decreases entries.len() - i,
        {
            let ghost before = r@.map_values(|s: SampleUser| s.fields());
            assert(entries@.take(i + 1).drop_last() == entries@.take(i as int));
            assert(entries@.take(i + 1).last() == entries@[i as int]);
            let e = &entries[i];
            match map_user_entry(e, &self.config, self.tenant_id.as_str()) {
                Ok(ev) => {
                    let s = SampleUser {
                        username: ev.name,
                        sid: ev.sid,
                        groups: ev.groups,
                        dn: e.dn.clone(),
                    };
                    r.push(s);
                    assert(r@.map_values(|s: SampleUser| s.fields()) =~= before + seq![s.fields()]);
                },
                Err(_) => {
                    assert(before + Seq::<(Seq<char>, Seq<char>, Seq<Seq<char>>, Seq<char>)>::empty()
                        =~= before);
                },
            }
            i = i + 1;
        }
        assert(entries@.take(entries.len() as int) == entries@);
        r
    }

    /// The connection test report: on a failed search, `ok` is false with the
    /// error message and no users; otherwise the first five sample users of the
    /// result.
    pub fn test_result(
        &self,
        uri: String,
        outcome: Result<Vec<LdapEntry>, String>,
        duration_ms: u128,
    ) -> (r: LdapTestResult)
        ensures
            r.uri == uri,
            r.bind_dn == self.spec_config().bind_dn,
            r.domain == self.spec_config().domain,
            r.duration_ms == duration_ms,
            r.ok == outcome is Ok,
            match outcome {
                Ok(entries) => {
                    &&& r.sample_users@.map_values(|s: SampleUser| s.fields()) == capped_samples(
                        samples_of(entries@, self.spec_config().ldap_flavor),
                    )
                    &&& r.users_found == r.sample_users.len()
                    &&& r.users_found <= max_sample_users()
                    &&& r.message is None
                },
                Err(m) => {
                    &&& r.sample_users.len() == 0
                    &&& r.users_found == 0
                    &&& r.message == Some(m)
                },
            },
    {
        match outcome {
            Ok(entries) => {
                let mut sample_users = self.sample_users(entries.as_slice());
                let ghost all = sample_users@;
                sample_users.truncate(5);
                proof {
                    if all.len() > 5 {
                        assert(sample_users@.map_values(|s: SampleUser| s.fields())
                            =~= all.map_values(|s: SampleUser| s.fields()).take(5));
                    }
                }
                LdapTestResult {
                    ok: true,
                    uri,
                    bind_dn: self.config.bind_dn.clone(),
                    domain: self.config.domain.clone(),
                    users_found: sample_users.len(),
                    sample_users,
                    duration_ms,
                    message: None,
                }
            },
            Err(m) => LdapTestResult {
                ok: false,
                uri,
                bind_dn: self.config.bind_dn.clone(),
                domain: self.config.domain.clone(),
                users_found: 0,
                sample_users: Vec::new(),
                duration_ms,
                message: Some(m),
            },
        }
    }
}

/// Page accounting of a paged LDAP search: each `page_size` entries make a
/// page, and the search stops once `max_pages` pages are complete.
pub struct PageCounter {
    pub page_size: u32,
    pub max_pages: Option<u32>,
    pub entries: usize,
    pub pages: u32,
}

impl PageCounter {
    /// The counts agree: `pages` is the number of complete pages so far.
    pub open spec fn wf(self) -> bool {
        self.page_size > 0 && self.pages as int == (self.entries as int) / (self.page_size as int)
    }

    /// A counter before the first entry.
    pub fn new(page_size: u32, max_pages: Option<u32>) -> (r: PageCounter)
        ensures
            r == (PageCounter { page_size, max_pages, entries: 0, pages: 0 }),
            r.wf() <==> page_size > 0,
    {
        PageCounter { page_size, max_pages, entries: 0, pages: 0 }
    }

    /// Counts one more entry; returns whether the search should stop here.
    pub fn record_entry(&mut self) -> (stop: bool)
        requires
            old(self).wf(),
            old(self).entries < usize::MAX,
            (old(self).entries + 1) / (old(self).page_size as int) <= u32::MAX,
        ensures
            final(self).wf(),
            final(self).page_size == old(self).page_size,
            final(self).max_pages == old(self).max_pages,
            final(self).entries == old(self).entries + 1,
            stop == (((final(self).entries as int) % (final(self).page_size as int) == 0) && (
            final(self).max_pages matches Some(m) && final(self).pages >= m)),
    {
        let ghost n: int = self.entries + 1;
        let ghost ps: int = self.page_size as int;
        self.entries = self.entries + 1;
        if self.entries % (self.page_size as usize) == 0 {
            proof {
                assert((n / ps) == (n - 1) / ps + 1) by (nonlinear_arith)
                    requires
                        ps > 0,
                        n % ps == 0,
                        n >= 1,
                ;
            }
            self.pages = self.pages + 1;
            match self.max_pages {
                Some(m) => self.pages >= m,
                None => false,
            }
        } else {
            proof {
                assert((n / ps) == (n - 1) / ps) by (nonlinear_arith)
                    requires
                        ps > 0,
                        n % ps != 0,
                        n >= 1,
                ;
            }
            false
        }
    }
}


/// The sample of an entry shows the user event the entry maps to: its name,
/// identifier and groups, and the DN of the entry itself.
pub proof fn lemma_sample_is_mapped_event(
    ev: CatalogEvent,
    e: LdapEntry,
    ad: AdConfig,
    tenant: Seq<char>,
)
    requires
        is_user_event_of(ev, e, ad, tenant),
    ensures
        sample_of(e, ad.ldap_flavor) == Some(
            (ev.name@, ev.sid@, ev.groups.deep_view(), ev.attributes.dn@),
        ),
        ev.attributes.dn@ == e.dn@,
{
}

/// Every sample of a search result comes from one of its entries, and shows
/// that entry's DN; each entry with a username gives one.
pub proof fn lemma_samples_come_from_entries(entries: Seq<LdapEntry>, flavor: LdapFlavor)
    ensures
        forall|j: int|
            #![trigger samples_of(entries, flavor)[j]]
            0 <= j < samples_of(entries, flavor).len() ==> exists|i: int|
                #![trigger entries[i]]
                0 <= i < entries.len() && sample_of(entries[i], flavor) == Some(
                    samples_of(entries, flavor)[j],
                ) && samples_of(entries, flavor)[j].3 == entries[i].dn@,
        forall|i: int|
            #![trigger entries[i]]
            0 <= i < entries.len() ==> (sample_of(entries[i], flavor) is Some <==> entry_username(
                entries[i],
                flavor,
            ) is Some) && (sample_of(entries[i], flavor) matches Some(s) ==> samples_of(
                entries,
                flavor,
            ).contains(s)),
    decreases entries.len(),
{
    if entries.len() > 0 {
        let prev = entries.drop_last();
        let last = entries.last();
        lemma_samples_come_from_entries(prev, flavor);
        let sp = samples_of(prev, flavor);
        let sa = samples_of(entries, flavor);
        assert forall|j: int| #![trigger sa[j]] 0 <= j < sa.len() implies exists|i: int|
            #![trigger entries[i]]
            0 <= i < entries.len() && sample_of(entries[i], flavor) == Some(sa[j]) && sa[j].3
                == entries[i].dn@ by {
            if j < sp.len() {
                assert(sa[j] == sp[j]);
                let i = choose|i: int|
                    #![trigger prev[i]]
                    0 <= i < prev.len() && sample_of(prev[i], flavor) == Some(sp[j]) && sp[j].3
                        == prev[i].dn@;
                assert(entries[i] == prev[i]);
            } else {
                assert(entries[entries.len() - 1] == last);
            }
        }
        assert forall|i: int| #![trigger entries[i]] 0 <= i < entries.len() implies (sample_of(
            entries[i],
            flavor,
        ) is Some <==> entry_username(entries[i], flavor) is Some) && (sample_of(
            entries[i],
            flavor,
        ) matches Some(s) ==> sa.contains(s)) by {
            if let Some(s) = sample_of(entries[i], flavor) {
                if i < prev.len() {
                    assert(prev[i] == entries[i]);
                    let k = choose|k: int| 0 <= k < sp.len() && sp[k] == s;
                    assert(sa[k] == s);
                } else {
                    assert(sa[sa.len() - 1] == s);
                }
            }
        }
    }
}

/// The connection test shows the first samples in order: as many as there
/// are, up to five.
pub proof fn lemma_capped_samples_prefix(
    s: Seq<(Seq<char>, Seq<char>, Seq<Seq<char>>, Seq<char>)>,
)
    ensures
        capped_samples(s).len() == if s.len() <= 5 {
            s.len()
        } else {
            5
        },
        forall|j: int|
            #![trigger capped_samples(s)[j]]
            0 <= j < capped_samples(s).len() ==> capped_samples(s)[j] == s[j],
{
}

} // verus!
