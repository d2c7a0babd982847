use collector::ad::mapper::{
    cn_from_dn, groups_from_member_of, map_user_entry, max_usn_from_entries, user_search_attrs,
    user_search_filter, LdapAttribute, LdapEntry, MapError,
};
use collector::config::{AdConfig, LdapFlavor};
use collector::events::CatalogObjectType;

fn ad_config(flavor: LdapFlavor, use_usn_changed: bool) -> AdConfig {
    AdConfig {
        enabled: true,
        domain: "corp.local".into(),
        ldap_uris: vec![],
        base_dn: "DC=corp,DC=local".into(),
        bind_dn: "cn=svc".into(),
        bind_password_ref: "X".into(),
        sync_interval_secs: 3600,
        page_size: 1000,
        use_usn_changed,
        ldap_flavor: flavor,
        allow_insecure_ldap: false,
    }
}

fn attr(name: &str, values: &[&str]) -> LdapAttribute {
    LdapAttribute { name: name.into(), values: values.iter().map(|v| v.to_string()).collect() }
}

fn entry(dn: &str, attrs: Vec<LdapAttribute>) -> LdapEntry {
    LdapEntry { dn: dn.into(), attrs }
}

#[test]
fn parses_group_cns() {
    let groups = groups_from_member_of(&[
        "CN=Engineering,OU=Groups,DC=corp,DC=local".into(),
        "CN=VPN-Users,OU=Groups,DC=corp,DC=local".into(),
    ]);
    assert_eq!(groups, vec!["Engineering", "VPN-Users"]);
}

#[test]
fn ad_filter_includes_disabled_bit() {
    let ad = AdConfig {
        enabled: true,
        domain: "corp.local".into(),
        ldap_uris: vec![],
        base_dn: "DC=corp,DC=local".into(),
        bind_dn: "cn=svc".into(),
        bind_password_ref: "X".into(),
        sync_interval_secs: 3600,
        page_size: 1000,
        use_usn_changed: true,
        ldap_flavor: LdapFlavor::Ad,
        allow_insecure_ldap: false,
    };
    let f = user_search_filter(&ad, None);
    assert!(f.contains("userAccountControl"));
    let inc = user_search_filter(&ad, Some("12345"));
    assert!(inc.contains("uSNChanged>=12345"));
}

#[test]
fn cn_from_dn_cases() {
    assert_eq!(cn_from_dn("CN=Engineering,OU=Groups"), Some("Engineering".to_string()));
    assert_eq!(cn_from_dn("cn=lower,dc=x"), Some("lower".to_string()));
    assert_eq!(cn_from_dn("OU=Groups,  CN=Second ,DC=x"), Some("Second".to_string()));
    assert_eq!(cn_from_dn("OU=Groups,DC=x"), None);
    assert_eq!(cn_from_dn("Cn=mixed,DC=x"), None);
    assert_eq!(cn_from_dn(""), None);
    assert_eq!(cn_from_dn("CN="), Some(String::new()));
    assert_eq!(cn_from_dn("\u{3000}CN=Wide"), Some("Wide".to_string()));
}

#[test]
fn groups_skip_dns_without_cn() {
    let groups = groups_from_member_of(&[
        "OU=NoCn,DC=corp".into(),
        "CN=Sales,OU=Groups".into(),
    ]);
    assert_eq!(groups, vec!["Sales"]);
    assert!(groups_from_member_of(&[]).is_empty());
}

#[test]
fn ad_filters_exact() {
    let full = user_search_filter(&ad_config(LdapFlavor::Ad, true), None);
    assert_eq!(
        full,
        "(&(&(objectClass=user)(objectCategory=person))(!(userAccountControl:1.2.840.113556.1.4.803:=2)))"
    );
    let inc = user_search_filter(&ad_config(LdapFlavor::Ad, true), Some("500100"));
    assert_eq!(
        inc,
        "(&(&(objectClass=user)(objectCategory=person))(!(userAccountControl:1.2.840.113556.1.4.803:=2))(uSNChanged>=500100))"
    );
    let no_usn = user_search_filter(&ad_config(LdapFlavor::Ad, false), Some("500100"));
    assert_eq!(no_usn, full);
}

#[test]
fn openldap_filters_escape_cursor() {
    let ol = ad_config(LdapFlavor::Openldap, true);
    assert_eq!(user_search_filter(&ol, None), "(objectClass=inetOrgPerson)");
    assert_eq!(
        user_search_filter(&ol, Some("2024*)(uid=\\x\0")),
        "(&(objectClass=inetOrgPerson)(modifyTimestamp>=2024\\2a\\29\\28uid=\\5cx\\00))"
    );
    assert_eq!(
        user_search_filter(&ol, Some("20240101000000Z")),
        "(&(objectClass=inetOrgPerson)(modifyTimestamp>=20240101000000Z))"
    );
}

#[test]
fn search_attrs_per_flavor() {
    assert_eq!(
        user_search_attrs(LdapFlavor::Ad),
        vec!["sAMAccountName", "userPrincipalName", "objectSid", "memberOf", "distinguishedName", "uSNChanged"]
    );
    assert_eq!(
        user_search_attrs(LdapFlavor::Openldap),
        vec!["uid", "cn", "mail", "memberOf", "entryUUID", "modifyTimestamp"]
    );
}

#[test]
fn max_usn_numeric_and_text() {
    let es = vec![
        entry("a", vec![attr("uSNChanged", &["9"])]),
        entry("b", vec![attr("uSNChanged", &["500110"])]),
        entry("c", vec![attr("uSNChanged", &["500100"])]),
        entry("d", vec![attr("other", &["x"])]),
    ];
    assert_eq!(max_usn_from_entries(&es, LdapFlavor::Ad), Some("500110".to_string()));
    // lowercase attribute name is found too
    let lower = vec![entry("a", vec![attr("usnchanged", &["7"])])];
    assert_eq!(max_usn_from_entries(&lower, LdapFlavor::Ad), Some("7".to_string()));
    // textual order for OpenLDAP: "9" > "10"
    let ts = vec![
        entry("a", vec![attr("modifyTimestamp", &["10"])]),
        entry("b", vec![attr("modifyTimestamp", &["9"])]),
    ];
    assert_eq!(max_usn_from_entries(&ts, LdapFlavor::Openldap), Some("9".to_string()));
    // numeric order for AD: "10" > "9"
    let nums = vec![
        entry("a", vec![attr("uSNChanged", &["10"])]),
        entry("b", vec![attr("uSNChanged", &["9"])]),
    ];
    assert_eq!(max_usn_from_entries(&nums, LdapFlavor::Ad), Some("10".to_string()));
    // equal numbers: the later one wins
    let eq = vec![
        entry("a", vec![attr("uSNChanged", &["007"])]),
        entry("b", vec![attr("uSNChanged", &["7"])]),
    ];
    assert_eq!(max_usn_from_entries(&eq, LdapFlavor::Ad), Some("7".to_string()));
    // a non-number is compared as text
    let mixed = vec![
        entry("a", vec![attr("uSNChanged", &["abc"])]),
        entry("b", vec![attr("uSNChanged", &["5"])]),
    ];
    assert_eq!(max_usn_from_entries(&mixed, LdapFlavor::Ad), Some("abc".to_string()));
    // "+5" parses as 5; 18446744073709551616 does not fit and compares as text
    let plus = vec![
        entry("a", vec![attr("uSNChanged", &["+5"])]),
        entry("b", vec![attr("uSNChanged", &["4"])]),
    ];
    assert_eq!(max_usn_from_entries(&plus, LdapFlavor::Ad), Some("+5".to_string()));
    let big = vec![
        entry("a", vec![attr("uSNChanged", &["18446744073709551616"])]),
        entry("b", vec![attr("uSNChanged", &["2"])]),
    ];
    assert_eq!(max_usn_from_entries(&big, LdapFlavor::Ad), Some("2".to_string()));
    assert_eq!(max_usn_from_entries(&[], LdapFlavor::Ad), None);
}

#[test]
fn maps_ad_user_entry() {
    let ad = ad_config(LdapFlavor::Ad, true);
    let e = entry(
        "CN=Alice,OU=Users,DC=corp,DC=local",
        vec![
            attr("sAMAccountName", &["alice"]),
            attr("objectSid", &["S-1-5-21-1"]),
            attr("mail", &["alice@corp.local"]),
            attr("memberOf", &["CN=Engineering,OU=Groups", "CN=VPN-Users,OU=Groups"]),
        ],
    );
    let ev = map_user_entry(&e, &ad, "tenant-1").unwrap();
    assert_eq!(ev.name, "alice");
    assert_eq!(ev.sid, "S-1-5-21-1");
    assert_eq!(ev.domain, "corp.local");
    assert_eq!(ev.tenant_id, "tenant-1");
    assert_eq!(ev.object_type, CatalogObjectType::User);
    assert_eq!(ev.groups, vec!["Engineering", "VPN-Users"]);
    assert_eq!(ev.attributes.dn, "CN=Alice,OU=Users,DC=corp,DC=local");
    assert_eq!(ev.attributes.upn.as_deref(), Some("alice@corp.local"));
    assert_eq!(ev.attributes.ldap_flavor, "ad");
}

#[test]
fn maps_openldap_entry_with_fallbacks() {
    let ol = ad_config(LdapFlavor::Openldap, true);
    let e = entry(
        "uid=bob,ou=users,dc=example,dc=local",
        vec![attr("cn", &["Bob"]), attr("uid", &[]), attr("memberof", &["cn=devs,ou=groups"])],
    );
    let ev = map_user_entry(&e, &ol, "t").unwrap();
    // `uid` has no value, so `cn` is used; no entryUUID, so the DN is the sid
    assert_eq!(ev.name, "Bob");
    assert_eq!(ev.sid, "uid=bob,ou=users,dc=example,dc=local");
    assert_eq!(ev.groups, vec!["devs"]);
    assert_eq!(ev.attributes.upn, None);
    assert_eq!(ev.attributes.ldap_flavor, "openldap");
}

#[test]
fn missing_username_is_an_error() {
    let ad = ad_config(LdapFlavor::Ad, true);
    let e = entry("CN=Ghost,DC=corp", vec![attr("objectSid", &["S-1"])]);
    match map_user_entry(&e, &ad, "t") {
        Err(err) => {
            let MapError::MissingUsername { dn } = &err;
            assert_eq!(dn, "CN=Ghost,DC=corp");
            assert_eq!(err.message(), "missing username on CN=Ghost,DC=corp");
        }
        Ok(_) => panic!("entry without username must not map"),
    }
}

#[test]
fn distinct_cursors_give_distinct_filters() {
    let ol = ad_config(LdapFlavor::Openldap, true);
    let a = user_search_filter(&ol, Some("\\2a"));
    let b = user_search_filter(&ol, Some("*"));
    assert_ne!(a, b);
    assert_eq!(b, "(&(objectClass=inetOrgPerson)(modifyTimestamp>=\\2a))");
    assert_eq!(a, "(&(objectClass=inetOrgPerson)(modifyTimestamp>=\\5c2a))");
}

#[test]
fn cursor_order_does_not_depend_on_entry_order() {
    let fwd = vec![
        entry("a", vec![attr("uSNChanged", &["10"])]),
        entry("b", vec![attr("uSNChanged", &["9"])]),
    ];
    let rev = vec![
        entry("b", vec![attr("uSNChanged", &["9"])]),
        entry("a", vec![attr("uSNChanged", &["10"])]),
    ];
    assert_eq!(max_usn_from_entries(&fwd, LdapFlavor::Ad), Some("10".to_string()));
    assert_eq!(max_usn_from_entries(&rev, LdapFlavor::Ad), Some("10".to_string()));
}

#[test]
fn mapped_event_time_is_well_formed() {
    let ad = ad_config(LdapFlavor::Ad, true);
    let e = entry("CN=a", vec![attr("sAMAccountName", &["a"])]);
    let ev = map_user_entry(&e, &ad, "t").unwrap();
    assert!(ev.observed_at.nanos < 1_000_000_000);
}
