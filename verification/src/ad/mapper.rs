//! Map LDAP entries to catalog events, parse group CNs from `memberOf`, and
//! build the search filters and cursors of the LDAP sync.

use std::cmp::Ordering;

use vstd::prelude::*;

use crate::config::{AdConfig, LdapFlavor};
use crate::events::{
    new_event_id, now_utc, CatalogAttributes, CatalogEvent, CatalogObjectType, UtcTimestamp,
};
use crate::text::{
    ascii_lower, chars_of, owned, push_all, push_char, has_prefix, string_from_range, str_equals, to_ascii_lower, trim,
    trim_bounds,
};

verus! {

/// One attribute of an LDAP entry: its name and its values, in server order.
#[derive(Debug)]
pub struct LdapAttribute {
    pub name: String,
    pub values: Vec<String>,
}

/// An LDAP search result entry (what `ldap3::SearchEntry` holds as text).
#[derive(Debug)]
pub struct LdapEntry {
    pub dn: String,
    pub attrs: Vec<LdapAttribute>,
}

impl LdapAttribute {
    pub open spec fn pair(self) -> (Seq<char>, Seq<Seq<char>>) {
        (self.name@, self.values.deep_view())
    }
}

/// The attributes of an entry as (name, values) pairs.
pub open spec fn attrs_view(attrs: Seq<LdapAttribute>) -> Seq<(Seq<char>, Seq<Seq<char>>)> {
    attrs.map_values(|a: LdapAttribute| a.pair())
}

/// The values stored under exactly `key` (the first such attribute).
pub open spec fn lookup_attr(attrs: Seq<(Seq<char>, Seq<Seq<char>>)>, key: Seq<char>) -> Option<
    Seq<Seq<char>>,
>
    decreases attrs.len(),
{
    if attrs.len() == 0 {
        None
    } else if attrs[0].0 == key {
        Some(attrs[0].1)
    } else {
        lookup_attr(attrs.drop_first(), key)
    }
}

/// Lookup under `key`, or else under its lowercase spelling.
pub open spec fn lookup_attr_ci(attrs: Seq<(Seq<char>, Seq<Seq<char>>)>, key: Seq<char>) -> Option<
    Seq<Seq<char>>,
> {
    match lookup_attr(attrs, key) {
        Some(v) => Some(v),
        None => lookup_attr(attrs, ascii_lower(key)),
    }
}

/// The first value of the first key (in order) whose lookup gives a non-empty list.
pub open spec fn first_attr_value(attrs: Seq<(Seq<char>, Seq<Seq<char>>)>, keys: Seq<Seq<char>>) -> Option<
    Seq<char>,
>
    decreases keys.len(),
{
    if keys.len() == 0 {
        None
    } else {
        match lookup_attr_ci(attrs, keys[0]) {
            Some(vals) => if vals.len() > 0 {
                Some(vals[0])
            } else {
                first_attr_value(attrs, keys.drop_first())
            },
            None => first_attr_value(attrs, keys.drop_first()),
        }
    }
}

/// Values of the attribute named exactly `key`.
fn find_attr<'a>(attrs: &'a Vec<LdapAttribute>, key: &str) -> (r: Option<&'a Vec<String>>)
    ensures
        match r {
            Some(v) => lookup_attr(attrs_view(attrs@), key@) == Some(v.deep_view()),
            None => lookup_attr(attrs_view(attrs@), key@) is None,
        },
{
    let ghost av = attrs_view(attrs@);
    assert(av.skip(0) == av);
    let mut i: usize = 0;
    while i < attrs.len()
        invariant
            i <= attrs.len(),
            av == attrs_view(attrs@),
            lookup_attr(av, key@) == lookup_attr(av.skip(i as int), key@),
        decreases attrs.len() - i,
    {
        assert(av.skip(i as int)[0] == attrs@[i as int].pair());
        if str_equals(attrs[i].name.as_str(), key) {
            return Some(&attrs[i].values);
        }
        assert(av.skip(i as int).drop_first() == av.skip(i + 1));
        i = i + 1;
    }
    assert(av.skip(i as int).len() == 0);
    None
}

/// Values of the attribute named `key`, or else of its lowercase spelling
/// (`attrs.get(key).or_else(|| attrs.get(&key.to_lowercase()))`).
fn find_attr_ci<'a>(attrs: &'a Vec<LdapAttribute>, key: &str) -> (r: Option<&'a Vec<String>>)
    ensures
        match r {
            Some(v) => lookup_attr_ci(attrs_view(attrs@), key@) == Some(v.deep_view()),
            None => lookup_attr_ci(attrs_view(attrs@), key@) is None,
        },
{
    match find_attr(attrs, key) {
        Some(v) => Some(v),
        None => {
            let lower = to_ascii_lower(key);
            find_attr(attrs, lower.as_str())
        },
    }
}

/// First value of the first listed attribute that has one. The keys are the
/// collector's own ASCII attribute names, for which ASCII lowercasing is
/// `str::to_lowercase`.
fn first_attr(attrs: &Vec<LdapAttribute>, keys: &[&str]) -> (r: Option<String>)
    ensures
        r.deep_view() == first_attr_value(attrs_view(attrs@), keys.deep_view()),
{
    let ghost av = attrs_view(attrs@);
    let ghost kv = keys.deep_view();
    assert(kv.skip(0) == kv);
    let mut i: usize = 0;
    while i < keys.len()
        invariant
            i <= keys.len(),
            av == attrs_view(attrs@),
            kv == keys.deep_view(),
            first_attr_value(av, kv) == first_attr_value(av, kv.skip(i as int)),
        decreases keys.len() - i,
    {
        assert(kv.skip(i as int)[0] == keys[i as int]@);
        assert(kv.skip(i as int).drop_first() == kv.skip(i + 1));
        if let Some(vals) = find_attr_ci(attrs, keys[i]) {
            if vals.len() > 0 {
                return Some(vals[0].clone());
            }
        }
        i = i + 1;
    }
    assert(kv.skip(i as int).len() == 0);
    None
}

pub open spec fn spec_username_keys(flavor: LdapFlavor) -> Seq<Seq<char>> {
    match flavor {
        LdapFlavor::Ad => seq!["sAMAccountName"@],
        LdapFlavor::Openldap => seq!["uid"@, "cn"@],
    }
}

pub open spec fn spec_sid_keys(flavor: LdapFlavor) -> Seq<Seq<char>> {
    match flavor {
        LdapFlavor::Ad => seq!["objectSid"@],
        LdapFlavor::Openldap => seq!["entryUUID"@],
    }
}

pub open spec fn spec_flavor_str(flavor: LdapFlavor) -> Seq<char> {
    match flavor {
        LdapFlavor::Ad => "ad"@,
        LdapFlavor::Openldap => "openldap"@,
    }
}

/// Attributes that may hold the account name.
fn username_keys(flavor: LdapFlavor) -> (r: &'static [&'static str])
    ensures
        r.deep_view() == spec_username_keys(flavor),
{
    match flavor {
        LdapFlavor::Ad => {
            let r: &'static [&'static str] = &["sAMAccountName"];
            assert(r.deep_view() =~= spec_username_keys(flavor));
            r
        },
        LdapFlavor::Openldap => {
            let r: &'static [&'static str] = &["uid", "cn"];
            assert(r.deep_view() =~= spec_username_keys(flavor));
            r
        },
    }
}


/// Attributes that may hold the object's stable identifier.
fn sid_keys(flavor: LdapFlavor) -> (r: &'static [&'static str])
    ensures
        r.deep_view() == spec_sid_keys(flavor),
{
    match flavor {
        LdapFlavor::Ad => {
            let r: &'static [&'static str] = &["objectSid"];
            assert(r.deep_view() =~= spec_sid_keys(flavor));
            r
        },
        LdapFlavor::Openldap => {
            let r: &'static [&'static str] = &["entryUUID"];
            assert(r.deep_view() =~= spec_sid_keys(flavor));
            r
        },
    }
}

/// The name of the flavor as written in configuration and events.
fn flavor_str(flavor: LdapFlavor) -> (r: &'static str)
    ensures
        r@ == spec_flavor_str(flavor),
{
    match flavor {
        LdapFlavor::Ad => "ad",
        LdapFlavor::Openldap => "openldap",
    }
}

/// Index of the first `,` in `s`, or `s.len()` when there is none.
pub open spec fn comma_index(s: Seq<char>) -> nat
    decreases s.len(),
{
    if s.len() == 0 {
        0
    } else if s[0] == ',' {
        0
    } else {
        1 + comma_index(s.drop_first())
    }
}

/// The CN of one RDN: the trimmed part with its `CN=` (or `cn=`) prefix removed.
pub open spec fn cn_of_part(part: Seq<char>) -> Option<Seq<char>> {
    let t = trim(part);
    if has_prefix(t, seq!['C', 'N', '=']) || has_prefix(t, seq!['c', 'n', '=']) {
        Some(t.skip(3))
    } else {
        None
    }
}

/// The CN of the first comma-separated part of `dn` that has one
/// (`dn.split(',').find_map(..)`).
pub open spec fn cn_of_dn(dn: Seq<char>) -> Option<Seq<char>>
    decreases dn.len(),
{
    let k = comma_index(dn);
    match cn_of_part(dn.take(k as int)) {
        Some(v) => Some(v),
        None => if k >= dn.len() {
            None
        } else {
            cn_of_dn(dn.skip((k + 1) as int))
        },
    }
}

/// Group names of the DNs in `memberOf`, in order, skipping DNs without a CN.
pub open spec fn groups_of(dns: Seq<Seq<char>>) -> Seq<Seq<char>>
    decreases dns.len(),
{
    if dns.len() == 0 {
        seq![]
    } else {
        groups_of(dns.drop_last()) + match cn_of_dn(dns.last()) {
            Some(g) => seq![g],
            None => seq![],
        }
    }
}

proof fn lemma_comma_index_at(s: Seq<char>, m: int)
    requires
        0 <= m <= s.len(),
        forall|j: int| 0 <= j < m ==> s[j] != ',',
        m == s.len() || s[m] == ',',
    ensures
        comma_index(s) == m,
    decreases m,
{
    if m > 0 {
        lemma_comma_index_at(s.drop_first(), m - 1);
    }
}

/// The common name of a distinguished name: the value of its first `CN=` part.
pub fn cn_from_dn(dn: &str) -> (r: Option<String>)
    ensures
        r.deep_view() == cn_of_dn(dn@),
{
    let c = chars_of(dn);
    let n = c.len();
    let mut start: usize = 0;
    assert(c@.skip(0) == c@);
    loop
        invariant
            start <= n,
            n == c.len(),
            c@ == dn@,
            cn_of_dn(c@) == cn_of_dn(c@.skip(start as int)),
        decreases n - start,
    {
        let mut k = start;
        while k < n && c[k] != ','
            invariant
                start <= k <= n,
                n == c.len(),
                forall|j: int| start <= j < k ==> c@[j] != ',',
            decreases n - k,
        {
            k = k + 1;
        }
        let ghost rest = c@.skip(start as int);
        proof {
            lemma_comma_index_at(rest, k - start);
            assert(rest.take(k - start) == c@.subrange(start as int, k as int));
        }
        let (lo, hi) = trim_bounds(&c, start, k);
        let ghost t = c@.subrange(lo as int, hi as int);
        if hi - lo >= 3 && ((c[lo] == 'C' && c[lo + 1] == 'N') || (c[lo] == 'c' && c[lo + 1] == 'n'))
            && c[lo + 2] == '=' {
            proof {
                assert(t.take(3) =~= seq![c@[lo as int], c@[lo + 1], c@[lo + 2]]);
                assert(t.skip(3) == c@.subrange(lo + 3, hi as int));
            }
            return Some(string_from_range(&c, lo + 3, hi));
        }
        proof {
            if t.len() >= 3 {
                assert(t.take(3)[0] == c@[lo as int]);
                assert(t.take(3)[1] == c@[lo + 1]);
                assert(t.take(3)[2] == c@[lo + 2]);
            }
        }
        if k == n {
            return None;
        }
        assert(rest.skip(k - start + 1) == c@.skip(k + 1));
        start = k + 1;
    }
}

/// Group names from the `memberOf` DNs of a user.
pub fn groups_from_member_of(values: &[String]) -> (r: Vec<String>)
    ensures
        r.deep_view() == groups_of(values.deep_view()),
{
    let ghost dv = values.deep_view();
    let mut r: Vec<String> = Vec::new();
    let mut i: usize = 0;
    while i < values.len()
        invariant
            i <= values.len(),
            dv == values.deep_view(),
            r.deep_view() == groups_of(dv.take(i as int)),
        decreases values.len() - i,
    {
        let ghost before = r.deep_view();
        assert(dv.take(i + 1).drop_last() == dv.take(i as int));
        assert(dv.take(i + 1).last() == values[i as int]@);
        match cn_from_dn(values[i].as_str()) {
            Some(g) => {
                r.push(g);
                assert(r.deep_view() =~= before + seq![g@]);
            },
            None => {
                assert(before + Seq::<Seq<char>>::empty() =~= before);
            },
        }
        i = i + 1;
    }
    assert(dv.take(values.len() as int) == dv);
    r
}


/// RFC 4515 escape of one character of an assertion value: `\`, `*`, `(`, `)`
/// and NUL become `\5c`, `\2a`, `\28`, `\29`, `\00`; any other character is kept.
pub open spec fn escape_char(c: char) -> Seq<char> {
    if c == '\\' {
        seq!['\\', '5', 'c']
    } else if c == '*' {
        seq!['\\', '2', 'a']
    } else if c == '(' {
        seq!['\\', '2', '8']
    } else if c == ')' {
        seq!['\\', '2', '9']
    } else if c == '\0' {
        seq!['\\', '0', '0']
    } else {
        seq![c]
    }
}

/// The escaped value: each character replaced by its escape.
pub open spec fn escape_value(s: Seq<char>) -> Seq<char>
    decreases s.len(),
{
    if s.len() == 0 {
        seq![]
    } else {
        escape_value(s.drop_last()) + escape_char(s.last())
    }
}

/// Escapes the special characters of an LDAP filter assertion value.
fn ldap_escape_filter(value: &str) -> (r: String)
    ensures
        r@ == escape_value(value@),
{
    let c = chars_of(value);
    let mut r = String::new();
    let mut i: usize = 0;
    while i < c.len()
        invariant
            i <= c.len(),
            c@ == value@,
            r@ == escape_value(c@.take(i as int)),
        decreases c.len() - i,
    {
        let ch = c[i];
        assert(c@.take(i + 1).drop_last() == c@.take(i as int));
        assert(c@.take(i + 1).last() == ch);
        if ch == '\\' {
            push_char(&mut r, '\\');
            push_char(&mut r, '5');
            push_char(&mut r, 'c');
        } else if ch == '*' {
            push_char(&mut r, '\\');
            push_char(&mut r, '2');
            push_char(&mut r, 'a');
        } else if ch == '(' {
            push_char(&mut r, '\\');
            push_char(&mut r, '2');
            push_char(&mut r, '8');
        } else if ch == ')' {
            push_char(&mut r, '\\');
            push_char(&mut r, '2');
            push_char(&mut r, '9');
        } else if ch == '\0' {
            push_char(&mut r, '\\');
            push_char(&mut r, '0');
            push_char(&mut r, '0');
        } else {
            push_char(&mut r, ch);
        }
        assert(r@ =~= escape_value(c@.take(i as int)) + escape_char(ch));
        i = i + 1;
    }
    assert(c@.take(c.len() as int) == c@);
    r
}

/// Matches active AD user accounts (person objects of class user).
pub open spec fn ad_person_clause() -> Seq<char> {
    "(&(objectClass=user)(objectCategory=person))"@
}

/// Excludes AD accounts whose `userAccountControl` has ACCOUNTDISABLE (bit 2).
pub open spec fn ad_enabled_clause() -> Seq<char> {
    "(!(userAccountControl:1.2.840.113556.1.4.803:=2))"@
}

/// The LDAP filter of the user search.
pub open spec fn spec_user_search_filter(
    flavor: LdapFlavor,
    use_usn_changed: bool,
    cursor: Option<Seq<char>>,
) -> Seq<char> {
    match flavor {
        LdapFlavor::Ad => if use_usn_changed && cursor is Some {
            "(&"@ + ad_person_clause() + ad_enabled_clause() + "(uSNChanged>="@ + cursor->0 + "))"@
        } else {
            "(&"@ + ad_person_clause() + ad_enabled_clause() + ")"@
        },
        LdapFlavor::Openldap => match cursor {
            Some(ts) => "(&(objectClass=inetOrgPerson)(modifyTimestamp>="@ + escape_value(ts)
                + "))"@,
            None => "(objectClass=inetOrgPerson)"@,
        },
    }
}

/// The LDAP filter for the user search: all enabled users, or, with a cursor,
/// those changed at or after it.
pub fn user_search_filter(ad: &AdConfig, usn_cursor: Option<&str>) -> (r: String)
    ensures
        r@ == spec_user_search_filter(ad.ldap_flavor, ad.use_usn_changed, usn_cursor.deep_view()),
{
    match ad.ldap_flavor {
        LdapFlavor::Ad => {
            let mut f = String::new();
            push_all(&mut f, "(&");
            push_all(&mut f, "(&(objectClass=user)(objectCategory=person))");
            push_all(&mut f, "(!(userAccountControl:1.2.840.113556.1.4.803:=2))");
            if ad.use_usn_changed {
                if let Some(usn) = usn_cursor {
                    push_all(&mut f, "(uSNChanged>=");
                    push_all(&mut f, usn);
                    push_all(&mut f, "))");
                    return f;
                }
            }
            push_all(&mut f, ")");
            f
        },
        LdapFlavor::Openldap => {
            if let Some(ts) = usn_cursor {
                let mut f = String::new();
                push_all(&mut f, "(&(objectClass=inetOrgPerson)(modifyTimestamp>=");
                let escaped = ldap_escape_filter(ts);
                push_all(&mut f, escaped.as_str());
                push_all(&mut f, "))");
                return f;
            }
            owned("(objectClass=inetOrgPerson)")
        },
    }
}

pub open spec fn spec_user_search_attrs(flavor: LdapFlavor) -> Seq<Seq<char>> {
    match flavor {
        LdapFlavor::Ad => seq![
            "sAMAccountName"@,
            "userPrincipalName"@,
            "objectSid"@,
            "memberOf"@,
            "distinguishedName"@,
            "uSNChanged"@,
        ],
        LdapFlavor::Openldap => seq![
            "uid"@,
            "cn"@,
            "mail"@,
            "memberOf"@,
            "entryUUID"@,
            "modifyTimestamp"@,
        ],
    }
}

/// Attributes requested by the user search.
pub fn user_search_attrs(flavor: LdapFlavor) -> (r: Vec<&'static str>)
    ensures
        r.deep_view() == spec_user_search_attrs(flavor),
{
    match flavor {
        LdapFlavor::Ad => {
            let r = vec![
                "sAMAccountName",
                "userPrincipalName",
                "objectSid",
                "memberOf",
                "distinguishedName",
                "uSNChanged",
            ];
            assert(r.deep_view() =~= spec_user_search_attrs(flavor));
            r
        },
        LdapFlavor::Openldap => {
            let r = vec!["uid", "cn", "mail", "memberOf", "entryUUID", "modifyTimestamp"];
            assert(r.deep_view() =~= spec_user_search_attrs(flavor));
            r
        },
    }
}


/// An ASCII decimal digit.
pub open spec fn is_digit(c: char) -> bool {
    '0' <= c && c <= '9'
}

pub open spec fn digit_value(c: char) -> nat {
    ((c as u32) - ('0' as u32)) as nat
}

/// The number written by the decimal digits `d`.
pub open spec fn decimal_value(d: Seq<char>) -> nat
    decreases d.len(),
{
    if d.len() == 0 {
        0
    } else {
        decimal_value(d.drop_last()) * 10 + digit_value(d.last())
    }
}

/// The digits of an unsigned number: the text after an optional leading `+`.
pub open spec fn unsigned_digits(s: Seq<char>) -> Seq<char> {
    if s.len() > 0 && s[0] == '+' {
        s.drop_first()
    } else {
        s
    }
}

/// Every character is an ASCII digit.
pub open spec fn all_digits(d: Seq<char>) -> bool {
    forall|i: int| 0 <= i < d.len() ==> is_digit(#[trigger] d[i])
}

/// What `str::parse::<u64>` accepts: an optional `+`, then one or more ASCII
/// digits whose value fits in 64 bits.
pub open spec fn parsed_u64(s: Seq<char>) -> Option<u64> {
    let d = unsigned_digits(s);
    if d.len() > 0 && all_digits(d) && decimal_value(d) <= u64::MAX {
        Some(decimal_value(d) as u64)
    } else {
        None
    }
}

proof fn lemma_decimal_value_grows(d: Seq<char>, j: int)
    requires
        0 <= j <= d.len(),
    ensures
        decimal_value(d.take(j)) <= decimal_value(d),
    decreases d.len() - j,
{
    if j < d.len() {
        lemma_decimal_value_grows(d, j + 1);
        assert(d.take(j + 1).drop_last() == d.take(j));
    } else {
        assert(d.take(j) == d);
    }
}

/// `s.parse::<u64>().ok()`.
fn parse_u64(s: &str) -> (r: Option<u64>)
    ensures
        r == parsed_u64(s@),
{
    let c = chars_of(s);
    let mut i: usize = 0;
    if c.len() > 0 && c[0] == '+' {
        i = 1;
    }
    let start = i;
    let ghost d = unsigned_digits(c@);
    assert(d == c@.skip(start as int));
    if start == c.len() {
        return None;
    }
    let mut v: u64 = 0;
    while i < c.len()
        invariant
            start <= i <= c.len(),
            c@ == s@,
            d == c@.skip(start as int),
            d == unsigned_digits(s@),
            d.len() > 0,
            forall|j: int| 0 <= j < i - start ==> is_digit(d[j]),
            v == decimal_value(d.take(i - start)),
        decreases c.len() - i,
    {
        let ch = c[i];
        assert(d[i - start] == ch);
        if !('0' <= ch && ch <= '9') {
            assert(!is_digit(d[i - start]));
            return None;
        }
        let dv = ((ch as u32) - ('0' as u32)) as u64;
        assert(d.take(i - start + 1).drop_last() == d.take(i - start));
        assert(d.take(i - start + 1).last() == ch);
        assert(digit_value(ch) == dv);
        assert(decimal_value(d.take(i - start + 1)) == v * 10 + dv);
        if v > (u64::MAX - dv) / 10 {
            proof {
                assert(v * 10 + dv > u64::MAX) by (nonlinear_arith)
                    requires
                        v > (u64::MAX - dv) / 10,
                        dv <= 9,
                ;
                lemma_decimal_value_grows(d, i - start + 1);
            }
            return None;
        }
        assert(v * 10 + dv <= u64::MAX) by (nonlinear_arith)
            requires
                v <= (u64::MAX - dv) / 10,
                dv <= 9,
        ;
        v = v * 10 + dv;
        i = i + 1;
    }
    assert(d.take(i - start) == d);
    Some(v)
}

/// Lexicographic order of character sequences (the order of `str::cmp`, since
/// UTF-8 byte order is code point order).
pub open spec fn lex_order(a: Seq<char>, b: Seq<char>) -> Ordering
    decreases a.len(),
{
    if a.len() == 0 && b.len() == 0 {
        Ordering::Equal
    } else if a.len() == 0 {
        Ordering::Less
    } else if b.len() == 0 {
        Ordering::Greater
    } else if a[0] < b[0] {
        Ordering::Less
    } else if a[0] > b[0] {
        Ordering::Greater
    } else {
        lex_order(a.drop_first(), b.drop_first())
    }
}

/// Sign of the lexicographic comparison of `a` and `b`: -1, 0 or 1.
pub open spec fn lex_sign(a: Seq<char>, b: Seq<char>) -> int
    decreases a.len(),
{
    if a.len() == 0 && b.len() == 0 {
        0
    } else if a.len() == 0 {
        -1
    } else if b.len() == 0 {
        1
    } else if a[0] < b[0] {
        -1
    } else if a[0] > b[0] {
        1
    } else {
        lex_sign(a.drop_first(), b.drop_first())
    }
}

/// Lexicographic comparison of two strings, as a sign.
fn lex_compare_sign(a: &str, b: &str) -> (r: i8)
    ensures
        r == lex_sign(a@, b@),
{
    let ca = chars_of(a);
    let cb = chars_of(b);
    let mut i: usize = 0;
    assert(ca@.skip(0) == ca@);
    assert(cb@.skip(0) == cb@);
    loop
        invariant
            i <= ca.len(),
            i <= cb.len(),
            ca@ == a@,
            cb@ == b@,
            lex_sign(a@, b@) == lex_sign(ca@.skip(i as int), cb@.skip(i as int)),
        decreases ca.len() - i,
    {
        if i == ca.len() && i == cb.len() {
            return 0;
        } else if i == ca.len() {
            return -1;
        } else if i == cb.len() {
            return 1;
        }
        assert(ca@.skip(i as int)[0] == ca@[i as int]);
        assert(cb@.skip(i as int)[0] == cb@[i as int]);
        if ca[i] < cb[i] {
            return -1;
        } else if ca[i] > cb[i] {
            return 1;
        }
        assert(ca@.skip(i as int).drop_first() == ca@.skip(i + 1));
        assert(cb@.skip(i as int).drop_first() == cb@.skip(i + 1));
        i = i + 1;
    }
}

proof fn lemma_lex_sign_order(a: Seq<char>, b: Seq<char>)
    ensures
        lex_order(a, b) == (if lex_sign(a, b) < 0 {
            Ordering::Less
        } else if lex_sign(a, b) == 0 {
            Ordering::Equal
        } else {
            Ordering::Greater
        }),
    decreases a.len(),
{
    if a.len() > 0 && b.len() > 0 && a[0] == b[0] {
        lemma_lex_sign_order(a.drop_first(), b.drop_first());
    }
}

/// `a.cmp(b)` on strings.
fn str_order(a: &str, b: &str) -> (r: Ordering)
    ensures
        r == lex_order(a@, b@),
{
    proof {
        lemma_lex_sign_order(a@, b@);
    }
    let sign = lex_compare_sign(a, b);
    if sign < 0 {
        Ordering::Less
    } else if sign == 0 {
        Ordering::Equal
    } else {
        Ordering::Greater
    }
}

/// Order of two cursor values: numeric when both parse as `u64`, else textual.
pub open spec fn numeric_order(a: Seq<char>, b: Seq<char>) -> Ordering {
    match (parsed_u64(a), parsed_u64(b)) {
        (Some(x), Some(y)) => if x < y {
            Ordering::Less
        } else if x == y {
            Ordering::Equal
        } else {
            Ordering::Greater
        },
        _ => lex_order(a, b),
    }
}

/// Compares two uSNChanged values numerically, or as text when either is not a number.
fn numeric_cmp(a: &str, b: &str) -> (r: Ordering)
    ensures
        r == numeric_order(a@, b@),
{
    match (parse_u64(a), parse_u64(b)) {
        (Some(x), Some(y)) => if x < y {
            Ordering::Less
        } else if x == y {
            Ordering::Equal
        } else {
            Ordering::Greater
        },
        _ => str_order(a, b),
    }
}

/// Whether the running maximum `acc` stays ahead of the next value `y`
/// (`Iterator::max_by` keeps the later of two equal elements).
pub open spec fn keeps_running_max(acc: Seq<char>, y: Seq<char>, numeric: bool) -> bool {
    (if numeric {
        numeric_order(acc, y)
    } else {
        lex_order(acc, y)
    }) == Ordering::Greater
}

/// Whether the running maximum `acc` stays ahead of `v`.
fn keeps_max(acc: &str, v: &str, numeric: bool) -> (r: bool)
    ensures
        r == keeps_running_max(acc@, v@, numeric),
{
    let o = if numeric {
        numeric_cmp(acc, v)
    } else {
        str_order(acc, v)
    };
    match o {
        Ordering::Greater => true,
        _ => false,
    }
}

/// `vals.max_by(order)`: a left fold that replaces the running maximum by each
/// value that is not smaller.
pub open spec fn fold_max(vals: Seq<Seq<char>>, numeric: bool) -> Option<Seq<char>>
    decreases vals.len(),
{
    if vals.len() == 0 {
        None
    } else {
        match fold_max(vals.drop_last(), numeric) {
            None => Some(vals.last()),
            Some(acc) => Some(
                if keeps_running_max(acc, vals.last(), numeric) {
                    acc
                } else {
                    vals.last()
                },
            ),
        }
    }
}

/// The values of attribute `key` (first value per entry), over the entries that have one.
pub open spec fn cursor_values(entries: Seq<LdapEntry>, key: Seq<char>) -> Seq<Seq<char>>
    decreases entries.len(),
{
    if entries.len() == 0 {
        seq![]
    } else {
        cursor_values(entries.drop_last(), key) + match first_attr_value(
            attrs_view(entries.last().attrs@),
            seq![key],
        ) {
            Some(v) => seq![v],
            None => seq![],
        }
    }
}

/// The new sync cursor: the largest uSNChanged (AD, compared numerically) or
/// modifyTimestamp (OpenLDAP, compared as text) among the entries.
pub open spec fn spec_max_usn(entries: Seq<LdapEntry>, flavor: LdapFlavor) -> Option<Seq<char>> {
    fold_max(cursor_values(entries, cursor_attr(flavor)), flavor == LdapFlavor::Ad)
}

/// The attribute that holds the sync cursor of each flavor.
pub open spec fn cursor_attr(flavor: LdapFlavor) -> Seq<char> {
    match flavor {
        LdapFlavor::Ad => "uSNChanged"@,
        LdapFlavor::Openldap => "modifyTimestamp"@,
    }
}

/// The high-water mark of a search result, to be stored as the next cursor.
pub fn max_usn_from_entries(entries: &[LdapEntry], flavor: LdapFlavor) -> (r: Option<String>)
    ensures
        r.deep_view() == spec_max_usn(entries@, flavor),
{
    let numeric = match flavor {
        LdapFlavor::Ad => true,
        LdapFlavor::Openldap => false,
    };
    let keys: &[&str] = match flavor {
        LdapFlavor::Ad => &["uSNChanged"],
        LdapFlavor::Openldap => &["modifyTimestamp"],
    };
    let ghost key: Seq<char> = cursor_attr(flavor);
    assert(keys.deep_view() =~= seq![key]);
    let mut acc: Option<String> = None;
    let mut i: usize = 0;
    while i < entries.len()
        invariant
            i <= entries.len(),
            keys.deep_view() == seq![key],
            acc.deep_view() == fold_max(cursor_values(entries@.take(i as int), key), numeric),
        decreases entries.len() - i,
    {
        let ghost prev = cursor_values(entries@.take(i as int), key);
        assert(entries@.take(i + 1).drop_last() == entries@.take(i as int));
        assert(entries@.take(i + 1).last() == entries@[i as int]);
        match first_attr(&entries[i].attrs, keys) {
            Some(v) => {
                let ghost vals = prev + seq![v@];
                assert(vals.drop_last() == prev);
                acc = match acc {
                    None => Some(v),
                    Some(a) => {
                        if keeps_max(a.as_str(), v.as_str(), numeric) {
                            Some(a)
                        } else {
                            Some(v)
                        }
                    },
                };
            },
            None => {
                assert(prev + Seq::<Seq<char>>::empty() == prev);
            },
        }
        i = i + 1;
    }
    assert(entries@.take(entries.len() as int) == entries@);
    acc
}


/// Why an LDAP entry could not be mapped to a catalog event.
#[derive(Debug)]
pub enum MapError {
    /// None of the flavor's username attributes holds a value.
    MissingUsername { dn: String },
}

impl MapError {
    /// Human-readable message (`missing username on <dn>`).
    pub fn message(&self) -> (r: String)
        ensures
            match self {
                MapError::MissingUsername { dn } => r@ == "missing username on "@ + dn@,
            },
    {
        match self {
            MapError::MissingUsername { dn } => {
                let mut m = owned("missing username on ");
                push_all(&mut m, dn.as_str());
                m
            },
        }
    }
}

/// The account name of an entry, if it has one.
pub open spec fn entry_username(e: LdapEntry, flavor: LdapFlavor) -> Option<Seq<char>> {
    first_attr_value(attrs_view(e.attrs@), spec_username_keys(flavor))
}

/// The identifier of an entry: its SID (AD) or entryUUID (OpenLDAP), else its DN.
pub open spec fn entry_sid(e: LdapEntry, flavor: LdapFlavor) -> Seq<char> {
    match first_attr_value(attrs_view(e.attrs@), spec_sid_keys(flavor)) {
        Some(s) => s,
        None => e.dn@,
    }
}

/// The user principal name of an entry, else its mail.
pub open spec fn entry_upn(e: LdapEntry) -> Option<Seq<char>> {
    first_attr_value(attrs_view(e.attrs@), seq!["userPrincipalName"@, "mail"@])
}

/// The `memberOf` DNs of an entry (none when it has no such attribute).
pub open spec fn entry_member_of(e: LdapEntry) -> Seq<Seq<char>> {
    match lookup_attr_ci(attrs_view(e.attrs@), "memberOf"@) {
        Some(v) => v,
        None => seq![],
    }
}

/// `ev` is the user event that entry `e` maps to under `ad` for `tenant`
/// (all fields but the random identifier and the observation time).
pub open spec fn is_user_event_of(
    ev: CatalogEvent,
    e: LdapEntry,
    ad: AdConfig,
    tenant: Seq<char>,
) -> bool {
    &&& ev.tenant_id@ == tenant
    &&& ev.object_type == CatalogObjectType::User
    &&& ev.sid@ == entry_sid(e, ad.ldap_flavor)
    &&& ev.domain@ == ad.domain@
    &&& entry_username(e, ad.ldap_flavor) == Some(ev.name@)
    &&& ev.groups.deep_view() == groups_of(entry_member_of(e))
    &&& ev.attributes.dn@ == e.dn@
    &&& ev.attributes.upn.deep_view() == entry_upn(e)
    &&& ev.attributes.ldap_flavor@ == spec_flavor_str(ad.ldap_flavor)
}

/// Builds the user event of an entry with the given identifier and time.
pub fn build_user_event(
    entry: &LdapEntry,
    ad: &AdConfig,
    tenant_id: &str,
    event_id: uuid::Uuid,
    observed_at: UtcTimestamp,
) -> (r: Result<CatalogEvent, MapError>)
    ensures
        r is Ok <==> entry_username(*entry, ad.ldap_flavor) is Some,
        r matches Ok(ev) ==> is_user_event_of(ev, *entry, *ad, tenant_id@) && ev.event_id
            == event_id && ev.observed_at == observed_at,
        r matches Err(MapError::MissingUsername { dn }) ==> dn@ == entry.dn@,
{
    let attrs = &entry.attrs;
    let username = match first_attr(attrs, username_keys(ad.ldap_flavor)) {
        Some(u) => u,
        None => {
            return Err(MapError::MissingUsername { dn: entry.dn.clone() });
        },
    };
    let sid = match first_attr(attrs, sid_keys(ad.ldap_flavor)) {
        Some(s) => s,
        None => entry.dn.clone(),
    };
    let upn_keys: &[&str] = &["userPrincipalName", "mail"];
    assert(upn_keys.deep_view() =~= seq!["userPrincipalName"@, "mail"@]);
    let upn = first_attr(attrs, upn_keys);
    let groups = match find_attr_ci(attrs, "memberOf") {
        Some(v) => groups_from_member_of(v.as_slice()),
        None => {
            let empty: Vec<String> = Vec::new();
            assert(empty.deep_view() =~= Seq::<Seq<char>>::empty());
            groups_from_member_of(empty.as_slice())
        },
    };
    Ok(
        CatalogEvent {
            event_id,
            tenant_id: owned(tenant_id),
            object_type: CatalogObjectType::User,
            sid,
            domain: ad.domain.clone(),
            name: username,
            groups,
            attributes: CatalogAttributes {
                dn: entry.dn.clone(),
                upn,
                ldap_flavor: owned(flavor_str(ad.ldap_flavor)),
            },
            observed_at,
        },
    )
}

/// Maps an LDAP user entry to a catalog event, with a fresh identifier and the
/// current time.
pub fn map_user_entry(entry: &LdapEntry, ad: &AdConfig, tenant_id: &str) -> (r: Result<
    CatalogEvent,
    MapError,
>)
    ensures
        r is Ok <==> entry_username(*entry, ad.ldap_flavor) is Some,
        r matches Ok(ev) ==> is_user_event_of(ev, *entry, *ad, tenant_id@),
        r matches Err(MapError::MissingUsername { dn }) ==> dn@ == entry.dn@,
{
    let event_id = new_event_id();
    let observed_at = now_utc();
    build_user_event(entry, ad, tenant_id, event_id, observed_at)
}


/// A hexadecimal digit as RFC 4515 escapes use them.
pub open spec fn is_hex_digit(c: char) -> bool {
    ('0' <= c && c <= '9') || ('a' <= c && c <= 'f') || ('A' <= c && c <= 'F')
}

/// A filter assertion value in which no character can change the filter's
/// structure: no `*`, `(`, `)` or NUL, and every `\` starts a two-digit hex escape.
pub open spec fn is_safe_assertion_value(t: Seq<char>) -> bool {
    forall|i: int|
        #![trigger t[i]]
        0 <= i < t.len() ==> {
            &&& t[i] != '*'
            &&& t[i] != '('
            &&& t[i] != ')'
            &&& t[i] != '\0'
            &&& (t[i] == '\\' ==> i + 2 < t.len() && is_hex_digit(t[i + 1]) && is_hex_digit(
                t[i + 2],
            ))
        }
}

/// Escaping works character by character: the escape of a concatenation is the
/// concatenation of the escapes.
pub proof fn lemma_escape_concat(a: Seq<char>, b: Seq<char>)
    ensures
        escape_value(a + b) == escape_value(a) + escape_value(b),
    decreases b.len(),
{
    if b.len() == 0 {
        assert(a + b == a);
        assert(escape_value(a) + escape_value(b) == escape_value(a));
    } else {
        lemma_escape_concat(a, b.drop_last());
        assert((a + b).drop_last() == a + b.drop_last());
        assert((a + b).last() == b.last());
    }
}

/// No escaped value can alter the structure of the filter it is placed in.
pub proof fn lemma_escape_is_safe(s: Seq<char>)
    ensures
        is_safe_assertion_value(escape_value(s)),
    decreases s.len(),
{
    if s.len() > 0 {
        lemma_escape_is_safe(s.drop_last());
        let p = escape_value(s.drop_last());
        let e = escape_char(s.last());
        let t = p + e;
        assert forall|i: int| #![trigger t[i]] 0 <= i < t.len() implies {
            &&& t[i] != '*'
            &&& t[i] != '('
            &&& t[i] != ')'
            &&& t[i] != '\0'
            &&& (t[i] == '\\' ==> i + 2 < t.len() && is_hex_digit(t[i + 1]) && is_hex_digit(
                t[i + 2],
            ))
        } by {
            if i < p.len() {
                assert(t[i] == p[i]);
                if p[i] == '\\' {
                    assert(t[i + 1] == p[i + 1]);
                    assert(t[i + 2] == p[i + 2]);
                }
            } else {
                assert(t[i] == e[i - p.len()]);
                if i - p.len() == 0 {
                    assert(t[i + 1] == e[1] || e.len() == 1);
                }
            }
        }
    }
}

proof fn lemma_escape_first(s: Seq<char>)
    requires
        s.len() > 0,
    ensures
        escape_value(s) == escape_char(s[0]) + escape_value(s.drop_first()),
{
    assert(s == seq![s[0]] + s.drop_first());
    lemma_escape_concat(seq![s[0]], s.drop_first());
    assert(seq![s[0]].drop_last() == Seq::<char>::empty());
    assert(escape_value(seq![s[0]]) == escape_value(Seq::<char>::empty()) + escape_char(s[0]));
}

proof fn lemma_escape_len(s: Seq<char>)
    ensures
        escape_value(s).len() >= s.len(),
    decreases s.len(),
{
    if s.len() > 0 {
        lemma_escape_len(s.drop_last());
    }
}

/// Escaping loses nothing: two values with the same escape are equal.
pub proof fn lemma_escape_injective(a: Seq<char>, b: Seq<char>)
    requires
        escape_value(a) == escape_value(b),
    ensures
        a == b,
    decreases a.len(),
{
    lemma_escape_len(a);
    lemma_escape_len(b);
    if a.len() == 0 || b.len() == 0 {
        if a.len() == 0 {
            assert(escape_value(a).len() == 0);
        } else {
            assert(escape_value(b).len() == 0);
        }
        assert(a.len() == 0 && b.len() == 0);
        assert(a == b);
    } else {
        lemma_escape_first(a);
        lemma_escape_first(b);
        let ca = escape_char(a[0]);
        let cb = escape_char(b[0]);
        let t = escape_value(a);
        assert(t[0] == ca[0]);
        assert(t[0] == cb[0]);
        if ca.len() == 3 {
            assert(t[1] == ca[1] && t[2] == ca[2]);
            assert(cb.len() == 3);
            assert(t[1] == cb[1] && t[2] == cb[2]);
        } else {
            assert(cb.len() == 1);
        }
        assert(a[0] == b[0]);
        assert(escape_value(a.drop_first()) == t.skip(ca.len() as int));
        assert(escape_value(b.drop_first()) == t.skip(cb.len() as int));
        lemma_escape_injective(a.drop_first(), b.drop_first());
        assert(a == seq![a[0]] + a.drop_first());
        assert(b == seq![b[0]] + b.drop_first());
    }
}

/// An incremental AD search asks for the same accounts as the full search,
/// narrowed to those with `uSNChanged` at or above the cursor.
pub proof fn lemma_ad_incremental_filter(cursor: Seq<char>, use_usn_changed: bool)
    ensures
        spec_user_search_filter(LdapFlavor::Ad, true, Some(cursor)) == spec_user_search_filter(
            LdapFlavor::Ad,
            use_usn_changed,
            None,
        ).drop_last() + "(uSNChanged>="@ + cursor + "))"@,
        spec_user_search_filter(LdapFlavor::Ad, false, Some(cursor)) == spec_user_search_filter(
            LdapFlavor::Ad,
            use_usn_changed,
            None,
        ),
{
    reveal_strlit(")");
    let p = "(&"@ + ad_person_clause() + ad_enabled_clause();
    assert((p + ")"@).drop_last() == p);
}

/// Every AD search filter excludes disabled accounts: the `userAccountControl`
/// clause stands right after the person clause.
pub proof fn lemma_ad_filter_excludes_disabled(use_usn_changed: bool, cursor: Option<Seq<char>>)
    ensures
        ({
            let f = spec_user_search_filter(LdapFlavor::Ad, use_usn_changed, cursor);
            let at: int = 2int + ad_person_clause().len();
            let end: int = at + ad_enabled_clause().len();
            &&& end <= f.len()
            &&& f.subrange(at, end) == ad_enabled_clause()
        }),
{
    reveal_strlit("(&");
    let f = spec_user_search_filter(LdapFlavor::Ad, use_usn_changed, cursor);
    let p = "(&"@ + ad_person_clause() + ad_enabled_clause();
    let at: int = 2int + ad_person_clause().len();
    let end: int = at + ad_enabled_clause().len();
    assert(f.subrange(0, p.len() as int) == p);
    assert(p.subrange(at, end) == ad_enabled_clause());
}

/// The AD search asks for person objects of class user whose
/// `userAccountControl` lacks the ACCOUNTDISABLE bit, and, incrementally,
/// only for those with `uSNChanged` at or above the cursor.
pub proof fn lemma_ad_filter_text(use_usn_changed: bool, cursor: Seq<char>)
    ensures
        spec_user_search_filter(LdapFlavor::Ad, true, Some(cursor)) == "(&"@
            + "(&(objectClass=user)(objectCategory=person))"@
            + "(!(userAccountControl:1.2.840.113556.1.4.803:=2))"@ + "(uSNChanged>="@ + cursor
            + "))"@,
        spec_user_search_filter(LdapFlavor::Ad, use_usn_changed, None) == "(&"@
            + "(&(objectClass=user)(objectCategory=person))"@
            + "(!(userAccountControl:1.2.840.113556.1.4.803:=2))"@ + ")"@,
{
}

/// The OpenLDAP incremental filter places the cursor only in escaped form, so
/// no cursor value can change the filter's structure.
pub proof fn lemma_openldap_cursor_is_escaped(cursor: Seq<char>)
    ensures
        spec_user_search_filter(LdapFlavor::Openldap, true, Some(cursor))
            == "(&(objectClass=inetOrgPerson)(modifyTimestamp>="@ + escape_value(cursor) + "))"@,
        spec_user_search_filter(LdapFlavor::Openldap, false, Some(cursor))
            == spec_user_search_filter(LdapFlavor::Openldap, true, Some(cursor)),
        is_safe_assertion_value(escape_value(cursor)),
{
    lemma_escape_is_safe(cursor);
}

pub open spec fn reversed(o: Ordering) -> Ordering {
    match o {
        Ordering::Less => Ordering::Greater,
        Ordering::Equal => Ordering::Equal,
        Ordering::Greater => Ordering::Less,
    }
}

proof fn lemma_lex_antisymmetric(a: Seq<char>, b: Seq<char>)
    ensures
        lex_order(a, b) == reversed(lex_order(b, a)),
        lex_order(a, b) == Ordering::Equal <==> a == b,
    decreases a.len(),
{
    if a.len() == 0 && b.len() == 0 {
        assert(a =~= b);
    } else if a.len() > 0 && b.len() > 0 && a[0] == b[0] {
        lemma_lex_antisymmetric(a.drop_first(), b.drop_first());
        assert(a == seq![a[0]] + a.drop_first());
        assert(b == seq![b[0]] + b.drop_first());
        if a == b {
            assert(a.drop_first() == b.drop_first());
        }
    } else if a.len() > 0 && b.len() > 0 {
        assert(a != b);
    } else {
        assert(a.len() != b.len());
    }
}

/// The cursor comparison is antisymmetric: swapping the arguments reverses
/// the result.
pub proof fn lemma_numeric_cmp_antisymmetric(a: Seq<char>, b: Seq<char>)
    ensures
        numeric_order(a, b) == reversed(numeric_order(b, a)),
{
    lemma_lex_antisymmetric(a, b);
}

/// The fold's result is one of the values, and there is one exactly when
/// there are values.
pub proof fn lemma_fold_max_is_member(vals: Seq<Seq<char>>, numeric: bool)
    ensures
        fold_max(vals, numeric) is None <==> vals.len() == 0,
        fold_max(vals, numeric) matches Some(m) ==> vals.contains(m),
    decreases vals.len(),
{
    if vals.len() > 0 {
        lemma_fold_max_is_member(vals.drop_last(), numeric);
        if let Some(m) = fold_max(vals, numeric) {
            if m == vals.last() {
                assert(vals[vals.len() - 1] == m);
            } else {
                let k = choose|k: int| 0 <= k < vals.drop_last().len() && vals.drop_last()[k] == m;
                assert(vals[k] == m);
            }
        }
    }
}

/// When every value is a number, the new AD cursor is the numerically largest.
pub proof fn lemma_fold_max_numeric(vals: Seq<Seq<char>>)
    requires
        forall|i: int| #![trigger vals[i]] 0 <= i < vals.len() ==> parsed_u64(vals[i]) is Some,
    ensures
        fold_max(vals, true) matches Some(m) ==> parsed_u64(m) is Some && forall|i: int|
            #![trigger vals[i]]
            0 <= i < vals.len() ==> parsed_u64(vals[i])->0 <= parsed_u64(m)->0,
    decreases vals.len(),
{
    if vals.len() > 0 {
        let prev = vals.drop_last();
        assert forall|i: int| #![trigger prev[i]] 0 <= i < prev.len() implies parsed_u64(prev[i]) is Some by {
            assert(prev[i] == vals[i]);
        }
        lemma_fold_max_numeric(prev);
        let last = vals.last();
        assert(parsed_u64(vals[vals.len() - 1]) is Some);
        match fold_max(prev, true) {
            None => {
                assert(prev.len() == 0) by {
                    lemma_fold_max_is_member(prev, true);
                }
            },
            Some(acc) => {
                assert forall|i: int| #![trigger vals[i]] 0 <= i < vals.len() implies parsed_u64(vals[i])->0 <= parsed_u64(fold_max(vals, true)->0)->0 by {
                    if i < prev.len() {
                        assert(prev[i] == vals[i]);
                    }
                }
            },
        }
    }
}


proof fn lemma_lex_transitive(a: Seq<char>, b: Seq<char>, c: Seq<char>)
    requires
        lex_order(a, b) != Ordering::Greater,
        lex_order(b, c) != Ordering::Greater,
    ensures
        lex_order(a, c) != Ordering::Greater,
    decreases a.len(),
{
    if a.len() > 0 && b.len() > 0 && c.len() > 0 && a[0] == b[0] && b[0] == c[0] {
        lemma_lex_transitive(a.drop_first(), b.drop_first(), c.drop_first());
    }
}

/// For OpenLDAP the new cursor is the textually largest modifyTimestamp.
pub proof fn lemma_fold_max_text(vals: Seq<Seq<char>>)
    ensures
        fold_max(vals, false) matches Some(m) ==> forall|i: int|
            0 <= i < vals.len() ==> lex_order(#[trigger] vals[i], m) != Ordering::Greater,
    decreases vals.len(),
{
    if vals.len() > 0 {
        let prev = vals.drop_last();
        let last = vals.last();
        lemma_fold_max_text(prev);
        lemma_lex_antisymmetric(last, last);
        match fold_max(prev, false) {
            None => {
                lemma_fold_max_is_member(prev, false);
            },
            Some(acc) => {
                let m = fold_max(vals, false)->0;
                lemma_lex_antisymmetric(acc, last);
                assert forall|i: int| 0 <= i < vals.len() implies lex_order(
                    #[trigger] vals[i],
                    m,
                ) != Ordering::Greater by {
                    if i < prev.len() {
                        assert(prev[i] == vals[i]);
                        if !keeps_running_max(acc, last, false) {
                            lemma_lex_transitive(vals[i], acc, last);
                        }
                    }
                }
            },
        }
    }
}

/// Every value is a number (`parse::<u64>` succeeds).
pub open spec fn all_numeric(vals: Seq<Seq<char>>) -> bool {
    forall|i: int| #![trigger vals[i]] 0 <= i < vals.len() ==> parsed_u64(vals[i]) is Some
}

/// The new sync cursor is the high-water mark of the search: it is one of the
/// entries' cursor values (none exactly when no entry has one), it is at least
/// every other value (as text for OpenLDAP; numerically for AD when all values
/// are numbers), and among equal maxima it is the last one.
pub proof fn lemma_max_usn_high_water_mark(entries: Seq<LdapEntry>, flavor: LdapFlavor)
    ensures
        spec_max_usn(entries, flavor) is None <==> cursor_values(entries, cursor_attr(flavor)).len()
            == 0,
        spec_max_usn(entries, flavor) matches Some(m) ==> cursor_values(
            entries,
            cursor_attr(flavor),
        ).contains(m),
        flavor == LdapFlavor::Openldap ==> (spec_max_usn(entries, flavor) matches Some(m) ==> forall|
            i: int,
        |
            #![trigger cursor_values(entries, cursor_attr(flavor))[i]]
            0 <= i < cursor_values(entries, cursor_attr(flavor)).len() ==> lex_order(
                cursor_values(entries, cursor_attr(flavor))[i],
                m,
            ) != Ordering::Greater),
        (flavor == LdapFlavor::Ad && all_numeric(cursor_values(entries, cursor_attr(flavor))))
            ==> (spec_max_usn(entries, flavor) matches Some(m) ==> parsed_u64(m) is Some && forall|
            i: int,
        |
            #![trigger cursor_values(entries, cursor_attr(flavor))[i]]
            0 <= i < cursor_values(entries, cursor_attr(flavor)).len() ==> parsed_u64(
                cursor_values(entries, cursor_attr(flavor))[i],
            )->0 <= parsed_u64(m)->0),
{
    let vals = cursor_values(entries, cursor_attr(flavor));
    match flavor {
        LdapFlavor::Ad => {
            lemma_fold_max_is_member(vals, true);
            if all_numeric(vals) {
                lemma_fold_max_numeric(vals);
            }
        },
        LdapFlavor::Openldap => {
            lemma_fold_max_is_member(vals, false);
            lemma_fold_max_text(vals);
        },
    }
}


/// The first value of a looked-up attribute, if it has one.
pub open spec fn first_value(v: Option<Seq<Seq<char>>>) -> Option<Seq<char>> {
    match v {
        Some(vs) => if vs.len() > 0 {
            Some(vs[0])
        } else {
            None
        },
        None => None,
    }
}

proof fn lemma_first_attr_value_one(attrs: Seq<(Seq<char>, Seq<Seq<char>>)>, k: Seq<char>)
    ensures
        first_attr_value(attrs, seq![k]) == first_value(lookup_attr_ci(attrs, k)),
{
    assert(seq![k].drop_first() =~= Seq::<Seq<char>>::empty());
    assert(first_attr_value(attrs, Seq::<Seq<char>>::empty()) is None);
}

proof fn lemma_first_attr_value_two(
    attrs: Seq<(Seq<char>, Seq<Seq<char>>)>,
    k1: Seq<char>,
    k2: Seq<char>,
)
    ensures
        first_attr_value(attrs, seq![k1, k2]) == (match first_value(lookup_attr_ci(attrs, k1)) {
            Some(u) => Some(u),
            None => first_value(lookup_attr_ci(attrs, k2)),
        }),
{
    assert(seq![k1, k2].drop_first() =~= seq![k2]);
    lemma_first_attr_value_one(attrs, k2);
}

/// Which attributes name a mapped user: for AD the first `sAMAccountName`;
/// for OpenLDAP the first `uid`, and only when there is none the first `cn`.
/// The identifier is the first `objectSid` (AD) or `entryUUID` (OpenLDAP),
/// else the DN; the UPN is the first `userPrincipalName`, else the first `mail`.
pub proof fn lemma_entry_identity_attributes(e: LdapEntry)
    ensures
        entry_username(e, LdapFlavor::Ad) == first_value(
            lookup_attr_ci(attrs_view(e.attrs@), "sAMAccountName"@),
        ),
        entry_username(e, LdapFlavor::Openldap) == (match first_value(
            lookup_attr_ci(attrs_view(e.attrs@), "uid"@),
        ) {
            Some(u) => Some(u),
            None => first_value(lookup_attr_ci(attrs_view(e.attrs@), "cn"@)),
        }),
        entry_sid(e, LdapFlavor::Ad) == (match first_value(
            lookup_attr_ci(attrs_view(e.attrs@), "objectSid"@),
        ) {
            Some(s) => s,
            None => e.dn@,
        }),
        entry_sid(e, LdapFlavor::Openldap) == (match first_value(
            lookup_attr_ci(attrs_view(e.attrs@), "entryUUID"@),
        ) {
            Some(s) => s,
            None => e.dn@,
        }),
        entry_upn(e) == (match first_value(
            lookup_attr_ci(attrs_view(e.attrs@), "userPrincipalName"@),
        ) {
            Some(u) => Some(u),
            None => first_value(lookup_attr_ci(attrs_view(e.attrs@), "mail"@)),
        }),
{
    let a = attrs_view(e.attrs@);
    lemma_first_attr_value_one(a, "sAMAccountName"@);
    lemma_first_attr_value_one(a, "objectSid"@);
    lemma_first_attr_value_one(a, "entryUUID"@);
    lemma_first_attr_value_two(a, "uid"@, "cn"@);
    lemma_first_attr_value_two(a, "userPrincipalName"@, "mail"@);
}

/// An OpenLDAP entry with a `uid` value maps to a user named by its first
/// `uid` value, whatever its `cn` holds.
pub proof fn lemma_openldap_uid_names_user(
    ev: CatalogEvent,
    e: LdapEntry,
    ad: AdConfig,
    tenant: Seq<char>,
    uid: Seq<Seq<char>>,
)
    requires
        ad.ldap_flavor == LdapFlavor::Openldap,
        is_user_event_of(ev, e, ad, tenant),
        lookup_attr_ci(attrs_view(e.attrs@), "uid"@) == Some(uid),
        uid.len() > 0,
    ensures
        ev.name@ == uid[0],
{
    lemma_entry_identity_attributes(e);
}

/// The group of a `memberOf` DN is the value of its first part when that part
/// (trimmed) starts with `CN=` or `cn=`, whatever the later parts hold.
pub proof fn lemma_cn_first_part_wins(p: Seq<char>, q: Seq<char>)
    requires
        forall|j: int| 0 <= j < p.len() ==> p[j] != ',',
        trim(p).len() >= 3,
        trim(p).take(3) == seq!['C', 'N', '='] || trim(p).take(3) == seq!['c', 'n', '='],
    ensures
        cn_of_dn(p + seq![','] + q) == Some(trim(p).skip(3)),
        cn_of_dn(p) == Some(trim(p).skip(3)),
        groups_of(seq![p + seq![','] + q]) == seq![trim(p).skip(3)],
{
    let dn = p + seq![','] + q;
    lemma_comma_index_at(dn, p.len() as int);
    assert(dn.take(p.len() as int) =~= p);
    lemma_comma_index_at(p, p.len() as int);
    assert(p.take(p.len() as int) =~= p);
    let one = seq![dn];
    assert(one.drop_last() =~= Seq::<Seq<char>>::empty());
    assert(one.last() == dn);
    assert(groups_of(Seq::<Seq<char>>::empty()) =~= Seq::<Seq<char>>::empty());
    assert(Seq::<Seq<char>>::empty() + seq![trim(p).skip(3)] =~= seq![trim(p).skip(3)]);
}

/// A first part without a `CN=` / `cn=` prefix is passed over: the CN comes
/// from the rest of the DN, and a DN of that one part has none.
pub proof fn lemma_cn_skips_part_without_cn(p: Seq<char>, q: Seq<char>)
    requires
        forall|j: int| 0 <= j < p.len() ==> p[j] != ',',
        trim(p).len() < 3 || (trim(p).take(3) != seq!['C', 'N', '='] && trim(p).take(3) != seq![
            'c',
            'n',
            '=',
        ]),
    ensures
        cn_of_dn(p + seq![','] + q) == cn_of_dn(q),
        cn_of_dn(p) is None,
{
    let dn = p + seq![','] + q;
    lemma_comma_index_at(dn, p.len() as int);
    assert(dn.take(p.len() as int) =~= p);
    assert(dn.skip(p.len() as int + 1) =~= q);
    lemma_comma_index_at(p, p.len() as int);
    assert(p.take(p.len() as int) =~= p);
}

/// Group names of a list of DNs are those of each DN, in order: one list after
/// another gives its groups after the other's.
pub proof fn lemma_groups_of_concat(a: Seq<Seq<char>>, b: Seq<Seq<char>>)
    ensures
        groups_of(a + b) == groups_of(a) + groups_of(b),
        groups_of(seq![]) == Seq::<Seq<char>>::empty(),
    decreases b.len(),
{
    if b.len() == 0 {
        assert(a + b =~= a);
        assert(groups_of(a) + groups_of(b) =~= groups_of(a));
    } else {
        lemma_groups_of_concat(a, b.drop_last());
        assert((a + b).drop_last() =~= a + b.drop_last());
        assert((a + b).last() == b.last());
        assert(groups_of(a) + groups_of(b.drop_last()) + match cn_of_dn(b.last()) {
            Some(g) => seq![g],
            None => seq![],
        } =~= groups_of(a) + (groups_of(b.drop_last()) + match cn_of_dn(b.last()) {
            Some(g) => seq![g],
            None => seq![],
        }));
    }
}


/// A non-empty run of ASCII digits whose value fits in 64 bits.
pub open spec fn is_u64_decimal(d: Seq<char>) -> bool {
    &&& d.len() > 0
    &&& forall|i: int| 0 <= i < d.len() ==> '0' <= #[trigger] d[i] && d[i] <= '9'
    &&& decimal_value(d) <= u64::MAX
}

/// The value of decimal digits: none make 0, and one more digit `c` after
/// digits `d` makes ten times the value of `d` plus the value of `c`.
pub proof fn lemma_decimal_value_digits(d: Seq<char>, c: char)
    requires
        '0' <= c && c <= '9',
    ensures
        decimal_value(Seq::<char>::empty()) == 0,
        decimal_value(d.push(c)) == decimal_value(d) * 10 + ((c as int) - ('0' as int)),
{
    assert(d.push(c).drop_last() =~= d);
}

/// `parse::<u64>` accepts every run of ASCII digits whose value fits in 64
/// bits, however long, with or without a leading `+`, and gives its value.
pub proof fn lemma_parse_u64_accepts_decimal(d: Seq<char>)
    requires
        is_u64_decimal(d),
    ensures
        parsed_u64(d) == Some(decimal_value(d) as u64),
        parsed_u64(seq!['+'] + d) == Some(decimal_value(d) as u64),
        (decimal_value(d) as u64) as int == decimal_value(d),
{
    assert(d[0] != '+');
    assert(unsigned_digits(d) == d);
    let s = seq!['+'] + d;
    assert(s[0] == '+');
    assert(s.drop_first() =~= d);
    assert(all_digits(d));
}

/// `parse::<u64>` accepts nothing else: the text is non-empty, and every
/// character is an ASCII digit but for one leading `+`; digits whose value
/// does not fit in 64 bits are refused.
pub proof fn lemma_parse_u64_refuses(s: Seq<char>)
    ensures
        parsed_u64(s) is Some ==> s.len() > 0 && forall|i: int|
            0 <= i < s.len() ==> ('0' <= #[trigger] s[i] && s[i] <= '9') || (i == 0 && s[i]
                == '+'),
        (s.len() > 0 && forall|i: int| 0 <= i < s.len() ==> '0' <= #[trigger] s[i] && s[i] <= '9')
            && decimal_value(s) > u64::MAX ==> parsed_u64(s) is None,
{
    if parsed_u64(s) is Some {
        let d = unsigned_digits(s);
        assert forall|i: int| 0 <= i < s.len() implies ('0' <= #[trigger] s[i] && s[i] <= '9') || (i
            == 0 && s[i] == '+') by {
            if s.len() > 0 && s[0] == '+' {
                if i > 0 {
                    assert(s[i] == d[i - 1]);
                    assert(is_digit(d[i - 1]));
                }
            } else {
                assert(is_digit(d[i]));
            }
        }
    }
    if s.len() > 0 && s[0] != '+' {
        assert(unsigned_digits(s) == s);
    }
    if s.len() > 0 && s[0] == '+' {
        assert(!('0' <= s[0] && s[0] <= '9'));
    }
}

proof fn lemma_cursor_values_entries(entries: Seq<LdapEntry>, key: Seq<char>)
    ensures
        forall|i: int|
            #![trigger entries[i]]
            0 <= i < entries.len() ==> (first_value(
                lookup_attr_ci(attrs_view(entries[i].attrs@), key),
            ) matches Some(u) ==> cursor_values(entries, key).contains(u)),
        forall|j: int|
            #![trigger cursor_values(entries, key)[j]]
            0 <= j < cursor_values(entries, key).len() ==> exists|i: int|
                #![trigger entries[i]]
                0 <= i < entries.len() && first_value(
                    lookup_attr_ci(attrs_view(entries[i].attrs@), key),
                ) == Some(cursor_values(entries, key)[j]),
    decreases entries.len(),
{
    if entries.len() > 0 {
        let prev = entries.drop_last();
        let last = entries.last();
        lemma_cursor_values_entries(prev, key);
        lemma_first_attr_value_one(attrs_view(last.attrs@), key);
        let cvp = cursor_values(prev, key);
        let cv = cursor_values(entries, key);
        assert forall|i: int| #![trigger entries[i]] 0 <= i < entries.len() implies (first_value(
            lookup_attr_ci(attrs_view(entries[i].attrs@), key),
        ) matches Some(u) ==> cv.contains(u)) by {
            if let Some(u) = first_value(lookup_attr_ci(attrs_view(entries[i].attrs@), key)) {
                if i < prev.len() {
                    assert(prev[i] == entries[i]);
                    let k = choose|k: int| 0 <= k < cvp.len() && cvp[k] == u;
                    assert(cv[k] == u);
                } else {
                    assert(cv[cv.len() - 1] == u);
                }
            }
        }
        assert forall|j: int| #![trigger cv[j]] 0 <= j < cv.len() implies exists|i: int|
            #![trigger entries[i]]
            0 <= i < entries.len() && first_value(lookup_attr_ci(attrs_view(entries[i].attrs@), key))
                == Some(cv[j]) by {
            if j < cvp.len() {
                assert(cv[j] == cvp[j]);
                let i = choose|i: int|
                    #![trigger prev[i]]
                    0 <= i < prev.len() && first_value(
                        lookup_attr_ci(attrs_view(prev[i].attrs@), key),
                    ) == Some(cvp[j]);
                assert(entries[i] == prev[i]);
            } else {
                assert(entries[entries.len() - 1] == last);
            }
        }
    }
}

/// For AD, when each entry's `uSNChanged` is a 64-bit decimal number, the new
/// cursor is the numerically largest of them (whatever their number of
/// digits): it is the `uSNChanged` of one of the entries, and no entry has a
/// larger one. There is none exactly when no entry has a `uSNChanged`.
pub proof fn lemma_ad_cursor_is_numeric_max(entries: Seq<LdapEntry>)
    requires
        forall|i: int|
            #![trigger entries[i]]
            0 <= i < entries.len() ==> (first_value(
                lookup_attr_ci(attrs_view(entries[i].attrs@), "uSNChanged"@),
            ) matches Some(u) ==> is_u64_decimal(u)),
    ensures
        spec_max_usn(entries, LdapFlavor::Ad) matches Some(m) ==> (exists|i: int|
            #![trigger entries[i]]
            0 <= i < entries.len() && first_value(
                lookup_attr_ci(attrs_view(entries[i].attrs@), "uSNChanged"@),
            ) == Some(m)) && (forall|i: int|
            #![trigger entries[i]]
            0 <= i < entries.len() ==> (first_value(
                lookup_attr_ci(attrs_view(entries[i].attrs@), "uSNChanged"@),
            ) matches Some(u) ==> decimal_value(u) <= decimal_value(m))),
        spec_max_usn(entries, LdapFlavor::Ad) is None <==> forall|i: int|
            #![trigger entries[i]]
            0 <= i < entries.len() ==> first_value(
                lookup_attr_ci(attrs_view(entries[i].attrs@), "uSNChanged"@),
            ) is None,
{
    let key = "uSNChanged"@;
    let vals = cursor_values(entries, key);
    lemma_cursor_values_entries(entries, key);
    assert forall|j: int| #![trigger vals[j]] 0 <= j < vals.len() implies is_u64_decimal(vals[j]) by {
        let i = choose|i: int|
            #![trigger entries[i]]
            0 <= i < entries.len() && first_value(lookup_attr_ci(attrs_view(entries[i].attrs@), key))
                == Some(vals[j]);
    }
    assert forall|j: int| #![trigger vals[j]] 0 <= j < vals.len() implies parsed_u64(vals[j]) is Some by {
        lemma_parse_u64_accepts_decimal(vals[j]);
    }
    lemma_fold_max_is_member(vals, true);
    lemma_fold_max_numeric(vals);
    if let Some(m) = spec_max_usn(entries, LdapFlavor::Ad) {
        let km = choose|k: int| 0 <= k < vals.len() && vals[k] == m;
        assert(is_u64_decimal(vals[km]));
        lemma_parse_u64_accepts_decimal(m);
        assert forall|i: int| #![trigger entries[i]] 0 <= i < entries.len() implies (first_value(
            lookup_attr_ci(attrs_view(entries[i].attrs@), key),
        ) matches Some(u) ==> decimal_value(u) <= decimal_value(m)) by {
            if let Some(u) = first_value(lookup_attr_ci(attrs_view(entries[i].attrs@), key)) {
                let k = choose|k: int| 0 <= k < vals.len() && vals[k] == u;
                assert(is_u64_decimal(vals[k]));
                lemma_parse_u64_accepts_decimal(u);
                assert(parsed_u64(vals[k])->0 <= parsed_u64(m)->0);
            }
        }
    } else {
        assert forall|i: int| #![trigger entries[i]] 0 <= i < entries.len() implies first_value(
            lookup_attr_ci(attrs_view(entries[i].attrs@), key),
        ) is None by {
            if let Some(u) = first_value(lookup_attr_ci(attrs_view(entries[i].attrs@), key)) {
                assert(vals.contains(u));
            }
        }
    }
    if forall|i: int|
        #![trigger entries[i]]
        0 <= i < entries.len() ==> first_value(lookup_attr_ci(attrs_view(entries[i].attrs@), key))
            is None {
        if vals.len() > 0 {
            let i = choose|i: int|
                #![trigger entries[i]]
                0 <= i < entries.len() && first_value(
                    lookup_attr_ci(attrs_view(entries[i].attrs@), key),
                ) == Some(vals[0]);
        }
    }
}


/// Text order is the order of the first differing character, and a proper
/// prefix comes first: when `a` and `b` agree on their first `k` characters
/// and then `a` ends or has the smaller character, `a` comes before `b`.
pub proof fn lemma_lex_order_first_difference(a: Seq<char>, b: Seq<char>, k: int)
    requires
        0 <= k <= a.len(),
        k < b.len(),
        forall|j: int| 0 <= j < k ==> a[j] == b[j],
        k == a.len() || a[k] < b[k],
    ensures
        lex_order(a, b) == Ordering::Less,
        lex_order(b, a) == Ordering::Greater,
        lex_order(a, a) == Ordering::Equal,
    decreases k,
{
    if k > 0 {
        lemma_lex_order_first_difference(a.drop_first(), b.drop_first(), k - 1);
    }
    lemma_lex_antisymmetric(a, a);
}

/// The groups of a single DN: its CN, or none.
pub proof fn lemma_groups_of_single(d: Seq<char>)
    ensures
        groups_of(seq![d]) == (match cn_of_dn(d) {
            Some(g) => seq![g],
            None => Seq::<Seq<char>>::empty(),
        }),
{
    let one = seq![d];
    assert(one.drop_last() =~= Seq::<Seq<char>>::empty());
    assert(one.last() == d);
    assert(groups_of(Seq::<Seq<char>>::empty()) =~= Seq::<Seq<char>>::empty());
    match cn_of_dn(d) {
        Some(g) => {
            assert(Seq::<Seq<char>>::empty() + seq![g] =~= seq![g]);
        },
        None => {
            assert(Seq::<Seq<char>>::empty() + Seq::<Seq<char>>::empty() =~= Seq::<Seq<char>>::empty());
        },
    }
}

} // verus!
