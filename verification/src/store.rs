//! Local catalog store: the rows it returns, the JSON column that holds each
//! user's groups, and the search pattern of the catalog browser.

use vstd::prelude::*;

use crate::text::{owned, push_all};

verus! {

/// `serde_json::Error`, what the JSON wrappers hand back on failure.
#[verifier::external_type_specification]
#[verifier::external_body]
pub struct ExJsonError(serde_json::Error);

/// The JSON text `serde_json::to_string` writes for a list of strings.
pub uninterp spec fn json_of_string_list(items: Seq<Seq<char>>) -> Seq<char>;

/// The list of strings `serde_json::from_str` reads from `text`, if it reads one.
pub uninterp spec fn string_list_of_json(text: Seq<char>) -> Option<Seq<Seq<char>>>;

/// JSON encoding of a list of strings.
/// Trusted: calls `serde_json::to_string`. Its documentation says it fails only
/// when a `Serialize` impl decides to fail or a map has non-string keys; neither
/// can happen for `Vec<String>`, so success is stated; the text is named. Its
/// serializer escapes every string that its deserializer unescapes, so reading
/// the text back with `serde_json::from_str::<Vec<String>>` gives the same list.
#[verifier::external_body]
fn encode_string_list(items: &Vec<String>) -> (r: Result<String, serde_json::Error>)
    ensures
        r is Ok,
        r matches Ok(s) ==> s@ == json_of_string_list(items.deep_view()),
        r matches Ok(s) ==> string_list_of_json(s@) == Some(items.deep_view()),
{
    serde_json::to_string(items)
}

/// JSON decoding of a list of strings.
/// Trusted: calls `serde_json::from_str::<Vec<String>>`; whether it succeeds and
/// what it reads are named, as functions of the text alone.
#[verifier::external_body]
fn decode_string_list(text: &str) -> (r: Result<Vec<String>, serde_json::Error>)
    ensures
        r is Ok <==> string_list_of_json(text@) is Some,
        r matches Ok(v) ==> string_list_of_json(text@) == Some(v.deep_view()),
{
    serde_json::from_str(text)
}

/// The `groups_json` column of a user: its groups as a JSON array. Reading the
/// column back (`groups_from_json`) gives the same groups.
pub fn groups_to_json(groups: &Vec<String>) -> (r: String)
    ensures
        r@ == json_of_string_list(groups.deep_view()),
        string_list_of_json(r@) == Some(groups.deep_view()),
{
    match encode_string_list(groups) {
        Ok(s) => s,
        Err(_) => String::new(),
    }
}

/// The groups stored in a `groups_json` column; text that is not a JSON array
/// of strings reads as no groups.
pub fn groups_from_json(json: &str) -> (r: Vec<String>)
    ensures
        r.deep_view() == match string_list_of_json(json@) {
            Some(v) => v,
            None => seq![],
        },
{
    match decode_string_list(json) {
        Ok(v) => v,
        Err(_) => {
            let v: Vec<String> = Vec::new();
            assert(v.deep_view() =~= Seq::<Seq<char>>::empty());
            v
        },
    }
}

/// The SQL `LIKE` pattern for usernames starting with `prefix` (the prefix is
/// used as given, its own `%` and `_` included).
pub fn like_prefix_pattern(prefix: &str) -> (r: String)
    ensures
        r@ == prefix@ + "%"@,
{
    let mut p = owned(prefix);
    push_all(&mut p, "%");
    p
}

/// One row of the catalog browser.
#[derive(Debug)]
pub struct CatalogUserRow {
    pub username: String,
    pub sid: String,
    pub upn: Option<String>,
    pub dn: Option<String>,
    pub groups: Vec<String>,
    pub updated_at: String,
}

impl CatalogUserRow {
    /// A row from the stored columns, with the groups read from their JSON.
    pub fn from_columns(
        username: String,
        sid: String,
        upn: Option<String>,
        dn: Option<String>,
        groups_json: &str,
        updated_at: String,
    ) -> (r: CatalogUserRow)
        ensures
            r.username == username,
            r.sid == sid,
            r.upn == upn,
            r.dn == dn,
            r.updated_at == updated_at,
            r.groups.deep_view() == match string_list_of_json(groups_json@) {
                Some(v) => v,
                None => seq![],
            },
    {
        CatalogUserRow { username, sid, upn, dn, groups: groups_from_json(groups_json), updated_at }
    }
}

} // verus!
