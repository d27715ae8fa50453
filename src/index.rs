//! Reading the release index document into a catalog.

use vstd::prelude::*;

use crate::catalog::{floor_spec, keys_unique, list_available, listing, minimum_version, PlatformEntry, Release, ReleaseCatalog};
use crate::error::InstallError;

verus! {

#[verifier::external_type_specification]
#[verifier::external_body]
pub struct ExJsonValue(serde_json::Value);

#[verifier::external_type_specification]
#[verifier::external_body]
pub struct ExJsonError(serde_json::Error);

/// The JSON value that a text decodes to; `None` where it is no JSON document.
pub uninterp spec fn json_of(text: Seq<char>) -> Option<serde_json::Value>;

/// The members of a JSON object, key and value, in the map's order; `None`
/// for a value that is no object.
pub uninterp spec fn members_of(v: serde_json::Value) -> Option<Seq<(Seq<char>, serde_json::Value)>>;

/// The string stored under `key` in a JSON object, if there is one.
pub uninterp spec fn string_at(v: serde_json::Value, key: Seq<char>) -> Option<Seq<char>>;

/// Relies on serde_json::from_str: decodes a JSON document, or fails; the
/// outcome depends on the text alone.
#[verifier::external_body]
fn decode_json(text: &str) -> (r: Result<serde_json::Value, serde_json::Error>)
    ensures
        r is Ok <==> json_of(text@) is Some,
        r matches Ok(v) ==> json_of(text@) == Some(v),
{
    serde_json::from_str(text)
}

/// Relies on serde_json::Value::as_object and serde_json::Map::iter: the
/// members of an object, each key once (the map holds unique keys); `None`
/// for any other value.
#[verifier::external_body]
fn object_members(v: &serde_json::Value) -> (r: Option<Vec<(String, serde_json::Value)>>)
    ensures
        r is None <==> members_of(*v) is None,
        r matches Some(m) ==> {
            let s = members_of(*v)->0;
            &&& m@.len() == s.len()
            &&& forall|i: int|
                0 <= i < m@.len() ==> (#[trigger] m@[i]).0@ == s[i].0 && m@[i].1 == s[i].1
            &&& forall|a: int, b: int| 0 <= a < b < s.len() ==> (#[trigger] s[a]).0 != (#[trigger] s[b]).0
        },
{
    v.as_object().map(|m| m.iter().map(|(k, x)| (k.clone(), x.clone())).collect())
}

/// Relies on serde_json::Value::get and serde_json::Value::as_str: the
/// string stored under `key` in an object, if there is one.
#[verifier::external_body]
fn string_member(v: &serde_json::Value, key: &str) -> (r: Option<String>)
    ensures
        r is None <==> string_at(*v, key@) is None,
        r matches Some(s) ==> string_at(*v, key@) == Some(s@),
{
    v.get(key).and_then(|x| x.as_str()).map(|s| s.to_string())
}

/// An entry's archive location is the string that the document holds.
pub open spec fn tarball_is(t: Option<String>, s: Option<Seq<char>>) -> bool {
    match t {
        Some(x) => s == Some(x@),
        None => s is None,
    }
}

/// The platform entries of a release value: one per member of its object, in
/// order, named by the member's key, with the member's `tarball` string.
pub open spec fn entries_describe(ps: Seq<PlatformEntry>, v: serde_json::Value) -> bool {
    match members_of(v) {
        None => ps.len() == 0,
        Some(ms) => {
            &&& ps.len() == ms.len()
            &&& forall|k: int|
                0 <= k < ps.len() ==> (#[trigger] ps[k]).platform@ == ms[k].0 && tarball_is(
                    ps[k].tarball,
                    string_at(ms[k].1, "tarball"@),
                )
        },
    }
}

/// The catalog that an index document describes: one release per member of
/// its top-level object, in order, named by the member's key; none when the
/// document is no object.
pub open spec fn describes(c: ReleaseCatalog, json: serde_json::Value) -> bool {
    match members_of(json) {
        None => c.releases@.len() == 0,
        Some(ms) => {
            &&& c.releases@.len() == ms.len()
            &&& forall|j: int|
                0 <= j < c.releases@.len() ==> (#[trigger] c.releases@[j]).version@ == ms[j].0
                    && entries_describe(c.releases@[j].platforms@, ms[j].1)
        },
    }
}

/// The platform entries of one release value.
fn platforms_from_json(v: &serde_json::Value) -> (r: Vec<PlatformEntry>)
    ensures
        entries_describe(r@, *v),
        forall|a: int, b: int|
            0 <= a < b < r@.len() ==> (#[trigger] r@[a]).platform@ != (#[trigger] r@[b]).platform@,
{
    let mut out: Vec<PlatformEntry> = Vec::new();
    match object_members(v) {
        None => {},
        Some(members) => {
            let ghost s = members_of(*v)->0;
            let mut k: usize = 0;
            while k < members.len()
                invariant
                    k <= members@.len(),
                    members@.len() == s.len(),
                    out@.len() == k,
                    forall|i: int|
                        0 <= i < members@.len() ==> (#[trigger] members@[i]).0@ == s[i].0
                            && members@[i].1 == s[i].1,
                    forall|a: int|
                        0 <= a < k ==> (#[trigger] out@[a]).platform@ == s[a].0 && tarball_is(
                            out@[a].tarball,
                            string_at(s[a].1, "tarball"@),
                        ),
                    forall|a: int, b: int| 0 <= a < b < s.len() ==> (#[trigger] s[a]).0 != (#[trigger] s[b]).0,
                decreases members@.len() - k,
            {
                let (name, entry) = (&members[k].0, &members[k].1);
                let tarball = string_member(entry, "tarball");
                out.push(PlatformEntry { platform: name.clone(), tarball });
                assert(members@[k as int].0@ == s[k as int].0);
                k = k + 1;
            }
            assert forall|a: int, b: int|
                0 <= a < b < out@.len() implies (#[trigger] out@[a]).platform@ != (
                #[trigger] out@[b]).platform@ by {
                assert(s[a].0 != s[b].0);
            }
        },
    }
    out
}

/// The catalog that an index document describes.
pub fn catalog_from_json(json: &serde_json::Value) -> (r: ReleaseCatalog)
    ensures
        describes(r, *json),
        keys_unique(r.releases@),
{
    let mut releases: Vec<Release> = Vec::new();
    match object_members(json) {
        None => {},
        Some(members) => {
            let ghost s = members_of(*json)->0;
            let mut j: usize = 0;
            while j < members.len()
                invariant
                    j <= members@.len(),
                    members@.len() == s.len(),
                    releases@.len() == j,
                    forall|i: int|
                        0 <= i < members@.len() ==> (#[trigger] members@[i]).0@ == s[i].0
                            && members@[i].1 == s[i].1,
                    forall|a: int|
                        0 <= a < j ==> (#[trigger] releases@[a]).version@ == s[a].0
                            && entries_describe(releases@[a].platforms@, s[a].1),
                    forall|a: int, b: int| 0 <= a < b < s.len() ==> (#[trigger] s[a]).0 != (#[trigger] s[b]).0,
                    forall|i: int, a: int, b: int|
                        0 <= i < releases@.len() && 0 <= a < b < releases@[i].platforms@.len()
                            ==> (#[trigger] releases@[i].platforms@[a]).platform@ != (
                        #[trigger] releases@[i].platforms@[b]).platform@,
                decreases members@.len() - j,
            {
                let (version, value) = (&members[j].0, &members[j].1);
                let platforms = platforms_from_json(value);
                assert(members@[j as int].0@ == s[j as int].0);
                releases.push(Release { version: version.clone(), platforms });
                j = j + 1;
            }
            assert forall|a: int, b: int|
                0 <= a < b < releases@.len() implies (#[trigger] releases@[a]).version@ != (
                #[trigger] releases@[b]).version@ by {
                assert(s[a].0 != s[b].0);
            }
        },
    }
    ReleaseCatalog { releases }
}

/// Decodes an index body into the catalog it describes; `Format` exactly
/// when the body is no JSON document.
pub fn parse_index(text: &str) -> (r: Result<ReleaseCatalog, InstallError>)
    ensures
        r is Err <==> json_of(text@) is None,
        r is Err ==> r == Err::<ReleaseCatalog, InstallError>(InstallError::Format),
        r matches Ok(c) ==> describes(c, json_of(text@)->0) && keys_unique(c.releases@),
{
    match decode_json(text) {
        Ok(json) => Ok(catalog_from_json(&json)),
        Err(_) => Err(InstallError::Format),
    }
}

/// The versions of an index document usable on `host` from 0.10.0 on,
/// ascending: the listing of the catalog that the document describes.
pub fn filter_zig_versions(json: &serde_json::Value, host: &str) -> (r: Vec<String>)
    ensures
        exists|c: ReleaseCatalog|
            describes(c, *json) && keys_unique(c.releases@) && #[trigger] listing(
                c.releases@,
                host@,
                floor_spec(),
                r@,
            ),
{
    let catalog = catalog_from_json(json);
    let r = list_available(&catalog, host, minimum_version());
    assert(listing(catalog.releases@, host@, floor_spec(), r@));
    r
}

} // verus!
