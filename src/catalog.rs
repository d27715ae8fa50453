//! The release catalog and the selection of versions usable on a platform.

use vstd::prelude::*;

use crate::error::InstallError;
use crate::version::{at_least_spec, compare, parse_spec, parse_version, version_le, VersionId};

verus! {

/// The download descriptor of one release for one platform.
#[derive(Clone, Debug)]
pub struct PlatformEntry {
    pub platform: String,
    /// Where the archive lives; absent when the platform is unsupported.
    pub tarball: Option<String>,
}

/// One version of the release index with its per-platform entries.
#[derive(Clone, Debug)]
pub struct Release {
    pub version: String,
    pub platforms: Vec<PlatformEntry>,
}

/// The release index: versions with their per-platform entries.
#[derive(Clone, Debug)]
pub struct ReleaseCatalog {
    pub releases: Vec<Release>,
}

/// The tag of the rolling, unstable release, never selected.
pub open spec fn rolling_tag() -> Seq<char> {
    seq!['m', 'a', 's', 't', 'e', 'r']
}

/// The lowest version ever selected: 0.10.0.
pub open spec fn floor_spec() -> VersionId {
    VersionId { major: 0, minor: 10, patch: 0 }
}

/// The lowest version ever selected.
pub fn minimum_version() -> (r: VersionId)
    ensures
        r == floor_spec(),
{
    VersionId::new(0, 10, 0)
}

/// Each version appears once, and each platform once within its release.
pub open spec fn keys_unique(rs: Seq<Release>) -> bool {
    &&& forall|a: int, b: int|
        0 <= a < b < rs.len() ==> (#[trigger] rs[a]).version@ != (#[trigger] rs[b]).version@
    &&& forall|j: int, a: int, b: int|
        0 <= j < rs.len() && 0 <= a < b < rs[j].platforms@.len() ==> (
        #[trigger] rs[j].platforms@[a]).platform@ != (#[trigger] rs[j].platforms@[b]).platform@
}

/// The release has an archive for `host`.
pub open spec fn supports(r: Release, host: Seq<char>) -> bool {
    exists|k: int|
        0 <= k < r.platforms@.len() && (#[trigger] r.platforms@[k]).platform@ == host
            && r.platforms@[k].tarball is Some
}

/// The release may be selected on `host` with the given floor.
#[verifier::opaque]
pub open spec fn eligible(r: Release, host: Seq<char>, floor: VersionId) -> bool {
    &&& r.version@ != rolling_tag()
    &&& at_least_spec(r.version@, floor)
    &&& supports(r, host)
}

/// How many of `rs` may be selected.
pub open spec fn eligible_count(rs: Seq<Release>, host: Seq<char>, floor: VersionId) -> nat
    decreases rs.len(),
{
    if rs.len() == 0 {
        0
    } else {
        eligible_count(rs.drop_last(), host, floor) + if eligible(rs.last(), host, floor) {
            1nat
        } else {
            0nat
        }
    }
}

/// `v` is the version of an eligible release of `rs`.
pub open spec fn offered(rs: Seq<Release>, host: Seq<char>, floor: VersionId, v: Seq<char>) -> bool {
    exists|j: int| 0 <= j < rs.len() && eligible(#[trigger] rs[j], host, floor) && v == rs[j].version@
}

/// `x` and `y` are the versions of two eligible releases of `rs`, the one
/// named `x` standing earlier.
pub open spec fn earlier_in(rs: Seq<Release>, host: Seq<char>, floor: VersionId, x: Seq<char>, y: Seq<char>) -> bool {
    exists|a: int, b: int|
        #![trigger rs[a], rs[b]]
        0 <= a < b < rs.len() && eligible(rs[a], host, floor) && eligible(rs[b], host, floor)
            && rs[a].version@ == x && rs[b].version@ == y
}

/// `out` lists the versions of the eligible releases of `rs`, each once,
/// ascending by version order; versions that parse equal keep the order of
/// their releases in `rs`.
pub open spec fn listing(rs: Seq<Release>, host: Seq<char>, floor: VersionId, out: Seq<String>) -> bool {
    &&& out.len() == eligible_count(rs, host, floor)
    &&& forall|i: int| 0 <= i < out.len() ==> offered(rs, host, floor, (#[trigger] out[i])@)
    &&& forall|j: int|
        #![trigger rs[j]]
        0 <= j < rs.len() && eligible(rs[j], host, floor) ==> exists|i: int|
            #![trigger out[i]]
            0 <= i < out.len() && out[i]@ == rs[j].version@
    &&& forall|i: int, k: int|
        0 <= i < k < out.len() ==> version_le(
            parse_spec((#[trigger] out[i])@)->0,
            parse_spec((#[trigger] out[k])@)->0,
        )
    &&& forall|i: int, k: int|
        0 <= i < k < out.len() && parse_spec((#[trigger] out[i])@) == parse_spec(
            (#[trigger] out[k])@,
        ) ==> earlier_in(rs, host, floor, out[i]@, out[k]@)
}

/// The version of `rel` where it may be selected on `host`.
fn eligible_version(rel: &Release, host: &String, floor: VersionId) -> (r: Option<VersionId>)
    ensures
        r is Some <==> eligible(*rel, host@, floor),
        r is Some ==> parse_spec(rel.version@) == r,
{
    proof {
        reveal_strlit("master");
        assert("master"@ =~= rolling_tag());
    }
    let tag = "master".to_owned();
    proof {
        reveal(eligible);
    }
    if rel.version == tag {
        return None;
    }
    let v = match parse_version(rel.version.as_str()) {
        Some(v) => v,
        None => return None,
    };
    match compare(floor, v) {
        std::cmp::Ordering::Greater => return None,
        _ => {},
    }
    let mut k: usize = 0;
    while k < rel.platforms.len()
        invariant
            k <= rel.platforms@.len(),
            parse_spec(rel.version@) == Some(v),
            version_le(floor, v),
            rel.version@ != rolling_tag(),
            forall|m: int|
                0 <= m < k ==> !((#[trigger] rel.platforms@[m]).platform@ == host@
                    && rel.platforms@[m].tarball is Some),
        decreases rel.platforms@.len() - k,
    {
        let entry = &rel.platforms[k];
        if entry.platform == *host && entry.tarball.is_some() {
            assert(rel.platforms@[k as int].platform@ == host@);
            proof {
                reveal(eligible);
            }
            return Some(v);
        }
        k = k + 1;
    }
    None
}

/// Keys ascending by version order.
pub open spec fn ascending(keys: Seq<VersionId>) -> bool {
    forall|i: int, k: int| 0 <= i < k < keys.len() ==> version_le(#[trigger] keys[i], #[trigger] keys[k])
}

/// Each listed version string denotes its key.
pub open spec fn keyed(out: Seq<String>, keys: Seq<VersionId>) -> bool {
    &&& out.len() == keys.len()
    &&& forall|i: int| 0 <= i < out.len() ==> parse_spec((#[trigger] out[i])@) == Some(keys[i])
}

/// Inserts `name`, which denotes `v`, after every key not above `v`.
fn insert_sorted(out: &mut Vec<String>, keys: &mut Vec<VersionId>, name: String, v: VersionId) -> (p: usize)
    requires
        keyed(old(out)@, old(keys)@),
        ascending(old(keys)@),
        parse_spec(name@) == Some(v),
    ensures
        p <= old(out)@.len(),
        final(out)@ == old(out)@.insert(p as int, name),
        final(keys)@ == old(keys)@.insert(p as int, v),
        keyed(final(out)@, final(keys)@),
        ascending(final(keys)@),
        forall|i: int| 0 <= i < p ==> version_le(#[trigger] old(keys)@[i], v),
        forall|k: int| p <= k < old(keys)@.len() ==> !version_le(#[trigger] old(keys)@[k], v),
{
    let mut p: usize = keys.len();
    let mut scanning: bool = true;
    while scanning && p > 0
        invariant
            p <= keys@.len(),
            forall|k: int| p <= k < keys@.len() ==> !version_le(#[trigger] keys@[k], v),
            !scanning ==> p > 0 && version_le(keys@[p - 1], v),
        decreases p + if scanning {
            1int
        } else {
            0int
        },
    {
        match compare(keys[p - 1], v) {
            std::cmp::Ordering::Greater => {
                p = p - 1;
            },
            _ => {
                scanning = false;
            },
        }
    }
    let ghost old_keys = keys@;
    assert forall|i: int| 0 <= i < p implies version_le(#[trigger] old_keys[i], v) by {
        assert(version_le(old_keys[i], old_keys[p - 1]) || i == p - 1);
    }
    out.insert(p, name);
    keys.insert(p, v);
    assert forall|i: int, k: int| 0 <= i < k < keys@.len() implies version_le(
        #[trigger] keys@[i],
        #[trigger] keys@[k],
    ) by {
        if i < p && p <= k {
            assert(version_le(old_keys[i], old_keys[p as int - 1]) || i == p - 1);
        } else if i == p && k > p {
            assert(!version_le(old_keys[k - 1], v));
        }
    }
    p
}

/// The versions of `catalog` usable on `host` at or above `floor`, ascending:
/// the rolling tag, versions below the floor and versions without an archive
/// for `host` are left out.
pub fn list_available(catalog: &ReleaseCatalog, host: &str, floor: VersionId) -> (r: Vec<String>)
    ensures
        listing(catalog.releases@, host@, floor, r@),
{
    let rs = &catalog.releases;
    let host_s = host.to_owned();
    let mut out: Vec<String> = Vec::new();
    let mut keys: Vec<VersionId> = Vec::new();
    let mut j: usize = 0;
    // src[i]: the release that out[i] came from; pos[m]: where release m
    // stands in out, when it was taken.
    let ghost mut src: Seq<int> = Seq::empty();
    let ghost mut pos: Seq<int> = Seq::empty();
    assert(rs@.take(0) =~= Seq::<Release>::empty());
    while j < rs.len()
        invariant
            j <= rs@.len(),
            host_s@ == host@,
            keyed(out@, keys@),
            ascending(keys@),
            out@.len() == eligible_count(rs@.take(j as int), host@, floor),
            src.len() == out@.len(),
            pos.len() == j,
            forall|i: int|
                0 <= i < out@.len() ==> 0 <= #[trigger] src[i] < j && eligible(
                    rs@[src[i]],
                    host@,
                    floor,
                ) && out@[i]@ == rs@[src[i]].version@,
            forall|m: int|
                0 <= m < j && eligible(rs@[m], host@, floor) ==> 0 <= #[trigger] pos[m] < out@.len()
                    && out@[pos[m]]@ == rs@[m].version@,
            forall|i: int, k: int|
                0 <= i < k < keys@.len() && keys@[i] == keys@[k] ==> #[trigger] src[i]
                    < #[trigger] src[k],
        decreases rs@.len() - j,
    {
        let rel = &rs[j];
        assert(rs@.take(j + 1).drop_last() =~= rs@.take(j as int));
        match eligible_version(rel, &host_s, floor) {
            None => {
                proof {
                    pos = pos.push(-1);
                }
            },
            Some(v) => {
                let ghost old_out = out@;
                let ghost old_src = src;
                let ghost old_pos = pos;
                let ghost old_keys = keys@;
                let name = rel.version.clone();
                let p = insert_sorted(&mut out, &mut keys, name, v);
                proof {
                    src = old_src.insert(p as int, j as int);
                    pos = Seq::new(
                        j as nat,
                        |m: int|
                            if old_pos[m] >= p {
                                old_pos[m] + 1
                            } else {
                                old_pos[m]
                            },
                    ).push(p as int);
                    assert forall|i: int, k: int|
                        0 <= i < k < keys@.len() && keys@[i] == keys@[k] implies #[trigger] src[i]
                        < #[trigger] src[k] by {
                        if i == p {
                            assert(!version_le(old_keys[k - 1], v));
                            assert(keys@[k] == old_keys[k - 1]);
                        } else if k == p {
                            assert(src[i] == old_src[i]);
                        } else if i < p && k > p {
                            assert(src[i] == old_src[i]);
                            assert(src[k] == old_src[k - 1]);
                            assert(old_src[i] < old_src[k - 1] || old_keys[i] != old_keys[k - 1]);
                        } else if i > p {
                            assert(src[i] == old_src[i - 1]);
                            assert(src[k] == old_src[k - 1]);
                            assert(old_keys[i - 1] != old_keys[k - 1] || old_src[i - 1] < old_src[k - 1]);
                        } else {
                            assert(src[i] == old_src[i]);
                            assert(src[k] == old_src[k]);
                            assert(old_keys[i] != old_keys[k] || old_src[i] < old_src[k]);
                        }
                    }
                    assert forall|i: int| 0 <= i < out@.len() implies 0 <= #[trigger] src[i] < j + 1
                        && eligible(rs@[src[i]], host@, floor) && out@[i]@ == rs@[src[i]].version@ by {
                        if i < p {
                            assert(src[i] == old_src[i]);
                        } else if i > p {
                            assert(src[i] == old_src[i - 1]);
                        }
                    }
                    assert forall|m: int|
                        0 <= m < j + 1 && eligible(rs@[m], host@, floor) implies 0
                        <= #[trigger] pos[m] < out@.len() && out@[pos[m]]@ == rs@[m].version@ by {
                        if m < j {
                            assert(0 <= old_pos[m] < old_out.len());
                        }
                    }
                }
            },
        }
        j = j + 1;
    }
    assert(rs@.take(rs@.len() as int) =~= rs@);
    assert forall|m: int|
        #![trigger rs@[m]]
        0 <= m < rs@.len() && eligible(rs@[m], host@, floor) implies (exists|i: int|
            0 <= i < out@.len() && out@[i]@ == rs@[m].version@) by {
        assert(out@[pos[m]]@ == rs@[m].version@);
    }
    assert forall|i: int| 0 <= i < out@.len() implies offered(
        rs@,
        host@,
        floor,
        (#[trigger] out@[i])@,
    ) by {
        let w = src[i];
        assert(0 <= w < rs@.len() && eligible(rs@[w], host@, floor) && out@[i]@ == rs@[w].version@);
    }
    assert forall|i: int, k: int|
        0 <= i < k < out@.len() && parse_spec((#[trigger] out@[i])@) == parse_spec(
            (#[trigger] out@[k])@,
        ) implies earlier_in(rs@, host@, floor, out@[i]@, out@[k]@) by {
        assert(keys@[i] == keys@[k]);
        let (a, b) = (src[i], src[k]);
        assert(a < b);
        assert(0 <= a < b < rs@.len() && eligible(rs@[a], host@, floor) && eligible(rs@[b], host@, floor)
            && rs@[a].version@ == out@[i]@ && rs@[b].version@ == out@[k]@);
    }
    assert forall|i: int, k: int| 0 <= i < k < out@.len() implies version_le(
        parse_spec((#[trigger] out@[i])@)->0,
        parse_spec((#[trigger] out@[k])@)->0,
    ) by {
        assert(version_le(keys@[i], keys@[k]));
    }
    out
}


/// `v` is the newest version that may be selected: offered, and no eligible
/// release comes later.
pub open spec fn latest(rs: Seq<Release>, host: Seq<char>, floor: VersionId, v: Seq<char>) -> bool {
    &&& offered(rs, host, floor, v)
    &&& forall|j: int|
        0 <= j < rs.len() && eligible(#[trigger] rs[j], host, floor) ==> version_le(
            parse_spec(rs[j].version@)->0,
            parse_spec(v)->0,
        )
}

/// Some release of `rs` may be selected.
pub open spec fn any_eligible(rs: Seq<Release>, host: Seq<char>, floor: VersionId) -> bool {
    exists|j: int| 0 <= j < rs.len() && eligible(#[trigger] rs[j], host, floor)
}

/// The newest version usable on `host` at or above `floor`, or `NotFound`
/// when there is none.
pub fn select_latest(catalog: &ReleaseCatalog, host: &str, floor: VersionId) -> (r: Result<
    String,
    InstallError,
>)
    ensures
        r is Err <==> !any_eligible(catalog.releases@, host@, floor),
        r is Err ==> r == Err::<String, InstallError>(InstallError::NotFound),
        r is Ok ==> latest(catalog.releases@, host@, floor, r->Ok_0@),
{
    let rs = &catalog.releases;
    let listed = list_available(catalog, host, floor);
    if listed.len() == 0 {
        assert forall|j: int| 0 <= j < rs@.len() implies !eligible(#[trigger] rs@[j], host@, floor) by {
        }
        return Err(InstallError::NotFound);
    }
    let last = listed.len() - 1;
    let v = listed[last].clone();
    assert(offered(rs@, host@, floor, listed@[last as int]@));
    let ghost w = choose|j: int|
        0 <= j < rs@.len() && eligible(#[trigger] rs@[j], host@, floor) && listed@[last as int]@
            == rs@[j].version@;
    assert(eligible(rs@[w], host@, floor));
    assert forall|j: int| 0 <= j < rs@.len() && eligible(#[trigger] rs@[j], host@, floor) implies version_le(
        parse_spec(rs@[j].version@)->0,
        parse_spec(v@)->0,
    ) by {
        let i = choose|i: int| 0 <= i < listed@.len() && (#[trigger] listed@[i])@ == rs@[j].version@;
        if i < last {
            assert(version_le(
                parse_spec(listed@[i]@)->0,
                parse_spec(listed@[last as int]@)->0,
            ));
        }
    }
    Ok(v)
}

/// `rs` has an entry for `version` on `host` whose archive is at `url`.
pub open spec fn has_download(rs: Seq<Release>, version: Seq<char>, host: Seq<char>, url: Seq<char>) -> bool {
    exists|j: int, k: int|
        0 <= j < rs.len() && 0 <= k < rs[j].platforms@.len() && rs[j].version@ == version
            && (#[trigger] rs[j].platforms@[k]).platform@ == host && rs[j].platforms@[k].tarball is Some
            && rs[j].platforms@[k].tarball->0@ == url
}

/// The archive location of `version` for `host`, where the catalog has one.
pub fn download_url(catalog: &ReleaseCatalog, version: &str, host: &str) -> (r: Option<String>)
    ensures
        r matches Some(u) ==> has_download(catalog.releases@, version@, host@, u@),
        r is None ==> forall|j: int, k: int|
            0 <= j < catalog.releases@.len() && 0 <= k < catalog.releases@[j].platforms@.len()
                && (#[trigger] catalog.releases@[j].platforms@[k]).platform@ == host@
                && catalog.releases@[j].version@ == version@
                ==> catalog.releases@[j].platforms@[k].tarball is None,
{
    let rs = &catalog.releases;
    let version_s = version.to_owned();
    let host_s = host.to_owned();
    let mut j: usize = 0;
    while j < rs.len()
        invariant
            j <= rs@.len(),
            rs@ == catalog.releases@,
            version_s@ == version@,
            host_s@ == host@,
            forall|jj: int, k: int|
                0 <= jj < j && 0 <= k < rs@[jj].platforms@.len()
                    && (#[trigger] rs@[jj].platforms@[k]).platform@ == host@ && rs@[jj].version@
                    == version@ ==> rs@[jj].platforms@[k].tarball is None,
        decreases rs@.len() - j,
    {
        let rel = &rs[j];
        if rel.version == version_s {
            let mut k: usize = 0;
            while k < rel.platforms.len()
                invariant
                    k <= rel.platforms@.len(),
                    j < rs@.len(),
                    rs@ == catalog.releases@,
                    *rel == rs@[j as int],
                    rel.version@ == version@,
                    host_s@ == host@,
                    forall|kk: int|
                        0 <= kk < k && (#[trigger] rel.platforms@[kk]).platform@ == host@
                            ==> rel.platforms@[kk].tarball is None,
                decreases rel.platforms@.len() - k,
            {
                let entry = &rel.platforms[k];
                if entry.platform == host_s {
                    match &entry.tarball {
                        Some(url) => {
                            let found = url.clone();
                            assert(rs@[j as int].platforms@[k as int].platform@ == host@);
                            assert(rs@[j as int].platforms@[k as int].tarball->0@ == found@);
                            return Some(found);
                        },
                        None => {},
                    }
                }
                k = k + 1;
            }
        }
        j = j + 1;
    }
    None
}


/// The version selected is never the rolling tag and never below the floor.
pub proof fn lemma_selected_meets_floor(rs: Seq<Release>, host: Seq<char>, floor: VersionId, v: Seq<char>)
    requires
        latest(rs, host, floor, v),
    ensures
        v != rolling_tag(),
        at_least_spec(v, floor),
{
    reveal(eligible);
    let j = choose|j: int| 0 <= j < rs.len() && eligible(#[trigger] rs[j], host, floor) && v == rs[j].version@;
}

/// In a catalog with unique versions, a version with no archive for `host`
/// is never listed, whatever other platforms it supports.
pub proof fn lemma_unsupported_excluded(
    rs: Seq<Release>,
    host: Seq<char>,
    floor: VersionId,
    out: Seq<String>,
    j: int,
)
    requires
        keys_unique(rs),
        listing(rs, host, floor, out),
        0 <= j < rs.len(),
        !supports(rs[j], host),
    ensures
        forall|i: int| 0 <= i < out.len() ==> (#[trigger] out[i])@ != rs[j].version@,
{
    reveal(eligible);
    assert forall|i: int| 0 <= i < out.len() implies (#[trigger] out[i])@ != rs[j].version@ by {
        if out[i]@ == rs[j].version@ {
            assert(offered(rs, host, floor, out[i]@));
            let m = choose|m: int|
                0 <= m < rs.len() && eligible(#[trigger] rs[m], host, floor) && out[i]@ == rs[m].version@;
            if m < j {
                assert(rs[m].version@ != rs[j].version@);
            } else if m > j {
                assert(rs[j].version@ != rs[m].version@);
            }
        }
    }
}

} // verus!
