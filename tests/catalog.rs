use cv::catalog::{download_url, list_available, minimum_version, select_latest, PlatformEntry, Release, ReleaseCatalog};
use cv::error::InstallError;
use cv::index::{catalog_from_json, filter_zig_versions, parse_index};
use cv::version::VersionId;

fn entry(platform: &str, tarball: Option<&str>) -> PlatformEntry {
    PlatformEntry { platform: platform.to_string(), tarball: tarball.map(|t| t.to_string()) }
}

fn release(version: &str, platforms: Vec<PlatformEntry>) -> Release {
    Release { version: version.to_string(), platforms }
}

fn sample() -> ReleaseCatalog {
    ReleaseCatalog {
        releases: vec![
            release("0.15.1", vec![entry("x86_64-linux", Some("u"))]),
            release("0.9.0", vec![entry("x86_64-linux", Some("u"))]),
            release("master", vec![entry("x86_64-linux", Some("u"))]),
        ],
    }
}

#[test]
fn test_zig_json_parsing() {
    let data = r#"{
        "0.15.1": {
            "x86_64-linux": { "tarball": "url" },
            "aarch64-linux": { "tarball": "url" }
        },
        "0.9.0": {
            "x86_64-linux": { "tarball": "url" }
        },
        "master": {
            "x86_64-linux": { "tarball": "url" }
        }
    }"#;
    let json: serde_json::Value = serde_json::from_str(data).unwrap();
    let host = "x86_64-linux";
    let versions = filter_zig_versions(&json, host);
    assert_eq!(versions, vec!["0.15.1"]);
}

#[test]
fn listing_excludes_master_and_sub_floor() {
    let versions = list_available(&sample(), "x86_64-linux", minimum_version());
    assert_eq!(versions, vec!["0.15.1".to_string()]);
}

#[test]
fn listing_excludes_version_without_local_tarball() {
    let catalog = ReleaseCatalog {
        releases: vec![
            release("0.12.0", vec![entry("aarch64-macos", Some("m")), entry("x86_64-linux", None)]),
            release("0.13.0", vec![entry("x86_64-linux", Some("l"))]),
            release("0.14.0", vec![entry("aarch64-macos", Some("m"))]),
        ],
    };
    let versions = list_available(&catalog, "x86_64-linux", minimum_version());
    assert_eq!(versions, vec!["0.13.0".to_string()]);
    let mac = list_available(&catalog, "aarch64-macos", minimum_version());
    assert_eq!(mac, vec!["0.12.0".to_string(), "0.14.0".to_string()]);
}

#[test]
fn listing_is_ascending_by_version_not_text() {
    let catalog = ReleaseCatalog {
        releases: vec![
            release("0.9.1", vec![entry("h", Some("a"))]),
            release("0.11.0", vec![entry("h", Some("b"))]),
            release("0.10.1", vec![entry("h", Some("c"))]),
            release("0.10.0", vec![entry("h", Some("d"))]),
            release("1.0.0", vec![entry("h", Some("e"))]),
        ],
    };
    let versions = list_available(&catalog, "h", VersionId::new(0, 0, 0));
    assert_eq!(versions, vec!["0.9.1", "0.10.0", "0.10.1", "0.11.0", "1.0.0"]);
    assert_eq!(select_latest(&catalog, "h", minimum_version()), Ok("1.0.0".to_string()));
}

#[test]
fn select_latest_picks_maximum() {
    assert_eq!(select_latest(&sample(), "x86_64-linux", minimum_version()), Ok("0.15.1".to_string()));
}

#[test]
fn select_latest_on_empty_is_not_found() {
    assert_eq!(select_latest(&sample(), "riscv64-linux", minimum_version()), Err(InstallError::NotFound));
    let empty = ReleaseCatalog { releases: vec![] };
    assert_eq!(select_latest(&empty, "x86_64-linux", minimum_version()), Err(InstallError::NotFound));
    assert!(list_available(&empty, "x86_64-linux", minimum_version()).is_empty());
}

#[test]
fn download_url_finds_the_platform_entry() {
    let catalog = ReleaseCatalog {
        releases: vec![release("0.13.0", vec![entry("a", Some("ua")), entry("b", Some("ub")), entry("c", None)])],
    };
    assert_eq!(download_url(&catalog, "0.13.0", "b"), Some("ub".to_string()));
    assert_eq!(download_url(&catalog, "0.13.0", "c"), None);
    assert_eq!(download_url(&catalog, "0.14.0", "a"), None);
}

#[test]
fn parse_index_reads_catalog() {
    let text = r#"{"master": {"h": {"tarball": "m"}}, "0.14.0": {"h": {"tarball": "https://x/zig.tar.xz", "shasum": "00"}, "g": {"size": "1"}}}"#;
    let catalog = parse_index(text).unwrap();
    assert_eq!(catalog.releases.len(), 2);
    assert_eq!(download_url(&catalog, "0.14.0", "h"), Some("https://x/zig.tar.xz".to_string()));
    assert_eq!(download_url(&catalog, "0.14.0", "g"), None);
    assert_eq!(select_latest(&catalog, "h", minimum_version()), Ok("0.14.0".to_string()));
}

#[test]
fn parse_index_rejects_non_json() {
    assert!(matches!(parse_index("not json"), Err(InstallError::Format)));
    assert!(matches!(parse_index(""), Err(InstallError::Format)));
}

#[test]
fn non_object_index_is_empty_catalog() {
    let json: serde_json::Value = serde_json::from_str("[1, 2]").unwrap();
    assert!(catalog_from_json(&json).releases.is_empty());
    let catalog = parse_index(r#"{"0.12.0": 5}"#).unwrap();
    assert_eq!(catalog.releases.len(), 1);
    assert!(catalog.releases[0].platforms.is_empty());
}

#[test]
fn equal_versions_keep_catalog_order() {
    let catalog = ReleaseCatalog {
        releases: vec![
            release("0.11.0", vec![entry("h", Some("a"))]),
            release("0.10.0-alpha", vec![entry("h", Some("b"))]),
            release("0.10.0", vec![entry("h", Some("c"))]),
        ],
    };
    let versions = list_available(&catalog, "h", minimum_version());
    assert_eq!(versions, vec!["0.10.0-alpha", "0.10.0", "0.11.0"]);
}

#[test]
fn ineligible_member_leaves_listing_unchanged() {
    let base = r#"{"0.10.0": {"h": {"tarball": "a"}}, "0.10.0-alpha": {"h": {"tarball": "b"}}}"#;
    let more = r#"{"0.10.0": {"h": {"tarball": "a"}}, "0.10.0-alpha": {"h": {"tarball": "b"}}, "0.10.0-a": {"g": {"tarball": "c"}}, "master": {"h": {"tarball": "d"}}}"#;
    let a: serde_json::Value = serde_json::from_str(base).unwrap();
    let b: serde_json::Value = serde_json::from_str(more).unwrap();
    assert_eq!(filter_zig_versions(&a, "h"), filter_zig_versions(&b, "h"));
    assert_eq!(filter_zig_versions(&a, "h").len(), 2);
}

#[test]
fn catalog_follows_document_members() {
    let catalog = parse_index(r#"{"0.14.0": {"h": {"tarball": "t1"}, "g": {"tarball": 3}}}"#).unwrap();
    assert_eq!(catalog.releases[0].version, "0.14.0");
    let names: Vec<&str> = catalog.releases[0].platforms.iter().map(|p| p.platform.as_str()).collect();
    assert_eq!(names, vec!["g", "h"]);
    assert_eq!(catalog.releases[0].platforms[0].tarball, None);
    assert_eq!(catalog.releases[0].platforms[1].tarball, Some("t1".to_string()));
}
