use dep_fetch::errors::FetchError;
use dep_fetch::fetch::resolve_latest;
use dep_fetch::select::{read_latest_version, version_is_stable, CrateVersion};
use dep_fetch::version::{version_cmp, PreIdent, Version};

fn release(major: u64, minor: u64, patch: u64) -> Version {
    Version {
        major,
        minor,
        patch,
        pre: vec![],
        build: vec![],
    }
}

fn prerelease(major: u64, minor: u64, patch: u64, tag: &str) -> Version {
    Version {
        major,
        minor,
        patch,
        pre: vec![PreIdent::Alpha(tag.as_bytes().to_vec())],
        build: vec![],
    }
}

fn record(name: &str, version: Version, yanked: bool) -> CrateVersion {
    CrateVersion {
        name: name.as_bytes().to_vec(),
        version,
        yanked,
        available_features: vec![],
    }
}

#[test]
fn get_latest_stable_version() {
    let versions = vec![
        record("foo", prerelease(0, 6, 0, "alpha"), false),
        record("foo", release(0, 5, 0), false),
    ];
    assert_eq!(
        read_latest_version(&versions, false)
            .unwrap()
            .version()
            .unwrap(),
        &b"0.5.0".to_vec()
    );
}

#[test]
fn get_latest_unstable_or_stable_version() {
    let versions = vec![
        record("foo", prerelease(0, 6, 0, "alpha"), false),
        record("foo", release(0, 5, 0), false),
    ];
    assert_eq!(
        read_latest_version(&versions, true)
            .unwrap()
            .version()
            .unwrap(),
        &b"0.6.0-alpha".to_vec()
    );
}

#[test]
fn get_latest_version_with_yanked() {
    let versions = vec![
        record("treexml", release(0, 3, 1), true),
        record("true", release(0, 3, 0), false),
    ];
    assert_eq!(
        read_latest_version(&versions, false)
            .unwrap()
            .version()
            .unwrap(),
        &b"0.3.0".to_vec()
    );
}

#[test]
fn get_no_latest_version_from_json_when_all_are_yanked() {
    let versions = vec![
        record("treexml", release(0, 3, 1), true),
        record("true", release(0, 3, 0), true),
    ];
    assert!(read_latest_version(&versions, false).is_err());
}

#[test]
fn all_yanked_selection_reports_no_versions_available() {
    let versions = vec![
        record("treexml", release(0, 3, 1), true),
        record("true", release(0, 3, 0), true),
    ];
    match read_latest_version(&versions, false) {
        Err(FetchError::NoVersionsAvailable) => {}
        other => panic!("unexpected selection outcome: {:?}", other),
    }
}

#[test]
fn selection_is_idempotent_on_same_records() {
    let versions = vec![
        record("foo", release(1, 2, 3), false),
        record("foo", prerelease(2, 0, 0, "beta"), false),
        record("foo", release(1, 9, 0), false),
    ];
    let first = read_latest_version(&versions, false).unwrap();
    let second = read_latest_version(&versions, false).unwrap();
    assert_eq!(first, second);
    assert_eq!(first.version().unwrap(), &b"1.9.0".to_vec());
}

#[test]
fn selection_carries_available_features() {
    let mut best = record("foo", release(2, 0, 0), false);
    best.available_features = vec![b"serde".to_vec(), b"rayon".to_vec()];
    let versions = vec![record("foo", release(1, 0, 0), false), best];
    let dep = read_latest_version(&versions, false).unwrap();
    assert_eq!(
        dep.available_features,
        vec![b"serde".to_vec(), b"rayon".to_vec()]
    );
}

#[test]
fn prerelease_rendering_includes_identifiers_and_build() {
    let version = Version {
        major: 1,
        minor: 20,
        patch: 3,
        pre: vec![PreIdent::Num(1), PreIdent::Alpha(b"rc".to_vec())],
        build: b"build5".to_vec(),
    };
    let versions = vec![record("foo", version, false)];
    let dep = read_latest_version(&versions, true).unwrap();
    assert_eq!(dep.version().unwrap(), &b"1.20.3-1.rc+build5".to_vec());
}

#[test]
fn version_ordering_follows_semver_precedence() {
    // a release outranks its prereleases
    assert_eq!(version_cmp(&prerelease(1, 0, 0, "alpha"), &release(1, 0, 0)), -1);
    // numeric identifiers precede alphanumeric ones
    let num = Version {
        major: 1,
        minor: 0,
        patch: 0,
        pre: vec![PreIdent::Num(11)],
        build: vec![],
    };
    assert_eq!(version_cmp(&num, &prerelease(1, 0, 0, "alpha")), -1);
    // numeric identifiers compare by value, not text
    let two = Version {
        major: 1,
        minor: 0,
        patch: 0,
        pre: vec![PreIdent::Num(2)],
        build: vec![],
    };
    assert_eq!(version_cmp(&two, &num), -1);
    // a shorter identifier list precedes its extension
    let longer = Version {
        major: 1,
        minor: 0,
        patch: 0,
        pre: vec![PreIdent::Alpha(b"alpha".to_vec()), PreIdent::Num(1)],
        build: vec![],
    };
    assert_eq!(version_cmp(&prerelease(1, 0, 0, "alpha"), &longer), -1);
}

#[test]
fn stability_check_reads_prerelease_identifiers() {
    assert!(version_is_stable(&record("foo", release(1, 0, 0), false)));
    assert!(!version_is_stable(&record(
        "foo",
        prerelease(1, 0, 0, "alpha"),
        false
    )));
}

#[test]
fn resolve_latest_rejects_empty_name() {
    let versions = vec![record("foo", release(1, 0, 0), false)];
    match resolve_latest(b"", &versions, false) {
        Err(FetchError::EmptyCrateName) => {}
        other => panic!("unexpected outcome: {:?}", other),
    }
}

#[test]
fn resolve_latest_reports_fuzzy_rename() {
    let versions = vec![record("dc-janus", release(1, 0, 0), false)];
    let (dep, renamed) = resolve_latest(b"dc_janus", &versions, false).unwrap();
    assert_eq!(dep.name, b"dc-janus".to_vec());
    assert!(renamed);

    let (dep, renamed) = resolve_latest(b"dc-janus", &versions, false).unwrap();
    assert_eq!(dep.name, b"dc-janus".to_vec());
    assert!(!renamed);
}
