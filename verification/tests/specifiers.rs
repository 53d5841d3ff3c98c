use dep_fetch::crate_name::CrateName;
use dep_fetch::dependency::DependencySource;
use dep_fetch::errors::FetchError;

#[test]
fn bare_name_parses_to_nothing() {
    let spec = CrateName::new(b"docopt");
    assert!(!spec.has_version());
    assert!(!spec.is_path());
    assert_eq!(spec.name(), b"docopt");
    assert!(spec.parse_version_or_features().unwrap().is_none());
}

#[test]
fn name_with_version_requirement_parses() {
    let spec = CrateName::new(b"docopt@^0.8");
    assert!(spec.has_version());
    let dep = spec.parse_version_or_features().unwrap().unwrap();
    assert_eq!(dep.name, b"docopt".to_vec());
    assert_eq!(dep.version().unwrap(), &b"^0.8".to_vec());
    assert!(dep.features.is_none());
}

#[test]
fn invalid_version_requirement_is_refused() {
    let spec = CrateName::new(b"name@not-a-version");
    match spec.parse_version_or_features() {
        Err(FetchError::InvalidVersionRequirement(text)) => {
            assert_eq!(text, b"not-a-version".to_vec());
        }
        other => panic!("unexpected outcome: {:?}", other),
    }
}

#[test]
fn feature_list_without_version_keeps_source_empty() {
    let spec = CrateName::new(b"name+featA,featB");
    let dep = spec.parse_version_or_features().unwrap().unwrap();
    assert_eq!(dep.name, b"name".to_vec());
    assert_eq!(
        dep.features,
        Some(vec![b"featA".to_vec(), b"featB".to_vec()])
    );
    assert!(dep.source.is_none());
    assert!(dep.version().is_none());
}

#[test]
fn feature_list_and_version_combine() {
    let spec = CrateName::new(b"name+featA,featB@1.0");
    let dep = spec.parse_version_or_features().unwrap().unwrap();
    assert_eq!(dep.name, b"name".to_vec());
    assert_eq!(dep.version().unwrap(), &b"1.0".to_vec());
    assert_eq!(
        dep.features,
        Some(vec![b"featA".to_vec(), b"featB".to_vec()])
    );
}

#[test]
fn invalid_requirement_behind_feature_list_is_refused() {
    let spec = CrateName::new(b"name+feats@not-a-version");
    match spec.parse_version_or_features() {
        Err(FetchError::InvalidVersionRequirement(text)) => {
            assert_eq!(text, b"not-a-version".to_vec());
        }
        other => panic!("unexpected outcome: {:?}", other),
    }
}

#[test]
fn path_heuristic_reads_dots_and_slashes() {
    assert!(CrateName::new(b"../foo").is_path());
    assert!(CrateName::new(b"foo/bar").is_path());
    assert!(CrateName::new(b"C:\\projects\\demo").is_path());
    assert!(!CrateName::new(b"plain_name").is_path());
}

#[test]
fn descriptor_builders_keep_one_source() {
    let dep = dep_fetch::dependency::Dependency::new(b"demo");
    assert!(dep.source.is_none());
    let dep = dep.set_version(b"1.2.3");
    match &dep.source {
        Some(DependencySource::Version(v)) => assert_eq!(v, &b"1.2.3".to_vec()),
        other => panic!("unexpected source: {:?}", other),
    }
    let dep = dep.set_git(b"https://github.com/o/r", None);
    match &dep.source {
        Some(DependencySource::Git(url, rev)) => {
            assert_eq!(url, &b"https://github.com/o/r".to_vec());
            assert!(rev.is_none());
        }
        other => panic!("unexpected source: {:?}", other),
    }
    assert!(dep.version().is_none());
}
