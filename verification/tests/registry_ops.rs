use dep_fetch::errors::FetchError;
use dep_fetch::fetch::{
    get_default_timeout, get_features_from_registry, need_retry, registry_backoff_ms,
    update_retry_step, IndexUpdateEvent, RetryDecision,
};
use dep_fetch::select::CrateVersion;
use dep_fetch::version::Version;

fn record_with_features(version: Version, features: &[&str]) -> CrateVersion {
    CrateVersion {
        name: b"demo".to_vec(),
        version,
        yanked: false,
        available_features: features.iter().map(|f| f.as_bytes().to_vec()).collect(),
    }
}

fn release(major: u64, minor: u64, patch: u64) -> Version {
    Version {
        major,
        minor,
        patch,
        pre: vec![],
        build: vec![],
    }
}

#[test]
fn only_lock_contention_is_retried() {
    assert!(need_retry(&IndexUpdateEvent::Locked));
    assert!(!need_retry(&IndexUpdateEvent::Success));
    assert!(!need_retry(&IndexUpdateEvent::Failed(b"boom".to_vec())));
}

#[test]
fn retry_machine_maps_events_to_decisions() {
    assert_eq!(
        update_retry_step(IndexUpdateEvent::Success),
        RetryDecision::Success
    );
    assert_eq!(
        update_retry_step(IndexUpdateEvent::Locked),
        RetryDecision::Retrying
    );
    assert_eq!(
        update_retry_step(IndexUpdateEvent::Failed(b"boom".to_vec())),
        RetryDecision::Fatal(b"boom".to_vec())
    );
}

#[test]
fn backoff_and_timeout_constants() {
    assert_eq!(registry_backoff_ms(), 1000);
    assert_eq!(get_default_timeout(), 10);
}

#[test]
fn features_come_from_the_matching_version() {
    let records = vec![
        record_with_features(release(0, 3, 0), &["old"]),
        record_with_features(release(1, 0, 0), &["one"]),
        record_with_features(release(2, 0, 0), &["two"]),
    ];
    let feats = get_features_from_registry(b"demo", b"^1.0", &records).unwrap();
    assert_eq!(feats, vec![b"one".to_vec()]);
}

#[test]
fn features_fall_back_to_highest_version() {
    let records = vec![
        record_with_features(release(2, 0, 0), &["newest"]),
        record_with_features(release(0, 3, 0), &["old"]),
    ];
    let feats = get_features_from_registry(b"demo", b"^9", &records).unwrap();
    assert_eq!(feats, vec![b"newest".to_vec()]);
}

#[test]
fn unparseable_requirement_reports_parse_version() {
    let records = vec![record_with_features(release(1, 0, 0), &[])];
    match get_features_from_registry(b"demo", b"not-a-version", &records) {
        Err(FetchError::ParseVersion(req, name)) => {
            assert_eq!(req, b"not-a-version".to_vec());
            assert_eq!(name, b"demo".to_vec());
        }
        other => panic!("unexpected outcome: {:?}", other),
    }
}

#[test]
fn feature_lookup_without_records_reports_no_crate() {
    let records: Vec<CrateVersion> = vec![];
    match get_features_from_registry(b"demo", b"^1", &records) {
        Err(FetchError::NoCrate(name)) => assert_eq!(name, b"demo".to_vec()),
        other => panic!("unexpected outcome: {:?}", other),
    }
}
