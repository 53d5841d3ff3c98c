use dep_fetch::errors::FetchError;
use dep_fetch::manifest::{
    get_manifest_url, is_github_url, is_gitlab_url, parse_manifest, parse_repo_url, RepoHost,
};

#[test]
fn github_urls_resolve_to_raw_manifest_url() {
    let r = get_manifest_url(b"https://github.com/killercup/cargo-edit").unwrap();
    let (host, raw) = r.unwrap();
    assert_eq!(host, RepoHost::Github);
    assert_eq!(
        raw,
        b"https://raw.githubusercontent.com/killercup/cargo-edit/master/Cargo.toml".to_vec()
    );
}

#[test]
fn github_url_suffixes_are_accepted() {
    for url in [
        b"https://github.com/owner/repo".to_vec(),
        b"https://github.com/owner/repo/".to_vec(),
        b"https://github.com/owner/repo.git".to_vec(),
    ] {
        let (host, raw) = get_manifest_url(&url).unwrap().unwrap();
        assert_eq!(host, RepoHost::Github);
        assert_eq!(
            raw,
            b"https://raw.githubusercontent.com/owner/repo/master/Cargo.toml".to_vec()
        );
    }
}

#[test]
fn gitlab_urls_resolve_to_raw_manifest_url() {
    let (host, raw) = get_manifest_url(b"https://gitlab.com/owner/repo").unwrap().unwrap();
    assert_eq!(host, RepoHost::Gitlab);
    assert_eq!(
        raw,
        b"https://gitlab.com/owner/repo/raw/master/Cargo.toml".to_vec()
    );
}

#[test]
fn recognized_host_without_repo_shape_is_refused() {
    for url in [
        b"https://github.com/killercup".to_vec(),
        b"https://github.com/".to_vec(),
        b"https://github.com/a/b/c".to_vec(),
        b"https://gitlab.com/only-owner".to_vec(),
    ] {
        match get_manifest_url(&url) {
            Err(FetchError::UnrecognizedRepositoryUrl) => {}
            other => panic!("unexpected outcome for {:?}: {:?}", url, other),
        }
    }
}

#[test]
fn unrecognized_hosts_yield_no_manifest() {
    assert!(get_manifest_url(b"https://example.com/a/b").unwrap().is_none());
    assert!(get_manifest_url(b"plain-name").unwrap().is_none());
}

#[test]
fn host_checks_read_the_prefix() {
    assert!(is_github_url(b"https://github.com/a/b"));
    assert!(!is_github_url(b"https://gitlab.com/a/b"));
    assert!(is_gitlab_url(b"https://gitlab.com/a/b"));
    assert!(!is_gitlab_url(b"http://gitlab.com/a/b"));
}

#[test]
fn repo_parsing_extracts_owner_and_repo() {
    let (owner, repo) =
        parse_repo_url(b"https://github.com/rust-lang/cargo.git", b"https://github.com/").unwrap();
    assert_eq!(owner, b"rust-lang".to_vec());
    assert_eq!(repo, b"cargo".to_vec());
    assert!(parse_repo_url(b"https://github.com/rust-lang/", b"https://github.com/").is_none());
}

#[test]
fn manifest_parsing_reads_package_name_and_features() {
    let body = b"# demo manifest\n[package]\nname = \"demo-crate\"\nversion = \"0.1.0\"\n\n[features]\ndefault = [\"serde\"]\nextra = []\n\n[dependencies]\nserde = \"1\"\n";
    let manifest = parse_manifest(body).unwrap();
    assert_eq!(manifest.package_name, b"demo-crate".to_vec());
    assert_eq!(
        manifest.features,
        vec![b"default".to_vec(), b"extra".to_vec()]
    );
}

#[test]
fn manifest_without_package_name_is_refused() {
    let body = b"[dependencies]\nserde = \"1\"\n";
    match parse_manifest(body) {
        Err(FetchError::ManifestParseFailure) => {}
        other => panic!("unexpected outcome: {:?}", other),
    }
}
