use dep_fetch::fetch::FuzzyProbe;
use dep_fetch::fuzzy::gen_fuzzy_crate_names;

fn check_fuzzy(input: &str, expect: &[&str]) {
    let mut actual: Vec<Vec<u8>> = gen_fuzzy_crate_names(input.as_bytes());
    actual.sort();

    let mut expected: Vec<Vec<u8>> = expect.iter().map(|x| x.as_bytes().to_vec()).collect();
    expected.sort();

    assert_eq!(actual, expected);
}

#[test]
fn test_gen_fuzzy_crate_names() {
    check_fuzzy("", &[""]);
    check_fuzzy("-", &["_", "-"]);
    check_fuzzy("DCjanus", &["DCjanus"]);
    check_fuzzy("DC-janus", &["DC-janus", "DC_janus"]);
    check_fuzzy(
        "DC-_janus",
        &["DC__janus", "DC_-janus", "DC-_janus", "DC--janus"],
    );
}

#[test]
fn fuzzy_no_separator_single_variant() {
    let variants = gen_fuzzy_crate_names(b"docopt");
    assert_eq!(variants, vec![b"docopt".to_vec()]);
}

#[test]
fn fuzzy_exact_name_comes_first() {
    let variants = gen_fuzzy_crate_names(b"DC_-janus");
    assert_eq!(variants.len(), 4);
    assert_eq!(variants[0], b"DC_-janus".to_vec());

    let variants = gen_fuzzy_crate_names(b"parking_lot_core");
    assert_eq!(variants.len(), 4);
    assert_eq!(variants[0], b"parking_lot_core".to_vec());
}

#[test]
fn fuzzy_variants_are_distinct() {
    let mut variants = gen_fuzzy_crate_names(b"a-b_c-d");
    assert_eq!(variants.len(), 8);
    variants.sort();
    variants.dedup();
    assert_eq!(variants.len(), 8);
}

#[test]
fn fuzzy_probe_walks_variants_exact_first() {
    let mut probe = FuzzyProbe::new(b"DC-janus");
    let first = probe.next_name().expect("two variants expected");
    assert_eq!(first, b"DC-janus".to_vec());
    let second = probe.next_name().expect("two variants expected");
    assert_eq!(second, b"DC_janus".to_vec());
    assert!(probe.next_name().is_none());
    match probe.no_crate_error() {
        dep_fetch::errors::FetchError::NoCrate(name) => assert_eq!(name, b"DC-janus".to_vec()),
        other => panic!("unexpected error: {:?}", other),
    }
}
