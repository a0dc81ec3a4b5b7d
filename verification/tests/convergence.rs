use pkdump_db::convergence::{fingerprint, fingerprint_preimage, is_converged, to_hex};
use sha2::{Digest, Sha256};

fn inputs(list: &[(&str, &str)]) -> Vec<(String, String)> {
    list.iter().map(|(p, b)| (p.to_string(), b.to_string())).collect()
}

#[test]
fn the_fingerprint_is_stable_across_calls() {
    let added = vec![("cards".to_string(), "rarity".to_string(), "ALTER TABLE cards ADD rarity TEXT".to_string())];
    let ins = inputs(&[("data/sets.json", "[]"), ("data/rarities.json", "{\"a\":1}")]);
    assert_eq!(fingerprint(2, &added, &ins), fingerprint(2, &added, &ins));
    assert_eq!(fingerprint(2, &added, &ins).len(), 64);
}

#[test]
fn concatenating_two_inputs_is_not_the_same_as_one() {
    let joined = fingerprint(2, &vec![], &inputs(&[("a", "xy"), ("b", "zw")]));
    let one = fingerprint(2, &vec![], &inputs(&[("a", "xyzw")]));
    assert_ne!(joined, one);
}

#[test]
fn the_preimage_is_length_prefixed_per_input() {
    let added = vec![("t".to_string(), "c".to_string(), "DDL".to_string())];
    let bytes = fingerprint_preimage(2, &added, &inputs(&[("a", "xy"), ("b", "é")]));
    assert_eq!(
        String::from_utf8(bytes).unwrap(),
        "schema_version=2\nadded_column=t.c:3\nDDLinput=a:2\nxyinput=b:2\né"
    );
}

#[test]
fn the_fingerprint_is_the_sha256_of_the_preimage_in_lowercase_hex() {
    let ins = inputs(&[("a", "xy")]);
    let mut h = Sha256::new();
    h.update(b"schema_version=2\ninput=a:2\nxy");
    let want: String = h.finalize().iter().map(|b| format!("{b:02x}")).collect();
    assert_eq!(fingerprint(2, &vec![], &ins), want);
    // The empty string's digest, as every SHA-256 reference gives it.
    let mut e = Sha256::new();
    e.update(b"");
    assert_eq!(
        to_hex(&e.finalize().to_vec()),
        "e3b0c44298fc1c149afbf4c8996fb92427ae41e4649b934ca495991b7852b855"
    );
}

#[test]
fn bytes_are_written_as_two_lowercase_hex_digits() {
    assert_eq!(to_hex(&vec![0x00, 0x0f, 0xa0, 0xff]), "000fa0ff");
    assert_eq!(to_hex(&vec![]), "");
}

#[test]
fn only_a_stamped_catalog_with_this_builds_fingerprint_is_converged() {
    let want = fingerprint(2, &vec![], &vec![]);
    assert!(is_converged(Some(2), 2, &Some(want.clone()), &want));
    assert!(!is_converged(Some(1), 2, &Some(want.clone()), &want), "an unstamped file is not converged");
    assert!(!is_converged(None, 2, &Some(want.clone()), &want), "an unreadable version is not converged");
    assert!(!is_converged(Some(2), 2, &None, &want), "no recorded fingerprint is not converged");
    assert!(!is_converged(Some(2), 2, &Some("0".repeat(64)), &want), "another fingerprint is not converged");
}
