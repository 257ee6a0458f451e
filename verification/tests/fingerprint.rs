use deco_core::digest::sha256_hex;

#[test]
fn hashes_empty_input() {
    assert_eq!(
        sha256_hex(""),
        "sha256:e3b0c44298fc1c149afbf4c8996fb92427ae41e4649b934ca495991b7852b855"
    );
}

#[test]
fn hashes_short_input() {
    assert_eq!(
        sha256_hex("abc"),
        "sha256:ba7816bf8f01cfea414140de5dae2223b00361a396177a9cb410ff61f20015ad"
    );
}

#[test]
fn distinct_inputs_distinct_digests() {
    assert_ne!(sha256_hex("{\"a\":1}"), sha256_hex("{\"a\":2}"));
}
