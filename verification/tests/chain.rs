use workbench::chain::{block_hash, generate_address, proof_of_work, to_lower_hex, valid_proof};

#[test]
fn hex_of_bytes() {
    let s: String = to_lower_hex(&[10, 20, 30, 0, 255]).into_iter().collect();
    assert_eq!(s, "0a141e00ff");
}

#[test]
fn block_hash_is_sha256_hex() {
    assert_eq!(
        block_hash("abc"),
        "ba7816bf8f01cfea414140de5dae2223b00361a396177a9cb410ff61f20015ad"
    );
    assert_eq!(block_hash("{\"index\":0}").len(), 64);
}

#[test]
fn proof_validity() {
    assert!(valid_proof(100, 35293));
    assert!(!valid_proof(100, 1));
}

#[test]
fn proof_of_work_finds_the_first_valid_proof() {
    assert_eq!(proof_of_work(100), Some(35293));
    assert_eq!(proof_of_work(0), Some(69732));
}

#[test]
fn wallet_addresses_are_forty_hex_digits() {
    let a = generate_address();
    assert_eq!(a.len(), 40);
    assert!(a.chars().all(|c| c.is_ascii_hexdigit() && !c.is_ascii_uppercase()));
    let b = generate_address();
    assert_ne!(a, b);
}
