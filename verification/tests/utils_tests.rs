use solana_stub_prover::utils::{
    base58_decode, base58_to_bytes32, get_epoch_for_slot, sha256_from_u64, sha256_hash,
    u64_to_string, SLOTS_PER_EPOCH,
};

#[test]
fn sha256_known_vectors() {
    let empty = hex::decode("e3b0c44298fc1c149afbf4c8996fb92427ae41e4649b934ca495991b7852b855")
        .unwrap();
    assert_eq!(sha256_hash(b"").to_vec(), empty);
    let abc = hex::decode("ba7816bf8f01cfea414140de5dae2223b00361a396177a9cb410ff61f20015ad")
        .unwrap();
    assert_eq!(sha256_hash(b"abc").to_vec(), abc);
}

#[test]
fn sha256_from_u64_hashes_little_endian_bytes() {
    assert_eq!(sha256_from_u64(100), sha256_hash(&100u64.to_le_bytes()));
    assert_eq!(sha256_from_u64(0), sha256_hash(&[0u8; 8]));
}

#[test]
fn base58_decodes_system_address_to_zero_bytes() {
    // The all-ones base58 text is the canonical encoding of 32 zero bytes.
    let addr = "11111111111111111111111111111111";
    assert_eq!(base58_to_bytes32(addr).unwrap(), [0u8; 32]);
    assert_eq!(base58_decode(addr).unwrap(), vec![0u8; 32]);
}

#[test]
fn base58_round_trips_a_real_pubkey() {
    let text = "So11111111111111111111111111111111111111112";
    let bytes = base58_to_bytes32(text).unwrap();
    assert_eq!(bs58::encode(&bytes).into_string(), text);
}

#[test]
fn base58_rejects_wrong_length() {
    assert!(base58_to_bytes32("abc").is_err());
}

#[test]
fn base58_rejects_invalid_characters() {
    // '0', 'O', 'I' and 'l' are not base58 digits.
    assert!(base58_to_bytes32("0OIl0OIl0OIl0OIl0OIl0OIl0OIl0OIl").is_err());
    assert!(base58_decode("0").is_err());
}

#[test]
fn epoch_constant_and_division() {
    assert_eq!(SLOTS_PER_EPOCH, 432000);
    assert_eq!(get_epoch_for_slot(432000), 1);
    assert_eq!(get_epoch_for_slot(431999), 0);
    assert_eq!(get_epoch_for_slot(u64::MAX), u64::MAX / 432000);
}

#[test]
fn u64_decimal_rendering() {
    assert_eq!(u64_to_string(0), "0");
    assert_eq!(u64_to_string(7), "7");
    assert_eq!(u64_to_string(100), "100");
    assert_eq!(u64_to_string(1234567890), "1234567890");
    assert_eq!(u64_to_string(u64::MAX), "18446744073709551615");
}
