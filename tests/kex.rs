use cluelessh::kex::{derive_key, kex_algorithm_by_name, key_exchange_hash, write_mpint, KexAlgorithm, KexError, KeyExchangeSecret};

#[test]
fn x25519_agreement() {
    let a = KeyExchangeSecret::generate(KexAlgorithm::Curve25519Sha256, [1; 32]).unwrap();
    let b = KeyExchangeSecret::generate(KexAlgorithm::Curve25519Sha256, [2; 32]).unwrap();
    assert_eq!(a.pubkey.len(), 32);
    assert_eq!(a.exchange(&b.pubkey).unwrap(), b.exchange(&a.pubkey).unwrap());
    assert_eq!(a.exchange(&[0; 31]), Err(KexError::InvalidPeerKey));
}

#[test]
fn p256_agreement() {
    let a = KeyExchangeSecret::generate(KexAlgorithm::EcdhSha2Nistp256, [1; 32]).unwrap();
    let b = KeyExchangeSecret::generate(KexAlgorithm::EcdhSha2Nistp256, [2; 32]).unwrap();
    assert_eq!(a.pubkey.len(), 65);
    assert_eq!(a.exchange(&b.pubkey).unwrap(), b.exchange(&a.pubkey).unwrap());
    assert_eq!(a.exchange(&[4, 1, 2]), Err(KexError::InvalidPeerKey));
    assert!(matches!(
        KeyExchangeSecret::generate(KexAlgorithm::EcdhSha2Nistp256, [0; 32]),
        Err(KexError::InvalidSecret)
    ));
}

#[test]
fn kex_names() {
    assert_eq!(kex_algorithm_by_name("curve25519-sha256"), Some(KexAlgorithm::Curve25519Sha256));
    assert_eq!(kex_algorithm_by_name("ecdh-sha2-nistp256"), Some(KexAlgorithm::EcdhSha2Nistp256));
    assert_eq!(kex_algorithm_by_name("diffie-hellman-group1-sha1"), None);
}

#[test]
fn mpint_encoding() {
    let mut out = Vec::new();
    write_mpint(&mut out, &[0x80, 1]);
    assert_eq!(out, vec![0, 0, 0, 3, 0, 0x80, 1]);
    let mut out = Vec::new();
    write_mpint(&mut out, &[0, 0, 0x7f]);
    assert_eq!(out, vec![0, 0, 0, 1, 0x7f]);
    let mut out = Vec::new();
    write_mpint(&mut out, &[0, 0]);
    assert_eq!(out, vec![0, 0, 0, 0]);
}

#[test]
fn key_derivation_is_deterministic_and_prefix_stable() {
    let k = [0x91u8; 32];
    let h = [0x22u8; 32];
    for n in 1..=128usize {
        let a = derive_key(&k, &h, b'A', &h, n);
        let b = derive_key(&k, &h, b'A', &h, n);
        assert_eq!(a.len(), n);
        assert_eq!(a, b);
        let long = derive_key(&k, &h, b'A', &h, 128);
        assert_eq!(&long[..n], &a[..]);
    }
    assert_ne!(derive_key(&k, &h, b'A', &h, 32), derive_key(&k, &h, b'B', &h, 32));
}

#[test]
fn known_sha256_block() {
    // With an empty secret, hash and session id, the first block is the
    // SHA-256 digest of the empty mpint (four zero bytes) and the letter.
    let key = derive_key(&[], &[], b'A', &[], 32);
    assert_eq!(
        key,
        vec![
            128, 133, 49, 231, 25, 43, 91, 134, 186, 151, 233, 130, 36, 205, 151, 229, 93, 237, 131,
            251, 247, 155, 194, 133, 129, 253, 190, 120, 222, 72, 207, 145
        ]
    );
}

#[test]
fn exchange_hash_is_deterministic() {
    let args: [&[u8]; 8] = [b"SSH-2.0-c\r\n", b"SSH-2.0-s\r\n", b"ic", b"is", b"ks", b"qc", b"qs", &[1, 2]];
    let a = key_exchange_hash(args[0], args[1], args[2], args[3], args[4], args[5], args[6], args[7]);
    let b = key_exchange_hash(args[0], args[1], args[2], args[3], args[4], args[5], args[6], args[7]);
    assert_eq!(a.len(), 32);
    assert_eq!(a, b);
    let hex: String = a.iter().map(|b| format!("{b:02x}")).collect();
    assert_eq!(hex, "8d83f151cbbba35c25c58d99c491a0e6b91a5371a845727380f76dea483c2bfc");
    let c = key_exchange_hash(args[0], args[1], args[2], args[3], args[4], args[5], args[6], &[1, 3]);
    assert_ne!(a, c);
}
