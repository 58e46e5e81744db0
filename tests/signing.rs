use bolt::signing::{
    compute_commit_boost_signing_root, compute_domain, compute_domain_from_mask,
    compute_signing_root, parse_bls_public_key, verify_commit_boost_root, verify_root,
    BlsSecretKey, SigningError, APPLICATION_BUILDER_DOMAIN_MASK, COMMIT_BOOST_DOMAIN_MASK,
};

const MAINNET_COMMIT_BOOST_DOMAIN: [u8; 32] = [
    109, 109, 111, 67, 245, 165, 253, 66, 209, 106, 32, 48, 39, 152, 239, 110, 211, 9, 151, 155,
    67, 0, 61, 35, 32, 217, 240, 232, 234, 152, 49, 169,
];

const MAINNET_BUILDER_DOMAIN: [u8; 32] = [
    0, 0, 0, 1, 245, 165, 253, 66, 209, 106, 32, 48, 39, 152, 239, 110, 211, 9, 151, 155, 67, 0,
    61, 35, 32, 217, 240, 232, 234, 152, 49, 169,
];

const HOLESKY_COMMIT_BOOST_DOMAIN: [u8; 32] = [
    109, 109, 111, 67, 91, 131, 162, 55, 89, 197, 96, 178, 208, 198, 69, 118, 225, 220, 252, 52,
    234, 148, 196, 152, 143, 62, 13, 159, 119, 240, 83, 135,
];

fn secret(byte: u8) -> BlsSecretKey {
    BlsSecretKey::from_bytes([byte; 32]).expect("valid secret key")
}

fn to_hex(bytes: &[u8]) -> String {
    bytes.iter().map(|b| format!("{:02x}", b)).collect()
}

#[test]
fn commit_boost_domain_for_mainnet() {
    assert_eq!(compute_domain_from_mask([0, 0, 0, 0]), MAINNET_COMMIT_BOOST_DOMAIN);
}

#[test]
fn builder_domain_for_mainnet() {
    assert_eq!(compute_domain(APPLICATION_BUILDER_DOMAIN_MASK, [0, 0, 0, 0]), MAINNET_BUILDER_DOMAIN);
}

#[test]
fn commit_boost_domain_for_holesky() {
    assert_eq!(compute_domain(COMMIT_BOOST_DOMAIN_MASK, [1, 1, 112, 0]), HOLESKY_COMMIT_BOOST_DOMAIN);
}

#[test]
fn domain_is_deterministic_and_separates_masks_and_versions() {
    let a = compute_domain(COMMIT_BOOST_DOMAIN_MASK, [1, 1, 112, 0]);
    let b = compute_domain(COMMIT_BOOST_DOMAIN_MASK, [1, 1, 112, 0]);
    assert_eq!(a, b);
    assert_ne!(a, compute_domain(APPLICATION_BUILDER_DOMAIN_MASK, [1, 1, 112, 0]));
    assert_ne!(a, compute_domain(COMMIT_BOOST_DOMAIN_MASK, [0, 0, 0, 0]));
}

#[test]
fn signing_root_value() {
    let mut root = [0u8; 32];
    for (i, b) in root.iter_mut().enumerate() {
        *b = i as u8;
    }
    let expected: [u8; 32] = [
        154, 80, 94, 10, 31, 189, 212, 61, 87, 41, 19, 137, 238, 236, 68, 246, 86, 138, 29, 31,
        81, 213, 229, 194, 22, 250, 208, 76, 251, 191, 110, 211,
    ];
    assert_eq!(compute_signing_root(root, MAINNET_COMMIT_BOOST_DOMAIN), expected);
    assert_eq!(compute_commit_boost_signing_root(root, [0, 0, 0, 0]), expected);
}

#[test]
fn secret_key_zero_is_rejected() {
    assert!(BlsSecretKey::from_bytes([0u8; 32]).is_none());
    assert!(BlsSecretKey::from_bytes([0xffu8; 32]).is_none());
}

#[test]
fn sign_then_verify_succeeds() {
    let sk = secret(1);
    let pk = sk.public_key();
    let root = [7u8; 32];
    let sig = sk.sign(root, MAINNET_COMMIT_BOOST_DOMAIN);
    assert_eq!(verify_root(&pk, root, &sig, MAINNET_COMMIT_BOOST_DOMAIN), Ok(()));
    assert_eq!(verify_commit_boost_root(&pk, root, &sig, [0, 0, 0, 0]), Ok(()));
}

#[test]
fn verify_fails_on_other_domain() {
    let sk = secret(1);
    let pk = sk.public_key();
    let root = [7u8; 32];
    let sig = sk.sign(root, MAINNET_COMMIT_BOOST_DOMAIN);
    assert_eq!(
        verify_root(&pk, root, &sig, MAINNET_BUILDER_DOMAIN),
        Err(SigningError::SignatureMismatch)
    );
    assert_eq!(
        verify_commit_boost_root(&pk, root, &sig, [1, 1, 112, 0]),
        Err(SigningError::SignatureMismatch)
    );
}

#[test]
fn verify_fails_on_other_root() {
    let sk = secret(1);
    let pk = sk.public_key();
    let sig = sk.sign([7u8; 32], MAINNET_COMMIT_BOOST_DOMAIN);
    assert_eq!(
        verify_root(&pk, [8u8; 32], &sig, MAINNET_COMMIT_BOOST_DOMAIN),
        Err(SigningError::SignatureMismatch)
    );
}

#[test]
fn verify_fails_on_other_key() {
    let sig = secret(1).sign([7u8; 32], MAINNET_COMMIT_BOOST_DOMAIN);
    let other = secret(2).public_key();
    assert_eq!(
        verify_root(&other, [7u8; 32], &sig, MAINNET_COMMIT_BOOST_DOMAIN),
        Err(SigningError::SignatureMismatch)
    );
}

#[test]
fn verify_fails_on_garbage_signature() {
    let pk = secret(1).public_key();
    assert_eq!(
        verify_root(&pk, [7u8; 32], &[0u8; 96], MAINNET_COMMIT_BOOST_DOMAIN),
        Err(SigningError::SignatureMismatch)
    );
}

#[test]
fn parse_public_key_with_and_without_prefix() {
    let pk = secret(3).public_key();
    let text = to_hex(&pk.to_bytes());
    let parsed = parse_bls_public_key(&text).expect("plain hex");
    assert_eq!(parsed.to_bytes(), pk.to_bytes());
    let prefixed = format!("0x{}", text.to_uppercase());
    let parsed = parse_bls_public_key(&prefixed).expect("prefixed hex");
    assert_eq!(parsed.to_bytes(), pk.to_bytes());
}

#[test]
fn parse_public_key_rejects_bad_hex() {
    assert_eq!(parse_bls_public_key("0xabc").err(), Some(SigningError::InvalidHex));
    assert_eq!(parse_bls_public_key("zz").err(), Some(SigningError::InvalidHex));
}

#[test]
fn parse_public_key_rejects_non_key_bytes() {
    assert_eq!(parse_bls_public_key("0x1234").err(), Some(SigningError::InvalidPublicKey));
    let zeros = "00".repeat(48);
    assert_eq!(parse_bls_public_key(&zeros).err(), Some(SigningError::InvalidPublicKey));
}
