use vrf::error::VrfError;
use vrf::group::order;
use vrf::keys::{keygen, PublicKey, SecretKey};
use vrf::wire::keygen_bytes;

use curve25519_dalek::ristretto::RistrettoPoint;
use curve25519_dalek::scalar::Scalar;

const BASE_POINT: [u8; 32] = [
    0xe2, 0xf2, 0xae, 0x0a, 0x6a, 0xbc, 0x4e, 0x71, 0xa8, 0x84, 0xa9, 0x61, 0xc5, 0x00, 0x51, 0x5f,
    0x58, 0xe3, 0x0b, 0x6a, 0xa5, 0x82, 0xdd, 0x8d, 0xb6, 0xa6, 0x59, 0x45, 0xe0, 0x8d, 0x2d, 0x76,
];

fn small(n: u8) -> [u8; 32] {
    let mut out = [0u8; 32];
    out[0] = n;
    out
}

fn order_minus_one() -> [u8; 32] {
    let mut out = order();
    out[0] -= 1;
    out
}

#[test]
fn secret_key_round_trip() {
    for bytes in [small(1), small(77), order_minus_one()] {
        let key = SecretKey::from_bytes(&bytes).unwrap();
        assert_eq!(key.to_bytes(), bytes);
        assert!(key.is_valid());
        let again = SecretKey::from_bytes(&key.to_bytes()).unwrap();
        assert_eq!(again.to_bytes(), bytes);
    }
}

#[test]
fn public_key_round_trip() {
    let key = PublicKey::from_bytes(&BASE_POINT).unwrap();
    assert_eq!(key.to_bytes(), BASE_POINT);
    let derived = SecretKey::from_bytes(&small(9)).unwrap().public_key();
    let again = PublicKey::from_bytes(&derived.to_bytes()).unwrap();
    assert_eq!(again.to_bytes(), derived.to_bytes());
}

#[test]
fn secret_key_of_wrong_length_is_malformed() {
    assert!(matches!(SecretKey::from_bytes(&[1u8; 31]), Err(VrfError::MalformedInput)));
    assert!(matches!(SecretKey::from_bytes(&[1u8; 33]), Err(VrfError::MalformedInput)));
    assert!(matches!(SecretKey::from_bytes(&[]), Err(VrfError::MalformedInput)));
}

#[test]
fn zero_secret_key_is_invalid() {
    assert!(matches!(SecretKey::from_bytes(&[0u8; 32]), Err(VrfError::InvalidKey)));
}

#[test]
fn secret_key_at_or_above_the_order_is_invalid() {
    assert!(matches!(SecretKey::from_bytes(&order()), Err(VrfError::InvalidKey)));
    let mut above = order();
    above[0] += 1;
    assert!(matches!(SecretKey::from_bytes(&above), Err(VrfError::InvalidKey)));
    assert!(matches!(SecretKey::from_bytes(&[0xffu8; 32]), Err(VrfError::InvalidKey)));
    assert!(SecretKey::from_bytes(&order_minus_one()).is_ok());
}

#[test]
fn public_key_of_wrong_length_is_malformed() {
    assert!(matches!(PublicKey::from_bytes(&BASE_POINT[..31]), Err(VrfError::MalformedInput)));
    assert!(matches!(PublicKey::from_bytes(&[0u8; 64]), Err(VrfError::MalformedInput)));
}

#[test]
fn public_key_that_encodes_no_element_is_invalid() {
    // All ones is not below the field prime; a low bit set makes the encoding negative.
    assert!(matches!(PublicKey::from_bytes(&[0xffu8; 32]), Err(VrfError::InvalidKey)));
    assert!(matches!(PublicKey::from_bytes(&small(1)), Err(VrfError::InvalidKey)));
    let mut negated = BASE_POINT;
    negated[0] ^= 1;
    assert!(matches!(PublicKey::from_bytes(&negated), Err(VrfError::InvalidKey)));
}

#[test]
fn public_key_is_the_secret_multiple_of_the_base_point() {
    let one = SecretKey::from_bytes(&small(1)).unwrap();
    assert_eq!(one.public_key().to_bytes(), BASE_POINT);
    let bytes = small(200);
    let key = SecretKey::from_bytes(&bytes).unwrap();
    let expected =
        RistrettoPoint::mul_base(&Scalar::from_canonical_bytes(bytes).unwrap()).compress();
    assert_eq!(key.public_key().to_bytes(), expected.to_bytes());
    assert_ne!(key.public_key().to_bytes(), bytes);
}

#[test]
fn keygen_needs_sixty_four_bytes() {
    assert!(matches!(keygen(&[7u8; 63]), Err(VrfError::InsufficientEntropy)));
    assert!(matches!(keygen(&[]), Err(VrfError::InsufficientEntropy)));
    assert!(keygen(&[7u8; 64]).is_ok());
}

#[test]
fn keygen_reduces_the_first_sixty_four_bytes() {
    // The order plus one reduces to one.
    let mut entropy = [0u8; 64];
    entropy[..32].copy_from_slice(&order());
    entropy[0] += 1;
    let (secret, public) = keygen(&entropy).unwrap();
    assert_eq!(secret.to_bytes(), small(1));
    assert_eq!(public.to_bytes(), BASE_POINT);

    let entropy = [0xa5u8; 64];
    let (secret, public) = keygen(&entropy).unwrap();
    let expected = Scalar::from_bytes_mod_order_wide(&entropy);
    assert_eq!(secret.to_bytes(), expected.to_bytes());
    assert_eq!(public.to_bytes(), RistrettoPoint::mul_base(&expected).compress().to_bytes());
    assert_eq!(public.to_bytes(), secret.public_key().to_bytes());
}

#[test]
fn keygen_ignores_bytes_after_the_first_sixty_four() {
    let mut long = [3u8; 100];
    let (a, _) = keygen(&long).unwrap();
    long[64] = 99;
    long[99] = 98;
    let (b, _) = keygen(&long).unwrap();
    assert_eq!(a.to_bytes(), b.to_bytes());
    long[63] = 4;
    let (c, _) = keygen(&long).unwrap();
    assert_ne!(a.to_bytes(), c.to_bytes());
}

#[test]
fn keygen_rejects_entropy_that_reduces_to_zero() {
    assert!(matches!(keygen(&[0u8; 64]), Err(VrfError::InvalidKey)));
    let mut entropy = [0u8; 64];
    entropy[..32].copy_from_slice(&order());
    assert!(matches!(keygen(&entropy), Err(VrfError::InvalidKey)));
}

#[test]
fn keygen_bytes_encodes_the_pair() {
    let entropy = [0x5au8; 64];
    let (secret, public) = keygen(&entropy).unwrap();
    let (secret_bytes, public_bytes) = keygen_bytes(&entropy).unwrap();
    assert_eq!(secret_bytes, secret.to_bytes());
    assert_eq!(public_bytes, public.to_bytes());
    assert!(matches!(keygen_bytes(&[1u8; 10]), Err(VrfError::InsufficientEntropy)));
    assert!(matches!(keygen_bytes(&[0u8; 64]), Err(VrfError::InvalidKey)));
}

#[test]
fn wiped_key_holds_zero_and_is_not_valid() {
    let mut key = SecretKey::from_bytes(&small(5)).unwrap();
    assert!(key.is_valid());
    key.wipe();
    assert_eq!(key.to_bytes(), [0u8; 32]);
    assert!(!key.is_valid());
}
