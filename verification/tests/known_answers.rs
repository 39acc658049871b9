use vrf::wire::{evaluate_bytes, proof_to_hash_bytes, prove_bytes, verify_bytes};

const BASE_POINT: [u8; 32] = [
    0xe2, 0xf2, 0xae, 0x0a, 0x6a, 0xbc, 0x4e, 0x71, 0xa8, 0x84, 0xa9, 0x61, 0xc5, 0x00, 0x51, 0x5f,
    0x58, 0xe3, 0x0b, 0x6a, 0xa5, 0x82, 0xdd, 0x8d, 0xb6, 0xa6, 0x59, 0x45, 0xe0, 0x8d, 0x2d, 0x76,
];

const PROOF_OF_ONE: [u8; 80] = [
    126, 172, 11, 177, 198, 200, 131, 151, 35, 86, 136, 252, 145, 148, 73, 236, 5, 176, 187, 235,
    237, 67, 199, 191, 61, 237, 30, 54, 92, 162, 211, 11, 153, 211, 19, 192, 89, 180, 206, 37,
    142, 36, 254, 124, 192, 172, 199, 147, 139, 134, 13, 78, 232, 165, 229, 228, 101, 107, 95,
    178, 212, 223, 27, 250, 156, 182, 66, 85, 178, 193, 225, 169, 88, 223, 113, 183, 191, 48, 143,
    13,
];

const OUTPUT_OF_ONE: [u8; 64] = [
    60, 26, 54, 13, 48, 33, 109, 224, 230, 111, 140, 20, 186, 94, 166, 151, 227, 164, 139, 46,
    122, 233, 213, 91, 117, 141, 27, 106, 118, 161, 17, 59, 194, 233, 139, 101, 94, 143, 210, 91,
    6, 161, 173, 111, 160, 205, 5, 186, 38, 64, 196, 244, 147, 98, 25, 103, 150, 91, 201, 59, 39,
    66, 254, 242,
];

fn one() -> [u8; 32] {
    let mut out = [0u8; 32];
    out[0] = 1;
    out
}

#[test]
fn proof_of_the_scalar_one_for_sample() {
    assert_eq!(prove_bytes(&one(), b"sample").unwrap(), PROOF_OF_ONE);
}

#[test]
fn output_of_the_scalar_one_for_sample() {
    assert_eq!(evaluate_bytes(&one(), b"sample").unwrap(), OUTPUT_OF_ONE);
    assert_eq!(proof_to_hash_bytes(&PROOF_OF_ONE).unwrap(), OUTPUT_OF_ONE);
}

#[test]
fn known_proof_verifies_under_the_base_point() {
    assert_eq!(verify_bytes(&BASE_POINT, b"sample", &PROOF_OF_ONE), Ok(true));
    assert_eq!(verify_bytes(&BASE_POINT, b"samplf", &PROOF_OF_ONE), Ok(false));
}
