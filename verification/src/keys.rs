//! Secret and public keys, their encodings, and key generation.

use crate::bytes::{
    le_bytes, le_value, lemma_le_bytes_len, lemma_le_bytes_of_value, lemma_le_value_bound,
    lemma_le_value_of_bytes, lemma_le_value_zeros, less_than, radix_pow, scrub, take, zeros,
};
use crate::error::VrfError;
use crate::group::{
    base_mul, group_order, is_element, is_point_encoding, lemma_order_positive, order,
    order_bytes, ristretto_base_multiple, scalar_from_wide,
};
use vstd::prelude::*;

verus! {

/// How many random bytes key generation consumes.
pub const ENTROPY_LEN: usize = 64;

/// How many bytes the encoding of a key has.
pub const KEY_LEN: usize = 32;

/// A scalar that may serve as a secret key: not zero, and below the group order.
pub open spec fn valid_secret(scalar: nat) -> bool {
    0 < scalar < group_order()
}

/// A byte string that may serve as a public key: the encoding of a group element.
pub open spec fn valid_public(point: Seq<u8>) -> bool {
    point.len() == 32 && is_element(point)
}

/// The public key that belongs to a secret scalar: that multiple of the base point.
pub open spec fn public_key_of(scalar: nat) -> Seq<u8> {
    ristretto_base_multiple(scalar)
}

/// The encoding of a secret scalar: 32 bytes, least significant first.
pub open spec fn secret_key_encoding(scalar: nat) -> Seq<u8> {
    le_bytes(scalar, 32)
}

/// What decoding a secret key from `bytes` gives.
pub open spec fn secret_key_decoding(bytes: Seq<u8>) -> Result<nat, VrfError> {
    if bytes.len() != 32 {
        Err(VrfError::MalformedInput)
    } else if !valid_secret(le_value(bytes)) {
        Err(VrfError::InvalidKey)
    } else {
        Ok(le_value(bytes))
    }
}

/// What decoding a public key from `bytes` gives. A public key is its own encoding.
pub open spec fn public_key_decoding(bytes: Seq<u8>) -> Result<Seq<u8>, VrfError> {
    if bytes.len() != 32 {
        Err(VrfError::MalformedInput)
    } else if !is_element(bytes) {
        Err(VrfError::InvalidKey)
    } else {
        Ok(bytes)
    }
}

/// The key pair that `entropy` gives: the secret scalar is the first 64 bytes
/// reduced modulo the group order.
pub open spec fn key_generation(entropy: Seq<u8>) -> Result<(nat, Seq<u8>), VrfError> {
    if entropy.len() < 64 {
        Err(VrfError::InsufficientEntropy)
    } else {
        let scalar = le_value(entropy.subrange(0, 64)) % group_order();
        if scalar == 0 {
            Err(VrfError::InvalidKey)
        } else {
            Ok((scalar, public_key_of(scalar)))
        }
    }
}

/// The group order fits in 32 bytes.
pub proof fn lemma_order_fits()
    ensures
        group_order() < radix_pow(32),
{
    lemma_le_value_bound(order_bytes());
}

/// Decoding the encoding of a valid secret key gives the key back.
pub proof fn lemma_secret_key_round_trip(scalar: nat)
    requires
        valid_secret(scalar),
    ensures
        secret_key_decoding(secret_key_encoding(scalar)) == Ok::<nat, VrfError>(scalar),
{
    lemma_order_fits();
    lemma_le_bytes_len(scalar, 32);
    lemma_le_value_of_bytes(scalar, 32);
}

/// Decoding the encoding of a valid public key gives the key back.
pub proof fn lemma_public_key_round_trip(point: Seq<u8>)
    requires
        valid_public(point),
    ensures
        public_key_decoding(point) == Ok::<Seq<u8>, VrfError>(point),
{
}

/// A secret key decodes only from the encoding of a valid scalar, and a public
/// key only from the encoding of a group element.
pub proof fn lemma_decoded_keys_are_valid(bytes: Seq<u8>)
    ensures
        secret_key_decoding(bytes) matches Ok(scalar) ==> valid_secret(scalar)
            && secret_key_encoding(scalar) == bytes,
        public_key_decoding(bytes) matches Ok(point) ==> valid_public(point) && point == bytes,
{
    if bytes.len() == 32 {
        lemma_le_bytes_of_value(bytes);
    }
}

/// A secret key: a scalar below the group order. Only a scalar other than zero
/// proves anything; zero is what a wiped key holds.
pub struct SecretKey {
    bytes: [u8; 32],
}

impl View for SecretKey {
    type V = nat;

    /// The scalar.
    closed spec fn view(&self) -> nat {
        le_value(self.bytes@)
    }
}

impl SecretKey {
    #[verifier::type_invariant]
    spec fn canonical(&self) -> bool {
        le_value(self.bytes@) < group_order()
    }

    /// Decodes a secret key: 32 bytes that denote a scalar other than zero
    /// and below the group order.
    pub fn from_bytes(bytes: &[u8]) -> (decoded: Result<SecretKey, VrfError>)
        ensures
            match decoded {
                Ok(key) => secret_key_decoding(bytes@) == Ok::<nat, VrfError>(key@),
                Err(e) => secret_key_decoding(bytes@) == Err::<nat, VrfError>(e),
            },
    {
        if bytes.len() != KEY_LEN {
            return Err(VrfError::MalformedInput);
        }
        let raw: [u8; 32] = take(bytes, 0);
        assert(raw@ =~= bytes@);
        let zero = [0u8; 32];
        proof {
            assert(zero@ =~= zeros(32));
            lemma_le_value_zeros(32);
        }
        if !less_than(&zero, &raw) || !less_than(&raw, &order()) {
            return Err(VrfError::InvalidKey);
        }
        Ok(SecretKey { bytes: raw })
    }

    /// The encoding of the key.
    pub fn to_bytes(&self) -> (out: [u8; 32])
        ensures
            out@ == secret_key_encoding(self@),
            le_value(out@) == self@,
            self@ < group_order(),
    {
        proof {
            use_type_invariant(self);
            lemma_le_bytes_of_value(self.bytes@);
        }
        self.bytes
    }

    /// Whether the key can prove: whether its scalar is not zero.
    pub fn is_valid(&self) -> (valid: bool)
        ensures
            valid == valid_secret(self@),
    {
        proof {
            use_type_invariant(self);
        }
        let zero = [0u8; 32];
        proof {
            assert(zero@ =~= zeros(32));
            lemma_le_value_zeros(32);
        }
        less_than(&zero, &self.bytes)
    }

    /// The public key that belongs to this key.
    pub fn public_key(&self) -> (public: PublicKey)
        ensures
            public@ == public_key_of(self@),
    {
        proof {
            use_type_invariant(self);
        }
        PublicKey { bytes: base_mul(&self.bytes) }
    }

    /// Overwrites the scalar with zero. The key proves nothing afterwards.
    pub fn wipe(&mut self)
        ensures
            final(self)@ == 0,
    {
        proof {
            lemma_le_value_zeros(32);
            lemma_order_positive();
        }
        scrub(&mut self.bytes);
    }
}

/// A public key: a group element, held as its canonical encoding.
#[derive(Clone, Copy, Debug)]
pub struct PublicKey {
    bytes: [u8; 32],
}

impl View for PublicKey {
    type V = Seq<u8>;

    /// The encoding of the element.
    closed spec fn view(&self) -> Seq<u8> {
        self.bytes@
    }
}

impl PublicKey {
    #[verifier::type_invariant]
    spec fn on_group(&self) -> bool {
        is_element(self.bytes@)
    }

    /// Decodes a public key: the 32 bytes that canonically encode a group element.
    pub fn from_bytes(bytes: &[u8]) -> (decoded: Result<PublicKey, VrfError>)
        ensures
            match decoded {
                Ok(key) => public_key_decoding(bytes@) == Ok::<Seq<u8>, VrfError>(key@),
                Err(e) => public_key_decoding(bytes@) == Err::<Seq<u8>, VrfError>(e),
            },
    {
        if bytes.len() != KEY_LEN {
            return Err(VrfError::MalformedInput);
        }
        let raw: [u8; 32] = take(bytes, 0);
        assert(raw@ =~= bytes@);
        if !is_point_encoding(&raw) {
            return Err(VrfError::InvalidKey);
        }
        Ok(PublicKey { bytes: raw })
    }

    /// The encoding of the key.
    pub fn to_bytes(&self) -> (out: [u8; 32])
        ensures
            out@ == self@,
            valid_public(self@),
    {
        proof {
            use_type_invariant(self);
        }
        self.bytes
    }
}

/// Makes a key pair from random bytes, of which the first 64 are used. They
/// must come from a cryptographically secure source and be used for nothing else.
pub fn keygen(entropy: &[u8]) -> (pair: Result<(SecretKey, PublicKey), VrfError>)
    ensures
        match pair {
            Ok(keys) => key_generation(entropy@) == Ok::<(nat, Seq<u8>), VrfError>(
                (keys.0@, keys.1@),
            ),
            Err(e) => key_generation(entropy@) == Err::<(nat, Seq<u8>), VrfError>(e),
        },
{
    if entropy.len() < ENTROPY_LEN {
        return Err(VrfError::InsufficientEntropy);
    }
    let wide: [u8; 64] = take(entropy, 0);
    let mut scalar = scalar_from_wide(&wide);
    proof {
        lemma_order_positive();
    }
    let secret = SecretKey { bytes: scalar };
    scrub(&mut scalar);
    if !secret.is_valid() {
        return Err(VrfError::InvalidKey);
    }
    let public = secret.public_key();
    Ok((secret, public))
}

} // verus!
