//! The operations on encodings: what a host hands over and takes back as bytes.
//!
//! Each function decodes its arguments, rejects what is malformed, runs the
//! operation and encodes the result.

use crate::error::VrfError;
use crate::evidence::{
    lemma_proof_round_trip, proof_decoding, proof_encoding, Proof, ProofView,
};
use crate::bytes::le_value;
use crate::group::{group_order, is_element};
use crate::keys::{
    key_generation, keygen, public_key_decoding, public_key_of, secret_key_decoding,
    secret_key_encoding, PublicKey, SecretKey,
};
use crate::vrf::{evaluate, output_of, proof_of, proof_to_hash, prove, verifies, verify};
use vstd::prelude::*;

verus! {

/// The encoded key pair that `entropy` gives.
pub open spec fn generated(entropy: Seq<u8>) -> Result<(Seq<u8>, Seq<u8>), VrfError> {
    match key_generation(entropy) {
        Ok(keys) => Ok((secret_key_encoding(keys.0), keys.1)),
        Err(e) => Err(e),
    }
}

/// The encoded proof for the message under the encoded secret key.
pub open spec fn proving(secret: Seq<u8>, msg: Seq<u8>) -> Result<Seq<u8>, VrfError> {
    match secret_key_decoding(secret) {
        Ok(scalar) => Ok(proof_encoding(proof_of(scalar, msg))),
        Err(e) => Err(e),
    }
}

/// Whether the encoded proof is accepted for the encoded public key and the
/// message. The proof is decoded first, then the key.
pub open spec fn verifying(public: Seq<u8>, msg: Seq<u8>, evidence: Seq<u8>) -> Result<
    bool,
    VrfError,
> {
    match proof_decoding(evidence) {
        Ok(p) => match public_key_decoding(public) {
            Ok(y) => Ok(verifies(y, msg, p)),
            Err(e) => Err(e),
        },
        Err(e) => Err(e),
    }
}

/// The output that the encoded proof stands for.
pub open spec fn hashing(evidence: Seq<u8>) -> Result<Seq<u8>, VrfError> {
    match proof_decoding(evidence) {
        Ok(p) => Ok(output_of(p.gamma)),
        Err(e) => Err(e),
    }
}

/// The output for the message under the encoded secret key.
pub open spec fn evaluating(secret: Seq<u8>, msg: Seq<u8>) -> Result<Seq<u8>, VrfError> {
    match secret_key_decoding(secret) {
        Ok(scalar) => Ok(output_of(proof_of(scalar, msg).gamma)),
        Err(e) => Err(e),
    }
}

/// No decoder lets through a scalar that is not below the group order or a
/// point encoding that is not canonical: a key of 32 such bytes is an
/// `InvalidKey`, a proof of 80 bytes with such a part is `MalformedInput`.
pub proof fn lemma_non_canonical_is_rejected(bytes: Seq<u8>)
    ensures
        bytes.len() == 32 && le_value(bytes) >= group_order() ==> secret_key_decoding(bytes)
            == Err::<nat, VrfError>(VrfError::InvalidKey),
        bytes.len() == 32 && !is_element(bytes) ==> public_key_decoding(bytes) == Err::<
            Seq<u8>,
            VrfError,
        >(VrfError::InvalidKey),
        bytes.len() == 80 && (!is_element(bytes.subrange(0, 32)) || le_value(
            bytes.subrange(48, 80),
        ) >= group_order()) ==> proof_decoding(bytes) == Err::<ProofView, VrfError>(
            VrfError::MalformedInput,
        ),
{
}

/// Makes a key pair from random bytes and encodes it: the secret key, then
/// the public key.
pub fn keygen_bytes(entropy: &[u8]) -> (pair: Result<([u8; 32], [u8; 32]), VrfError>)
    ensures
        match pair {
            Ok(keys) => generated(entropy@) == Ok::<(Seq<u8>, Seq<u8>), VrfError>(
                (keys.0@, keys.1@),
            ),
            Err(e) => generated(entropy@) == Err::<(Seq<u8>, Seq<u8>), VrfError>(e),
        },
{
    match keygen(entropy) {
        Ok((mut secret, public)) => {
            let encoded = secret.to_bytes();
            secret.wipe();
            Ok((encoded, public.to_bytes()))
        },
        Err(e) => Err(e),
    }
}

/// Proves on encodings: decodes the secret key, proves, encodes the proof.
/// The encoded proof is accepted by `verify_bytes` under the key's public key.
pub fn prove_bytes(secret: &[u8], msg: &[u8]) -> (made: Result<[u8; 80], VrfError>)
    ensures
        match made {
            Ok(evidence) => {
                &&& proving(secret@, msg@) == Ok::<Seq<u8>, VrfError>(evidence@)
                &&& verifying(public_key_of(le_value(secret@)), msg@, evidence@) == Ok::<
                    bool,
                    VrfError,
                >(true)
            },
            Err(e) => proving(secret@, msg@) == Err::<Seq<u8>, VrfError>(e),
        },
{
    match SecretKey::from_bytes(secret) {
        Ok(mut key) => {
            let made = prove(&key, msg);
            key.wipe();
            match made {
                Ok(p) => {
                    let evidence = p.to_bytes();
                    proof {
                        lemma_proof_round_trip(p@);
                    }
                    Ok(evidence)
                },
                Err(e) => Err(e),
            }
        },
        Err(e) => Err(e),
    }
}

/// Verifies on encodings: rejects a malformed proof, then a malformed key,
/// and only then verifies.
pub fn verify_bytes(public: &[u8], msg: &[u8], evidence: &[u8]) -> (answer: Result<
    bool,
    VrfError,
>)
    ensures
        answer == verifying(public@, msg@, evidence@),
{
    match Proof::from_bytes(evidence) {
        Ok(p) => match PublicKey::from_bytes(public) {
            Ok(key) => Ok(verify(&key, msg, &p)),
            Err(e) => Err(e),
        },
        Err(e) => Err(e),
    }
}

/// Turns an encoded proof into the output. Nothing is verified here.
pub fn proof_to_hash_bytes(evidence: &[u8]) -> (out: Result<[u8; 64], VrfError>)
    ensures
        match out {
            Ok(o) => hashing(evidence@) == Ok::<Seq<u8>, VrfError>(o@),
            Err(e) => hashing(evidence@) == Err::<Seq<u8>, VrfError>(e),
        },
{
    match Proof::from_bytes(evidence) {
        Ok(p) => Ok(proof_to_hash(&p).to_bytes()),
        Err(e) => Err(e),
    }
}

/// The output for the message under an encoded secret key.
pub fn evaluate_bytes(secret: &[u8], msg: &[u8]) -> (out: Result<[u8; 64], VrfError>)
    ensures
        match out {
            Ok(o) => evaluating(secret@, msg@) == Ok::<Seq<u8>, VrfError>(o@),
            Err(e) => evaluating(secret@, msg@) == Err::<Seq<u8>, VrfError>(e),
        },
{
    match SecretKey::from_bytes(secret) {
        Ok(mut key) => {
            let made = evaluate(&key, msg);
            key.wipe();
            match made {
                Ok(o) => Ok(o.to_bytes()),
                Err(e) => Err(e),
            }
        },
        Err(e) => Err(e),
    }
}

} // verus!
