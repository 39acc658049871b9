//! SHA-512 and the domain-separated inputs that the scheme hashes.

use crate::bytes::append;
use sha2::{Digest, Sha512};
use vstd::prelude::*;

verus! {

/// The SHA-512 digest of `data`: 64 bytes.
pub uninterp spec fn sha512_digest(data: Seq<u8>) -> Seq<u8>;

/// Marks every hash input of this scheme: ristretto255 with SHA-512.
pub const SUITE: u8 = 0x72;

/// Domain of the hash that maps a message to a group element.
pub const DOMAIN_TO_GROUP: u8 = 0x01;

/// Domain of the hash that gives the challenge.
pub const DOMAIN_CHALLENGE: u8 = 0x02;

/// Domain of the hash that turns a proof into the output.
pub const DOMAIN_OUTPUT: u8 = 0x03;

/// Domain of the hash that gives the prover's nonce.
pub const DOMAIN_NONCE: u8 = 0x04;

/// Closes every hash input.
pub const DOMAIN_END: u8 = 0x00;

/// A hash input: the suite, the domain, the body, the closing byte.
pub open spec fn framed(domain: u8, body: Seq<u8>) -> Seq<u8> {
    seq![SUITE, domain] + body + seq![DOMAIN_END]
}

/// The digest of `body` in `domain`.
pub open spec fn domain_digest(domain: u8, body: Seq<u8>) -> Seq<u8> {
    sha512_digest(framed(domain, body))
}

/// `Sha512::digest`: the SHA-512 digest of `data`.
#[verifier::external_body]
pub(crate) fn sha512(data: &[u8]) -> (digest: [u8; 64])
    ensures
        digest@ == sha512_digest(data@),
{
    Sha512::digest(data).into()
}

/// Hashes `body` in `domain`.
pub fn hash_in_domain(domain: u8, body: &[u8]) -> (digest: [u8; 64])
    ensures
        digest@ == domain_digest(domain, body@),
{
    let mut input: Vec<u8> = Vec::new();
    input.push(SUITE);
    input.push(domain);
    append(&mut input, body);
    input.push(DOMAIN_END);
    assert(input@ =~= framed(domain, body@));
    sha512(input.as_slice())
}

} // verus!
