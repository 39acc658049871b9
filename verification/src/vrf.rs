//! The function itself: proving, verifying, and turning a proof into the output.
//!
//! For a secret scalar `x` with public key `Y = x * B` and a message that
//! hashes to the element `H`, the proof is `gamma = x * H` together with a
//! challenge `c` and a response `s = k + c * x`, where `k` is a nonce derived
//! from the key and `H`, and `c` is the hash of `Y, H, gamma, k * B, k * H`.
//! The verifier recomputes `U = s * B - c * Y` and `V = s * H - c * gamma` and
//! accepts when the hash of `Y, H, gamma, U, V` is `c`.

use crate::bytes::{
    append, bytes_equal, le_value, lemma_le_value_injective, scrub, take, widen,
};
use crate::error::VrfError;
use crate::evidence::{Proof, ProofView, VRFOutput};
use crate::group::{
    base_mul, exponent_of, group_order, is_element, lemma_exponent_of_element,
    lemma_exponent_of_multiple, lemma_order_positive, lemma_small_top_byte_is_scalar, point_mul,
    point_sub, ristretto_base_multiple, ristretto_uniform_map, scalar_add, scalar_difference,
    scalar_from_wide, scalar_mul, scalar_product, scalar_sum, uniform_to_point,
};
use crate::hash::{
    domain_digest, hash_in_domain, DOMAIN_CHALLENGE, DOMAIN_NONCE, DOMAIN_OUTPUT, DOMAIN_TO_GROUP,
};
use crate::keys::{
    public_key_of, secret_key_encoding, valid_public, valid_secret, PublicKey, SecretKey,
};
use vstd::arithmetic::div_mod::{
    lemma_fundamental_div_mod, lemma_mod_add_multiples_vanish, lemma_mod_bound,
    lemma_mod_multiples_vanish, lemma_small_mod, lemma_sub_mod_noop,
};
use vstd::prelude::*;

verus! {

/// The group element that a message hashes to under a public key.
pub open spec fn hashed_element(public: Seq<u8>, msg: Seq<u8>) -> Seq<u8> {
    ristretto_uniform_map(domain_digest(DOMAIN_TO_GROUP, public + msg))
}

/// The prover's nonce: a scalar fixed by the secret key and the hashed message.
pub open spec fn nonce_of(secret: nat, h: Seq<u8>) -> nat {
    le_value(domain_digest(DOMAIN_NONCE, secret_key_encoding(secret) + h)) % group_order()
}

/// The challenge: the first 16 bytes of the hash of the five elements, as a number.
pub open spec fn challenge_of(
    public: Seq<u8>,
    h: Seq<u8>,
    gamma: Seq<u8>,
    u: Seq<u8>,
    v: Seq<u8>,
) -> nat {
    le_value(domain_digest(DOMAIN_CHALLENGE, public + h + gamma + u + v).subrange(0, 16))
}

/// The output that a proof with this `gamma` stands for.
pub open spec fn output_of(gamma: Seq<u8>) -> Seq<u8> {
    domain_digest(DOMAIN_OUTPUT, gamma)
}

/// The proof that the secret scalar gives for the message.
pub open spec fn proof_of(secret: nat, msg: Seq<u8>) -> ProofView {
    let public = public_key_of(secret);
    let h = hashed_element(public, msg);
    let a = exponent_of(h);
    let gamma = ristretto_base_multiple(scalar_product(secret, a));
    let k = nonce_of(secret, h);
    let c = challenge_of(
        public,
        h,
        gamma,
        ristretto_base_multiple(k),
        ristretto_base_multiple(scalar_product(k, a)),
    );
    ProofView { gamma: gamma, challenge: c, response: scalar_sum(k, scalar_product(c, secret)) }
}

/// Whether the proof is accepted for the public key and the message: whether
/// the challenge recomputed from `U = s * B - c * Y` and `V = s * H - c * gamma`
/// is the proof's challenge.
pub open spec fn verifies(public: Seq<u8>, msg: Seq<u8>, p: ProofView) -> bool {
    let h = hashed_element(public, msg);
    let u = ristretto_base_multiple(
        scalar_difference(p.response, scalar_product(p.challenge, exponent_of(public))),
    );
    let v = ristretto_base_multiple(
        scalar_difference(
            scalar_product(p.response, exponent_of(h)),
            scalar_product(p.challenge, exponent_of(p.gamma)),
        ),
    );
    challenge_of(public, h, p.gamma, u, v) == p.challenge
}

/// With `s = k + c * x` modulo `m`, taking `c * x` off `s` leaves `k`, and
/// taking `c * (x * a)` off `s * a` leaves `k * a`.
proof fn lemma_response_opens(k: nat, c: nat, x: nat, a: nat, m: nat)
    requires
        m > 0,
        k < m,
    ensures
        ({
            let cx = (c * x) % m;
            let s = (k + cx) % m;
            &&& (s + m - cx) % (m as int) == k
            &&& ((s * a) % m + m - (c * ((x * a) % m)) % m) % (m as int) == (k * a) % m
        }),
{
    let mi: int = m as int;
    let cxf: int = (c * x) as int;
    let q1: int = cxf / mi;
    let cx: int = cxf % mi;
    lemma_fundamental_div_mod(cxf, mi);
    let t: int = k + cx;
    let qt: int = t / mi;
    let s: int = t % mi;
    lemma_fundamental_div_mod(t, mi);
    lemma_mod_bound(cxf, mi);
    lemma_mod_bound(t, mi);

    assert(s + mi - cx == mi * (1 - qt) + k) by (nonlinear_arith)
        requires
            t == mi * qt + s,
            t == k + cx,
    ;
    lemma_mod_multiples_vanish(1 - qt, k as int, mi);
    lemma_small_mod(k, m);

    let xa: int = (x * a) as int;
    let q2: int = xa / mi;
    let r2: int = xa % mi;
    lemma_fundamental_div_mod(xa, mi);
    lemma_mod_bound(xa, mi);
    let p: int = s * a;
    let q: int = c * r2;
    lemma_sub_mod_noop(p, q, mi);
    lemma_mod_add_multiples_vanish(p % mi - q % mi, mi);
    let z: int = c * q2 - (q1 + qt) * a;
    assert(p - q == mi * z + k * a) by (nonlinear_arith)
        requires
            p == s * a,
            q == c * r2,
            z == c * q2 - (q1 + qt) * a,
            t == mi * qt + s,
            t == k + cx,
            cxf == c * x,
            cxf == mi * q1 + cx,
            xa == x * a,
            xa == mi * q2 + r2,
    ;
    lemma_mod_multiples_vanish(z, (k * a) as int, mi);
    assert((p % mi + mi - q % mi) == mi + (p % mi - q % mi));
}

/// The proof that a valid secret key gives for a message verifies under the
/// key's public key, wherever the public key, the element that the message
/// hashes to, and the proof's `gamma` are group elements; they are whenever
/// they were computed.
pub proof fn lemma_honest_proof_verifies(secret: nat, msg: Seq<u8>)
    requires
        valid_secret(secret),
        is_element(public_key_of(secret)),
        is_element(hashed_element(public_key_of(secret), msg)),
        is_element(proof_of(secret, msg).gamma),
    ensures
        verifies(public_key_of(secret), msg, proof_of(secret, msg)),
{
    let m = group_order();
    let public = public_key_of(secret);
    let h = hashed_element(public, msg);
    let a = exponent_of(h);
    let k = nonce_of(secret, h);
    let p = proof_of(secret, msg);
    let c = p.challenge;
    lemma_order_positive();
    lemma_exponent_of_multiple(secret);
    lemma_exponent_of_element(h);
    lemma_mod_bound((secret * a) as int, m as int);
    lemma_exponent_of_multiple(scalar_product(secret, a));
    lemma_mod_bound(
        le_value(domain_digest(DOMAIN_NONCE, secret_key_encoding(secret) + h)) as int,
        m as int,
    );
    lemma_response_opens(k, c, secret, a, m);
    assert(scalar_difference(p.response, scalar_product(c, secret)) == k);
    assert(scalar_difference(
        scalar_product(p.response, a),
        scalar_product(c, scalar_product(secret, a)),
    ) == scalar_product(k, a));
}

/// Proofs with the same `gamma` stand for the same output, whatever their
/// challenge and response.
pub proof fn lemma_output_fixed_by_gamma(p: ProofView, q: ProofView)
    requires
        p.gamma == q.gamma,
    ensures
        output_of(p.gamma) == output_of(q.gamma),
{
}

/// Maps a message to a group element under a public key. The hash is taken in
/// a domain of its own, so that the same bytes hashed for another purpose give
/// another result.
pub fn hash_to_curve(public: &PublicKey, msg: &[u8]) -> (h: [u8; 32])
    ensures
        h@ == hashed_element(public@, msg@),
        is_element(h@),
{
    let encoded = public.to_bytes();
    let mut body: Vec<u8> = Vec::new();
    append(&mut body, encoded.as_slice());
    append(&mut body, msg);
    assert(body@ =~= public@ + msg@);
    let digest = hash_in_domain(DOMAIN_TO_GROUP, body.as_slice());
    uniform_to_point(&digest)
}

/// The nonce for a secret key and a hashed message.
fn nonce(secret: &SecretKey, h: &[u8; 32]) -> (k: [u8; 32])
    ensures
        le_value(k@) == nonce_of(secret@, h@),
        le_value(k@) < group_order(),
{
    let mut encoded = secret.to_bytes();
    let mut body: Vec<u8> = Vec::new();
    append(&mut body, encoded.as_slice());
    append(&mut body, h.as_slice());
    assert(body@ =~= secret_key_encoding(secret@) + h@);
    let mut digest = hash_in_domain(DOMAIN_NONCE, body.as_slice());
    let k = scalar_from_wide(&digest);
    scrub(&mut encoded);
    scrub(&mut digest);
    proof {
        lemma_order_positive();
        lemma_mod_bound(
            le_value(domain_digest(DOMAIN_NONCE, secret_key_encoding(secret@) + h@)) as int,
            group_order() as int,
        );
    }
    k
}

/// The challenge for five encoded elements: the first 16 bytes of their hash
/// in the challenge's domain. Prover and verifier both take it from here.
pub fn challenge(
    public: &[u8; 32],
    h: &[u8; 32],
    gamma: &[u8; 32],
    u: &[u8; 32],
    v: &[u8; 32],
) -> (c: [u8; 16])
    ensures
        le_value(c@) == challenge_of(public@, h@, gamma@, u@, v@),
{
    let mut body: Vec<u8> = Vec::new();
    append(&mut body, public.as_slice());
    append(&mut body, h.as_slice());
    append(&mut body, gamma.as_slice());
    append(&mut body, u.as_slice());
    append(&mut body, v.as_slice());
    assert(body@ =~= public@ + h@ + gamma@ + u@ + v@);
    let digest = hash_in_domain(DOMAIN_CHALLENGE, body.as_slice());
    let c: [u8; 16] = take(digest.as_slice(), 0);
    c
}

/// Proves: gives the proof for the message under the secret key. The same key
/// and message always give the same proof, and the proof verifies under the
/// key's public key. A key whose scalar is zero proves nothing: `InvalidKey`.
///
/// The scalar multiplications run in constant time, and the copies of the
/// secret scalar, the nonce and their product with the challenge are wiped
/// before the function returns.
pub fn prove(secret: &SecretKey, msg: &[u8]) -> (made: Result<Proof, VrfError>)
    ensures
        match made {
            Ok(p) => {
                &&& valid_secret(secret@)
                &&& p@ == proof_of(secret@, msg@)
                &&& valid_public(public_key_of(secret@))
                &&& verifies(public_key_of(secret@), msg@, p@)
            },
            Err(e) => !valid_secret(secret@) && e == VrfError::InvalidKey,
        },
{
    if !secret.is_valid() {
        return Err(VrfError::InvalidKey);
    }
    let mut x = secret.to_bytes();
    let public = secret.public_key();
    let y = public.to_bytes();
    let h = hash_to_curve(&public, msg);
    let gamma = point_mul(&x, &h);
    let mut k = nonce(secret, &h);
    let kb = base_mul(&k);
    let kh = point_mul(&k, &h);
    let c = challenge(&y, &h, &gamma, &kb, &kh);
    let c_wide = widen(&c);
    proof {
        lemma_order_positive();
        lemma_small_top_byte_is_scalar(c_wide@);
        lemma_mod_bound((le_value(c_wide@) * le_value(x@)) as int, group_order() as int);
    }
    let mut cx = scalar_mul(&c_wide, &x);
    let s = scalar_add(&k, &cx);
    proof {
        lemma_mod_bound((le_value(k@) + le_value(cx@)) as int, group_order() as int);
        lemma_honest_proof_verifies(secret@, msg@);
    }
    scrub(&mut x);
    scrub(&mut k);
    scrub(&mut cx);
    Ok(Proof::assemble(gamma, c, s))
}

/// Verifies: whether the proof is accepted for the public key and the
/// message. A proof that is not accepted is an ordinary answer, not an error.
pub fn verify(public: &PublicKey, msg: &[u8], p: &Proof) -> (accepted: bool)
    ensures
        accepted == verifies(public@, msg@, p@),
{
    let y = public.to_bytes();
    let h = hash_to_curve(public, msg);
    let gamma = p.gamma();
    let c = p.challenge();
    let s = p.response();
    let c_wide = widen(&c);
    proof {
        lemma_order_positive();
        lemma_small_top_byte_is_scalar(c_wide@);
    }
    let sb = base_mul(&s);
    let cy = point_mul(&c_wide, &y);
    proof {
        lemma_exponent_of_multiple(le_value(s@));
        lemma_mod_bound((le_value(c_wide@) * exponent_of(y@)) as int, group_order() as int);
        lemma_exponent_of_multiple(scalar_product(le_value(c_wide@), exponent_of(y@)));
    }
    let u = point_sub(&sb, &cy);
    let sh = point_mul(&s, &h);
    let cg = point_mul(&c_wide, &gamma);
    proof {
        lemma_mod_bound((le_value(s@) * exponent_of(h@)) as int, group_order() as int);
        lemma_exponent_of_multiple(scalar_product(le_value(s@), exponent_of(h@)));
        lemma_mod_bound((le_value(c_wide@) * exponent_of(gamma@)) as int, group_order() as int);
        lemma_exponent_of_multiple(scalar_product(le_value(c_wide@), exponent_of(gamma@)));
    }
    let v = point_sub(&sh, &cg);
    let expected = challenge(&y, &h, &gamma, &u, &v);
    proof {
        if le_value(expected@) == le_value(c@) {
            lemma_le_value_injective(expected@, c@);
        }
    }
    bytes_equal(expected.as_slice(), c.as_slice())
}

/// Turns a proof into the output, by hashing its `gamma` in a domain of its
/// own. Nothing is verified here: the output of a proof that was not verified
/// says nothing about any key or message. Use `verify_and_hash` for a proof
/// that comes from elsewhere.
pub fn proof_to_hash(p: &Proof) -> (out: VRFOutput)
    ensures
        out@ == output_of(p@.gamma),
{
    let gamma = p.gamma();
    VRFOutput::from_digest(hash_in_domain(DOMAIN_OUTPUT, gamma.as_slice()))
}

/// The output for the message under the secret key: what `proof_to_hash` gives
/// for the proof that `prove` gives. `InvalidKey` for a key whose scalar is zero.
pub fn evaluate(secret: &SecretKey, msg: &[u8]) -> (out: Result<VRFOutput, VrfError>)
    ensures
        match out {
            Ok(o) => valid_secret(secret@) && o@ == output_of(proof_of(secret@, msg@).gamma),
            Err(e) => !valid_secret(secret@) && e == VrfError::InvalidKey,
        },
{
    match prove(secret, msg) {
        Ok(p) => Ok(proof_to_hash(&p)),
        Err(e) => Err(e),
    }
}

/// Verifies the proof and, if it is accepted, gives the output.
pub fn verify_and_hash(public: &PublicKey, msg: &[u8], p: &Proof) -> (out: Option<VRFOutput>)
    ensures
        match out {
            Some(o) => verifies(public@, msg@, p@) && o@ == output_of(p@.gamma),
            None => !verifies(public@, msg@, p@),
        },
{
    if verify(public, msg, p) {
        Some(proof_to_hash(p))
    } else {
        None
    }
}

} // verus!
