//! The ristretto255 group and its scalars, as this library sees them.
//!
//! The group has prime order, so every element is a multiple `n * B` of the
//! base point `B` with exactly one `n` below the order. The library holds an
//! element as its canonical 32-byte encoding and a scalar as 32 little-endian
//! bytes, and reasons about elements through those multiples. The arithmetic
//! itself is done by `curve25519-dalek`; the functions at the end of this file
//! are the only ones that call it, and their contracts are taken on trust.

use crate::bytes::{le_value, lemma_le_value_top_byte, zeros};
use curve25519_dalek::ristretto::{CompressedRistretto, RistrettoPoint};
use curve25519_dalek::scalar::Scalar;
use vstd::prelude::*;

verus! {

/// The order of the group, least significant byte first.
pub open spec fn order_bytes() -> Seq<u8> {
    seq![
        0xedu8, 0xd3u8, 0xf5u8, 0x5cu8, 0x1au8, 0x63u8, 0x12u8, 0x58u8,
        0xd6u8, 0x9cu8, 0xf7u8, 0xa2u8, 0xdeu8, 0xf9u8, 0xdeu8, 0x14u8,
        0x00u8, 0x00u8, 0x00u8, 0x00u8, 0x00u8, 0x00u8, 0x00u8, 0x00u8,
        0x00u8, 0x00u8, 0x00u8, 0x00u8, 0x00u8, 0x00u8, 0x00u8, 0x10u8,
    ]
}

/// The order of the group: `2^252 + 27742317777372353535851937790883648493`.
pub open spec fn group_order() -> nat {
    le_value(order_bytes())
}

/// The sum of two scalars.
pub open spec fn scalar_sum(a: nat, b: nat) -> nat {
    (a + b) % group_order()
}

/// The product of two scalars.
pub open spec fn scalar_product(a: nat, b: nat) -> nat {
    (a * b) % group_order()
}

/// The difference of two scalars, both below the order.
pub open spec fn scalar_difference(a: nat, b: nat) -> nat {
    ((a + group_order() - b) % (group_order() as int)) as nat
}

/// The canonical encoding of `n * B`, where `B` is the ristretto255 base point.
pub uninterp spec fn ristretto_base_multiple(n: nat) -> Seq<u8>;

/// The encoding of the element that the ristretto255 one-way map gives for 64 bytes.
pub uninterp spec fn ristretto_uniform_map(bytes: Seq<u8>) -> Seq<u8>;

/// `point` is the encoding of `n * B`, and `n` is the only number below the
/// order of which it is.
pub open spec fn encodes(point: Seq<u8>, n: nat) -> bool {
    &&& n < group_order()
    &&& point == ristretto_base_multiple(n)
    &&& forall|m: nat| m < group_order() && ristretto_base_multiple(m) == point ==> m == n
}

/// `point` is the canonical encoding of a group element.
pub open spec fn is_element(point: Seq<u8>) -> bool {
    exists|n: nat| encodes(point, n)
}

/// The `n` below the order for which the element is `n * B`.
pub open spec fn exponent_of(point: Seq<u8>) -> nat {
    choose|n: nat| encodes(point, n)
}

/// A number of 32 bytes whose top byte is below 16 is below the group order.
pub proof fn lemma_small_top_byte_is_scalar(bytes: Seq<u8>)
    requires
        bytes.len() == 32,
        bytes[31] < 16,
    ensures
        le_value(bytes) < group_order(),
{
    assert(order_bytes().len() == 32);
    assert(order_bytes().last() == 0x10u8);
    assert(bytes.last() == bytes[31]);
    lemma_le_value_top_byte(bytes, order_bytes());
}

/// The order of the group is not zero.
pub proof fn lemma_order_positive()
    ensures
        group_order() > 0,
{
    lemma_small_top_byte_is_scalar(zeros(32));
}

/// Where `n * B` is an element and `n` is below the order, `n` is its exponent.
pub proof fn lemma_exponent_of_multiple(n: nat)
    requires
        n < group_order(),
        is_element(ristretto_base_multiple(n)),
    ensures
        encodes(ristretto_base_multiple(n), n),
        exponent_of(ristretto_base_multiple(n)) == n,
{
    let point = ristretto_base_multiple(n);
    let m = exponent_of(point);
    assert(encodes(point, m));
}

/// The exponent of an element is below the order, and the element is that multiple of `B`.
pub proof fn lemma_exponent_of_element(point: Seq<u8>)
    requires
        is_element(point),
    ensures
        encodes(point, exponent_of(point)),
        exponent_of(point) < group_order(),
        point == ristretto_base_multiple(exponent_of(point)),
{
}

/// The order of the group as bytes.
pub fn order() -> (out: [u8; 32])
    ensures
        out@ == order_bytes(),
{
    let out: [u8; 32] = [
        0xed, 0xd3, 0xf5, 0x5c, 0x1a, 0x63, 0x12, 0x58,
        0xd6, 0x9c, 0xf7, 0xa2, 0xde, 0xf9, 0xde, 0x14,
        0x00, 0x00, 0x00, 0x00, 0x00, 0x00, 0x00, 0x00,
        0x00, 0x00, 0x00, 0x00, 0x00, 0x00, 0x00, 0x10,
    ];
    assert(out@ =~= order_bytes());
    out
}

/// `Scalar::from_bytes_mod_order_wide`: the 64 bytes, read as a little-endian
/// number, reduced modulo the group order and written back as 32 bytes.
#[verifier::external_body]
pub(crate) fn scalar_from_wide(wide: &[u8; 64]) -> (out: [u8; 32])
    ensures
        le_value(out@) == le_value(wide@) % group_order(),
{
    Scalar::from_bytes_mod_order_wide(wide).to_bytes()
}

/// The `Mul` of two `Scalar`s: their product modulo the group order. Both are
/// handed over in canonical form, so the conversion changes nothing.
#[verifier::external_body]
pub(crate) fn scalar_mul(a: &[u8; 32], b: &[u8; 32]) -> (out: [u8; 32])
    requires
        le_value(a@) < group_order(),
        le_value(b@) < group_order(),
    ensures
        le_value(out@) == scalar_product(le_value(a@), le_value(b@)),
{
    let x = Scalar::from_canonical_bytes(*a).unwrap();
    let y = Scalar::from_canonical_bytes(*b).unwrap();
    (x * y).to_bytes()
}

/// The `Add` of two `Scalar`s: their sum modulo the group order. Both are
/// handed over in canonical form.
#[verifier::external_body]
pub(crate) fn scalar_add(a: &[u8; 32], b: &[u8; 32]) -> (out: [u8; 32])
    requires
        le_value(a@) < group_order(),
        le_value(b@) < group_order(),
    ensures
        le_value(out@) == scalar_sum(le_value(a@), le_value(b@)),
{
    let x = Scalar::from_canonical_bytes(*a).unwrap();
    let y = Scalar::from_canonical_bytes(*b).unwrap();
    (x + y).to_bytes()
}

/// `CompressedRistretto::decompress`: it succeeds exactly on the canonical
/// encodings of group elements.
#[verifier::external_body]
pub(crate) fn is_point_encoding(point: &[u8; 32]) -> (ok: bool)
    ensures
        ok == is_element(point@),
{
    CompressedRistretto(*point).decompress().is_some()
}

/// `RistrettoPoint::mul_base`, then `compress`: the encoding of `scalar * B`.
/// The base point has the group's order, so no smaller multiple encodes alike.
#[verifier::external_body]
pub(crate) fn base_mul(scalar: &[u8; 32]) -> (out: [u8; 32])
    requires
        le_value(scalar@) < group_order(),
    ensures
        out@ == ristretto_base_multiple(le_value(scalar@)),
        is_element(out@),
{
    let s = Scalar::from_canonical_bytes(*scalar).unwrap();
    RistrettoPoint::mul_base(&s).compress().to_bytes()
}

/// The `Mul` of a `Scalar` and a `RistrettoPoint`: `scalar * (n * B)` is
/// `(scalar * n) * B`, the product taken modulo the order.
#[verifier::external_body]
pub(crate) fn point_mul(scalar: &[u8; 32], point: &[u8; 32]) -> (out: [u8; 32])
    requires
        le_value(scalar@) < group_order(),
        is_element(point@),
    ensures
        out@ == ristretto_base_multiple(scalar_product(le_value(scalar@), exponent_of(point@))),
        is_element(out@),
{
    let s = Scalar::from_canonical_bytes(*scalar).unwrap();
    let p = CompressedRistretto(*point).decompress().unwrap();
    (s * p).compress().to_bytes()
}

/// The `Sub` of two `RistrettoPoint`s: `n * B - m * B` is `(n - m) * B`, the
/// difference taken modulo the order.
#[verifier::external_body]
pub(crate) fn point_sub(left: &[u8; 32], right: &[u8; 32]) -> (out: [u8; 32])
    requires
        is_element(left@),
        is_element(right@),
    ensures
        out@ == ristretto_base_multiple(scalar_difference(exponent_of(left@), exponent_of(right@))),
        is_element(out@),
{
    let p = CompressedRistretto(*left).decompress().unwrap();
    let q = CompressedRistretto(*right).decompress().unwrap();
    (p - q).compress().to_bytes()
}

/// `RistrettoPoint::from_uniform_bytes`, then `compress`: the one-way map from
/// 64 bytes to a group element.
#[verifier::external_body]
pub(crate) fn uniform_to_point(bytes: &[u8; 64]) -> (out: [u8; 32])
    ensures
        out@ == ristretto_uniform_map(bytes@),
        is_element(out@),
{
    RistrettoPoint::from_uniform_bytes(bytes).compress().to_bytes()
}

} // verus!
