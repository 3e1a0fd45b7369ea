//! Pairing-group elements, carried as canonical compressed byte encodings.
//!
//! A G1 element is its 48-byte compressed encoding, a G2 element its 96-byte
//! one. The group operations are performed by the arkworks BLS12-381
//! implementation behind trusted wrappers; what each operation returns is
//! named by an uninterpreted function over the encodings, so that every
//! caller's contract pins its result as an expression over those names.
//! A byte string that is not a valid encoding is read as the identity.

use vstd::prelude::*;

use crate::field::Scalar;

use ark_ec::{AffineCurve, PairingEngine, ProjectiveCurve};
use ark_ec::msm::VariableBaseMSM;
use ark_ff::{One, PrimeField, Zero};
use ark_serialize::{CanonicalDeserialize, CanonicalSerialize};
use ark_bls12_381::{Bls12_381, Fr, G1Affine, G2Affine};

verus! {

/// The encoding of the sum of two encoded G1 elements.
pub uninterp spec fn g1_add_of(a: Seq<u8>, b: Seq<u8>) -> Seq<u8>;

/// The encoding of an encoded G1 element multiplied by a scalar value.
pub uninterp spec fn g1_mul_of(s: nat, p: Seq<u8>) -> Seq<u8>;

/// The encoding of the additive inverse of an encoded G1 element.
pub uninterp spec fn g1_neg_of(p: Seq<u8>) -> Seq<u8>;

/// Whether a byte string is accepted as the encoding of a G1 element.
pub uninterp spec fn g1_valid_of(p: Seq<u8>) -> bool;

/// Whether a byte string is accepted as the encoding of a G2 element.
pub uninterp spec fn g2_valid_of(p: Seq<u8>) -> bool;

/// The encoding of an encoded G2 element multiplied by a scalar value.
pub uninterp spec fn g2_mul_of(s: nat, p: Seq<u8>) -> Seq<u8>;

/// Whether the product of the pairings of the index-aligned G1 and G2
/// elements is the identity of the pairing target group.
pub uninterp spec fn pairing_product_is_one(g1s: Seq<Seq<u8>>, g2s: Seq<Seq<u8>>) -> bool;

/// The canonical encoding of the G1 identity: a zero coordinate with the
/// infinity flag set in the final byte.
pub open spec fn g1_zero_bytes() -> Seq<u8> {
    Seq::new(48, |i: int| if i == 47 { 0x40u8 } else { 0u8 })
}

/// The byte sequences of a sequence of byte vectors.
pub open spec fn bytes_seq(v: Seq<Vec<u8>>) -> Seq<Seq<u8>> {
    v.map_values(|b: Vec<u8>| b@)
}

/// The field values of a sequence of scalars.
pub open spec fn scalar_values(s: Seq<Scalar>) -> Seq<nat> {
    s.map_values(|x: Scalar| x.value())
}

/// Every scalar of the sequence is canonically encoded.
pub open spec fn scalars_wf(s: Seq<Scalar>) -> bool {
    forall|i: int| 0 <= i < s.len() ==> s[i].wf()
}

/// The encoding of the multi-scalar multiplication `sum_i ss[i] * bs[i]`,
/// as the fold of the named single-element operations from the identity.
pub open spec fn g1_msm_of(ss: Seq<nat>, bs: Seq<Seq<u8>>) -> Seq<u8>
    decreases ss.len(),
{
    if ss.len() == 0 || bs.len() == 0 {
        g1_zero_bytes()
    } else {
        g1_add_of(g1_msm_of(ss.drop_last(), bs.drop_last()), g1_mul_of(ss.last(), bs.last()))
    }
}

/// The encoding of the G1 identity, built byte by byte.
pub(crate) fn g1_zero() -> (r: Vec<u8>)
    ensures
        r@ == g1_zero_bytes(),
{
    let mut out: Vec<u8> = Vec::new();
    let mut i: usize = 0;
    while i < 47
        invariant
            i <= 47,
            out@.len() == i,
            forall|j: int| 0 <= j < i ==> out@[j] == 0u8,
        decreases 47 - i,
    {
        out.push(0u8);
        i = i + 1;
    }
    out.push(0x40u8);
    proof {
        assert(out@ =~= g1_zero_bytes());
    }
    out
}

/// Relies on arkworks BLS12-381 G1 addition: the encoding of the sum of the
/// two encoded points.
#[verifier::external_body]
pub(crate) fn g1_add(x: &Vec<u8>, y: &Vec<u8>) -> (r: Vec<u8>)
    ensures
        r@ == g1_add_of(x@, y@),
        r@.len() == 48,
        g1_valid_of(r@),
{
    let a = match G1Affine::deserialize(&x[..]) { Ok(p) => p, Err(_) => G1Affine::zero() };
    let b = match G1Affine::deserialize(&y[..]) { Ok(p) => p, Err(_) => G1Affine::zero() };
    let mut out: Vec<u8> = Vec::new();
    (a.into_projective() + b.into_projective()).into_affine().serialize(&mut out).unwrap();
    out
}

/// Relies on arkworks BLS12-381 G1 scalar multiplication: the encoding of the
/// encoded point multiplied by the scalar's value.
#[verifier::external_body]
pub(crate) fn g1_mul(s: &Scalar, point: &Vec<u8>) -> (r: Vec<u8>)
    requires
        s.wf(),
    ensures
        r@ == g1_mul_of(s.value(), point@),
        r@.len() == 48,
        g1_valid_of(r@),
{
    let f = Fr::deserialize(&s.bytes[..]).unwrap();
    let p = match G1Affine::deserialize(&point[..]) { Ok(x) => x, Err(_) => G1Affine::zero() };
    let mut out: Vec<u8> = Vec::new();
    p.mul(f.into_repr()).into_affine().serialize(&mut out).unwrap();
    out
}

/// Relies on arkworks BLS12-381 G1 negation: the encoding of the additive
/// inverse of the encoded point.
#[verifier::external_body]
pub(crate) fn g1_neg(x: &Vec<u8>) -> (r: Vec<u8>)
    ensures
        r@ == g1_neg_of(x@),
        r@.len() == 48,
        g1_valid_of(r@),
{
    let a = match G1Affine::deserialize(&x[..]) { Ok(p) => p, Err(_) => G1Affine::zero() };
    let mut out: Vec<u8> = Vec::new();
    (-a).serialize(&mut out).unwrap();
    out
}

/// Relies on the arkworks BLS12-381 variable-base multi-scalar
/// multiplication: the encoding of `sum_i scalars[i] * bases[i]`.
#[verifier::external_body]
pub(crate) fn g1_msm(scalars: &Vec<Scalar>, bases: &Vec<Vec<u8>>) -> (r: Vec<u8>)
    requires
        scalars@.len() == bases@.len(),
        scalars_wf(scalars@),
    ensures
        r@ == g1_msm_of(scalar_values(scalars@), bytes_seq(bases@)),
        r@.len() == 48,
        g1_valid_of(r@),
{
    let mut bs: Vec<G1Affine> = Vec::new();
    let mut ss: Vec<ark_ff::BigInteger256> = Vec::new();
    let mut i: usize = 0;
    while i < bases.len() {
        bs.push(match G1Affine::deserialize(&bases[i][..]) { Ok(p) => p, Err(_) => G1Affine::zero() });
        ss.push(Fr::deserialize(&scalars[i].bytes[..]).unwrap().into_repr());
        i = i + 1;
    }
    let mut out: Vec<u8> = Vec::new();
    VariableBaseMSM::multi_scalar_mul(&bs, &ss).into_affine().serialize(&mut out).unwrap();
    out
}

/// Relies on the arkworks BLS12-381 G1 generator and its canonical
/// serialization.
#[verifier::external_body]
pub(crate) fn g1_generator() -> (r: Vec<u8>)
    ensures
        r@.len() == 48,
        g1_valid_of(r@),
{
    let mut out: Vec<u8> = Vec::new();
    G1Affine::prime_subgroup_generator().serialize(&mut out).unwrap();
    out
}

/// Relies on the arkworks BLS12-381 G2 generator and its canonical
/// serialization.
#[verifier::external_body]
pub(crate) fn g2_generator() -> (r: Vec<u8>)
    ensures
        r@.len() == 96,
        g2_valid_of(r@),
{
    let mut out: Vec<u8> = Vec::new();
    G2Affine::prime_subgroup_generator().serialize(&mut out).unwrap();
    out
}

/// Relies on arkworks BLS12-381 G2 scalar multiplication: the encoding of the
/// encoded point multiplied by the scalar's value.
#[verifier::external_body]
pub(crate) fn g2_mul(s: &Scalar, point: &Vec<u8>) -> (r: Vec<u8>)
    requires
        s.wf(),
    ensures
        r@ == g2_mul_of(s.value(), point@),
        r@.len() == 96,
        g2_valid_of(r@),
{
    let f = Fr::deserialize(&s.bytes[..]).unwrap();
    let p = match G2Affine::deserialize(&point[..]) { Ok(x) => x, Err(_) => G2Affine::zero() };
    let mut out: Vec<u8> = Vec::new();
    p.mul(f.into_repr()).into_affine().serialize(&mut out).unwrap();
    out
}

/// Relies on arkworks BLS12-381 G1 deserialization: whether it accepts the
/// bytes as the encoding of a point of the prime-order subgroup, checking
/// the coordinate range, the curve equation and the subgroup.
#[verifier::external_body]
pub(crate) fn g1_is_valid(p: &Vec<u8>) -> (r: bool)
    ensures
        r == g1_valid_of(p@),
{
    G1Affine::deserialize(&p[..]).is_ok()
}

/// Relies on arkworks BLS12-381 G2 deserialization: whether it accepts the
/// bytes as the encoding of a point of the prime-order subgroup, checking
/// the coordinate range, the curve equation and the subgroup.
#[verifier::external_body]
pub(crate) fn g2_is_valid(p: &Vec<u8>) -> (r: bool)
    ensures
        r == g2_valid_of(p@),
{
    G2Affine::deserialize(&p[..]).is_ok()
}

/// Relies on the arkworks BLS12-381 pairing: whether the product of the
/// pairings of the index-aligned encoded points is the identity of the
/// pairing target group.
#[verifier::external_body]
pub(crate) fn multi_pairing_is_one(g1s: &Vec<Vec<u8>>, g2s: &Vec<Vec<u8>>) -> (r: bool)
    requires
        g1s@.len() == g2s@.len(),
    ensures
        r == pairing_product_is_one(bytes_seq(g1s@), bytes_seq(g2s@)),
{
    let mut pairs: Vec<(<Bls12_381 as PairingEngine>::G1Prepared, <Bls12_381 as PairingEngine>::G2Prepared)> = Vec::new();
    let mut i: usize = 0;
    while i < g1s.len() {
        let a = match G1Affine::deserialize(&g1s[i][..]) { Ok(p) => p, Err(_) => G1Affine::zero() };
        let b = match G2Affine::deserialize(&g2s[i][..]) { Ok(p) => p, Err(_) => G2Affine::zero() };
        pairs.push((a.into(), b.into()));
        i = i + 1;
    }
    Bls12_381::product_of_pairings(pairs.iter()).is_one()
}

} // verus!
