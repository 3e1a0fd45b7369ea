use ark_bls12_381::Fr;
use ark_serialize::CanonicalSerialize;
use ark_std::rand::RngCore;
use ark_std::test_rng;
use ark_std::UniformRand;

use sangria_kzg::field::Scalar;
use sangria_kzg::poly::DensePolynomial;
use sangria_kzg::serialize::{batch_proof_from_bytes, batch_proof_to_bytes};
use sangria_kzg::srs::{UnivariateProverParam, UnivariateUniversalParams, UnivariateVerifierParam};
use sangria_kzg::structs::Commitment;
use sangria_kzg::univariate_kzg::{UnivariateKzgPCS, UnivariateKzgProof};

fn fr_scalar(f: &Fr) -> Scalar {
    let mut bytes: Vec<u8> = Vec::new();
    f.serialize(&mut bytes).unwrap();
    Scalar { bytes }
}

fn random_scalar<R: RngCore>(rng: &mut R) -> Scalar {
    fr_scalar(&Fr::rand(rng))
}

fn random_poly<R: RngCore>(degree: usize, rng: &mut R) -> DensePolynomial {
    let mut coeffs: Vec<Scalar> = Vec::new();
    for _ in 0..=degree {
        coeffs.push(random_scalar(rng));
    }
    DensePolynomial::from_coefficients_vec(coeffs)
}

/// Commitments, proofs, both keys, the SRS and a batch proof survive an
/// encode/decode round trip unchanged.
#[test]
fn encode_decode_round_trips() {
    let rng = &mut test_rng();
    let tau = random_scalar(rng);
    let srs = UnivariateKzgPCS::gen_srs_for_testing(&tau, 6).unwrap();
    let (ck, vk) = UnivariateKzgPCS::trim(&srs, 6, None).unwrap();
    let polys: Vec<DensePolynomial> = (0..3).map(|_| random_poly(5, rng)).collect();
    let points: Vec<Scalar> = (0..3).map(|_| random_scalar(rng)).collect();
    let comms = UnivariateKzgPCS::batch_commit(&ck, &polys).unwrap();
    let (proofs, _evals) = UnivariateKzgPCS::batch_open(&ck, &comms, &polys, &points).unwrap();

    let comm_bytes = comms[0].to_bytes();
    assert_eq!(Commitment::from_bytes(&comm_bytes), Some(comms[0].duplicate()));

    let proof_bytes = proofs[1].to_bytes();
    assert_eq!(UnivariateKzgProof::from_bytes(&proof_bytes), Some(proofs[1].duplicate()));

    let batch_bytes = batch_proof_to_bytes(&proofs);
    assert_eq!(batch_bytes.len(), 48 * proofs.len());
    let decoded = batch_proof_from_bytes(&batch_bytes).unwrap();
    assert_eq!(decoded, proofs);

    let vk_bytes = vk.to_bytes();
    assert_eq!(vk_bytes.len(), 240);
    let vk2 = UnivariateVerifierParam::from_bytes(&vk_bytes).unwrap();
    assert_eq!(vk2, vk);

    let ck_bytes = ck.to_bytes();
    assert_eq!(ck_bytes.len(), 48 * 7);
    let ck2 = UnivariateProverParam::from_bytes(&ck_bytes).unwrap();
    assert_eq!(ck2, ck);

    let srs_bytes = srs.to_bytes();
    assert_eq!(srs_bytes.len(), 48 * 7 + 192);
    let srs2 = UnivariateUniversalParams::from_bytes(&srs_bytes).unwrap();
    assert_eq!(srs2, srs);

    // A decoded verifier key still verifies statements.
    let (proof, value) = UnivariateKzgPCS::open(&ck2, &polys[0], &points[0]).unwrap();
    assert!(UnivariateKzgPCS::verify(&vk2, &comms[0], &points[0], &value, &proof).unwrap());
}

/// Decoding rejects byte strings of the wrong shape and elements that are
/// not accepted encodings.
#[test]
fn decode_rejects_invalid_input() {
    // Wrong length.
    assert_eq!(Commitment::from_bytes(&vec![0u8; 47]), None);
    assert_eq!(UnivariateKzgProof::from_bytes(&vec![0u8; 49]), None);
    assert_eq!(UnivariateVerifierParam::from_bytes(&vec![0u8; 239]), None);
    assert_eq!(batch_proof_from_bytes(&vec![0u8; 50]), None);
    assert_eq!(UnivariateUniversalParams::from_bytes(&vec![0u8; 100]), None);

    // A coordinate far above the base-field modulus is never accepted.
    let mut garbage = vec![0xffu8; 48];
    garbage[47] = 0x3f;
    assert_eq!(Commitment::from_bytes(&garbage), None);
    let mut two_elems = garbage.clone();
    two_elems.extend_from_slice(&garbage);
    assert_eq!(batch_proof_from_bytes(&two_elems), None);
}
