use ark_bls12_381::Fr;
use ark_serialize::CanonicalSerialize;
use ark_std::test_rng;
use ark_std::rand::RngCore;
use ark_std::UniformRand;

use sangria_kzg::errors::PCSError;
use sangria_kzg::field::Scalar;
use sangria_kzg::poly::DensePolynomial;
use sangria_kzg::scalars_n_bases::ScalarsAndBases;
use sangria_kzg::structs::Commitment;
use sangria_kzg::univariate_kzg::{UnivariateKzgPCS, UnivariateKzgProof};
use sangria_kzg::{UVPCS, WithMaxDegree};

fn scalar_from_fr(f: &Fr) -> Scalar {
    let mut bytes: Vec<u8> = Vec::new();
    f.serialize(&mut bytes).unwrap();
    Scalar { bytes }
}

fn rand_scalar<R: RngCore>(rng: &mut R) -> Scalar {
    scalar_from_fr(&Fr::rand(rng))
}

fn rand_poly<R: RngCore>(degree: usize, rng: &mut R) -> DensePolynomial {
    let mut coeffs: Vec<Scalar> = Vec::new();
    for _ in 0..=degree {
        coeffs.push(rand_scalar(rng));
    }
    DensePolynomial::from_coefficients_vec(coeffs)
}

fn dup_scalars(v: &[Scalar]) -> Vec<Scalar> {
    v.iter().map(|s| s.duplicate()).collect()
}

fn poly_from_u64(coeffs: &[u64]) -> DensePolynomial {
    DensePolynomial::from_coefficients_vec(coeffs.iter().map(|&c| Scalar::from_u64(c)).collect())
}

fn end_to_end_test_template() -> Result<(), PCSError> {
    let rng = &mut test_rng();
    for _ in 0..100 {
        let mut degree = 0;
        while degree <= 1 {
            degree = usize::rand(rng) % 20;
        }
        let tau = rand_scalar(rng);
        let pp = UnivariateKzgPCS::gen_srs_for_testing(&tau, degree)?;
        let (ck, vk) = pp.trim(degree)?;
        let p = rand_poly(degree, rng);
        let comm = UnivariateKzgPCS::commit(&ck, &p)?;
        let point = rand_scalar(rng);
        let (proof, value) = UnivariateKzgPCS::open(&ck, &p, &point)?;
        assert!(
            UnivariateKzgPCS::verify(&vk, &comm, &point, &value, &proof)?,
            "proof was incorrect for max_degree = {}, polynomial_degree = {}",
            degree,
            p.degree(),
        );
    }
    Ok(())
}

fn linear_polynomial_test_template() -> Result<(), PCSError> {
    let rng = &mut test_rng();
    for _ in 0..100 {
        let degree = 50;
        let tau = rand_scalar(rng);
        let pp = UnivariateKzgPCS::gen_srs_for_testing(&tau, degree)?;
        let (ck, vk) = pp.trim(degree)?;
        let p = rand_poly(degree, rng);
        let comm = UnivariateKzgPCS::commit(&ck, &p)?;
        let point = rand_scalar(rng);
        let (proof, value) = UnivariateKzgPCS::open(&ck, &p, &point)?;
        assert!(
            UnivariateKzgPCS::verify(&vk, &comm, &point, &value, &proof)?,
            "proof was incorrect for max_degree = {}, polynomial_degree = {}",
            degree,
            p.degree(),
        );
    }
    Ok(())
}

fn batch_check_test_template() -> Result<(), PCSError> {
    let rng = &mut test_rng();
    for _ in 0..10 {
        let mut degree = 0;
        while degree <= 1 {
            degree = usize::rand(rng) % 20;
        }
        let tau = rand_scalar(rng);
        let pp = UnivariateKzgPCS::gen_srs_for_testing(&tau, degree)?;
        let (ck, vk) = UnivariateKzgPCS::trim(&pp, degree, None)?;
        let mut comms = Vec::new();
        let mut values = Vec::new();
        let mut points = Vec::new();
        let mut proofs = Vec::new();
        for _ in 0..10 {
            let p = rand_poly(degree, rng);
            let comm = UnivariateKzgPCS::commit(&ck, &p)?;
            let point = rand_scalar(rng);
            let (proof, value) = UnivariateKzgPCS::open(&ck, &p, &point)?;
            assert!(UnivariateKzgPCS::verify(&vk, &comm, &point, &value, &proof)?);
            comms.push(comm);
            values.push(value);
            points.push(point);
            proofs.push(proof);
        }
        // Randomizers need not be sampled from the full field: 128-bit
        // strings suffice.
        let randomizers: Vec<Scalar> =
            (0..10).map(|_| scalar_from_fr(&Fr::from(u128::rand(rng)))).collect();
        assert!(UnivariateKzgPCS::batch_verify(
            &vk,
            &comms,
            &points,
            &values,
            &proofs,
            &randomizers
        )?);
    }
    Ok(())
}

#[test]
fn end_to_end_test() {
    end_to_end_test_template().expect("test failed for bls12-381");
}

#[test]
fn linear_polynomial_test() {
    linear_polynomial_test_template().expect("test failed for bls12-381");
}

#[test]
fn batch_check_test() {
    batch_check_test_template().expect("test failed for bls12-381");
}

/// A degree-3 polynomial committed under an SRS trimmed to degree 3, opened
/// at 5: the value is pinned exactly, a correct statement verifies, and a
/// statement with the value off by one does not.
#[test]
fn concrete_degree_three_scenario() {
    let rng = &mut test_rng();
    let tau = rand_scalar(rng);
    let srs = UnivariateKzgPCS::gen_srs_for_testing(&tau, 3).unwrap();
    let (ck, vk) = UnivariateKzgPCS::trim(&srs, 3, None).unwrap();
    let p = poly_from_u64(&[1, 2, 3, 4]);
    assert_eq!(p.degree(), 3);
    let comm = UnivariateKzgPCS::commit(&ck, &p).unwrap();
    let z = Scalar::from_u64(5);
    let (proof, value) = UnivariateKzgPCS::open(&ck, &p, &z).unwrap();
    assert_eq!(value, Scalar::from_u64(586));
    assert!(UnivariateKzgPCS::verify(&vk, &comm, &z, &value, &proof).unwrap());
    let wrong = Scalar::from_u64(587);
    assert!(!UnivariateKzgPCS::verify(&vk, &comm, &z, &wrong, &proof).unwrap());
}

/// Committing at exactly the supported degree succeeds; one degree higher
/// fails with the invalid-parameters error.
#[test]
fn degree_boundary() {
    let rng = &mut test_rng();
    let tau = rand_scalar(rng);
    let srs = UnivariateKzgPCS::gen_srs_for_testing(&tau, 12).unwrap();
    let (ck, _vk) = UnivariateKzgPCS::trim(&srs, 7, None).unwrap();
    let exact = rand_poly(7, rng);
    assert!(UnivariateKzgPCS::commit(&ck, &exact).is_ok());
    let too_big = rand_poly(8, rng);
    assert!(matches!(
        UnivariateKzgPCS::commit(&ck, &too_big),
        Err(PCSError::InvalidParameters(_))
    ));
    assert!(matches!(
        UnivariateKzgPCS::open(&ck, &too_big, &rand_scalar(rng)),
        Err(PCSError::InvalidParameters(_))
    ));
}

/// A correct proof checked against any tampered value is rejected.
#[test]
fn tampered_value_is_rejected() {
    let rng = &mut test_rng();
    let tau = rand_scalar(rng);
    let srs = UnivariateKzgPCS::gen_srs_for_testing(&tau, 10).unwrap();
    let (ck, vk) = UnivariateKzgPCS::trim(&srs, 10, None).unwrap();
    let p = rand_poly(6, rng);
    let comm = UnivariateKzgPCS::commit(&ck, &p).unwrap();
    let z = rand_scalar(rng);
    let (proof, value) = UnivariateKzgPCS::open(&ck, &p, &z).unwrap();
    assert!(UnivariateKzgPCS::verify(&vk, &comm, &z, &value, &proof).unwrap());
    let tampered = rand_scalar(rng);
    if tampered != value {
        assert!(!UnivariateKzgPCS::verify(&vk, &comm, &z, &tampered, &proof).unwrap());
    }
    let value_fr: Fr =
        ark_serialize::CanonicalDeserialize::deserialize(&value.bytes[..]).unwrap();
    let off_by_one = scalar_from_fr(&(Fr::from(1u64) + value_fr));
    assert!(!UnivariateKzgPCS::verify(&vk, &comm, &z, &off_by_one, &proof).unwrap());
}

fn honest_batch<R: RngCore>(
    n: usize,
    degree: usize,
    ck: &sangria_kzg::srs::UnivariateProverParam,
    vk: &sangria_kzg::srs::UnivariateVerifierParam,
    rng: &mut R,
) -> (Vec<Commitment>, Vec<Scalar>, Vec<Scalar>, Vec<UnivariateKzgProof>) {
    let mut comms = Vec::new();
    let mut points = Vec::new();
    let mut values = Vec::new();
    let mut proofs = Vec::new();
    for _ in 0..n {
        let p = rand_poly(degree, rng);
        let comm = UnivariateKzgPCS::commit(ck, &p).unwrap();
        let z = rand_scalar(rng);
        let (proof, value) = UnivariateKzgPCS::open(ck, &p, &z).unwrap();
        assert!(UnivariateKzgPCS::verify(vk, &comm, &z, &value, &proof).unwrap());
        comms.push(comm);
        points.push(z);
        values.push(value);
        proofs.push(proof);
    }
    (comms, points, values, proofs)
}

/// Honest statements pass the randomized batch check; replacing one proof
/// with a proof for a different polynomial makes it fail, with fresh
/// randomizers each time.
#[test]
fn batch_verify_soundness_and_completeness() {
    let rng = &mut test_rng();
    let tau = rand_scalar(rng);
    let srs = UnivariateKzgPCS::gen_srs_for_testing(&tau, 8).unwrap();
    let (ck, vk) = UnivariateKzgPCS::trim(&srs, 8, None).unwrap();
    let (comms, points, values, mut proofs) = honest_batch(6, 8, &ck, &vk, rng);
    let randomizers: Vec<Scalar> = (0..6).map(|_| rand_scalar(rng)).collect();
    assert!(UnivariateKzgPCS::batch_verify(&vk, &comms, &points, &values, &proofs, &randomizers)
        .unwrap());
    // Replace a single proof with one for a different polynomial.
    let other = rand_poly(8, rng);
    let (bad_proof, _) = UnivariateKzgPCS::open(&ck, &other, &points[3]).unwrap();
    proofs[3] = bad_proof;
    let fresh: Vec<Scalar> = (0..6).map(|_| rand_scalar(rng)).collect();
    assert!(!UnivariateKzgPCS::batch_verify(&vk, &comms, &points, &values, &proofs, &fresh)
        .unwrap());
}

/// The aggregated check with one pipeline and unit combiners agrees with
/// the plain batch check on the same statements, true and false alike.
#[test]
fn aggregated_reduces_to_batch_at_one_pipeline() {
    let rng = &mut test_rng();
    let tau = rand_scalar(rng);
    let srs = UnivariateKzgPCS::gen_srs_for_testing(&tau, 6).unwrap();
    let (ck, vk) = UnivariateKzgPCS::trim(&srs, 6, None).unwrap();
    let (comms, points, values, mut proofs) = honest_batch(5, 6, &ck, &vk, rng);
    let randomizers: Vec<Scalar> = (0..5).map(|_| rand_scalar(rng)).collect();
    let mut multi_commitment: Vec<ScalarsAndBases> = Vec::new();
    for c in &comms {
        let mut sb = ScalarsAndBases::new();
        sb.push(Scalar::from_u64(1), c.duplicate().0);
        multi_commitment.push(sb);
    }
    let combiners: Vec<Vec<Scalar>> = vec![(0..5).map(|_| Scalar::from_u64(1)).collect()];
    let pipeline_points: Vec<Vec<Scalar>> = vec![dup_scalars(&points)];
    let pipeline_proofs: Vec<Vec<UnivariateKzgProof>> =
        vec![proofs.iter().map(|p| p.duplicate()).collect()];
    let batch_outcome =
        UnivariateKzgPCS::batch_verify(&vk, &comms, &points, &values, &proofs, &randomizers)
            .unwrap();
    let aggregated_outcome = UnivariateKzgPCS::batch_verify_aggregated(
        &vk,
        &multi_commitment,
        &pipeline_points,
        &values,
        &pipeline_proofs,
        &combiners,
        &randomizers,
    )
    .unwrap();
    assert!(batch_outcome);
    assert_eq!(batch_outcome, aggregated_outcome);
    // Tamper with one statement: both checks must now reject.
    let other = rand_poly(6, rng);
    let (bad_proof, _) = UnivariateKzgPCS::open(&ck, &other, &points[2]).unwrap();
    proofs[2] = bad_proof;
    let pipeline_proofs: Vec<Vec<UnivariateKzgProof>> =
        vec![proofs.iter().map(|p| p.duplicate()).collect()];
    let batch_outcome =
        UnivariateKzgPCS::batch_verify(&vk, &comms, &points, &values, &proofs, &randomizers)
            .unwrap();
    let aggregated_outcome = UnivariateKzgPCS::batch_verify_aggregated(
        &vk,
        &multi_commitment,
        &pipeline_points,
        &values,
        &pipeline_proofs,
        &combiners,
        &randomizers,
    )
    .unwrap();
    assert!(!batch_outcome);
    assert_eq!(batch_outcome, aggregated_outcome);
}

/// A randomizer stream shorter than required yields the invalid-parameters
/// error, never a silent wrong answer.
#[test]
fn randomizer_exhaustion() {
    let rng = &mut test_rng();
    let tau = rand_scalar(rng);
    let srs = UnivariateKzgPCS::gen_srs_for_testing(&tau, 5).unwrap();
    let (ck, vk) = UnivariateKzgPCS::trim(&srs, 5, None).unwrap();
    let (comms, points, values, proofs) = honest_batch(4, 5, &ck, &vk, rng);
    let short: Vec<Scalar> = (0..3).map(|_| rand_scalar(rng)).collect();
    assert!(matches!(
        UnivariateKzgPCS::batch_verify(&vk, &comms, &points, &values, &proofs, &short),
        Err(PCSError::InvalidParameters(_))
    ));
    let mut multi_commitment: Vec<ScalarsAndBases> = Vec::new();
    for c in &comms {
        let mut sb = ScalarsAndBases::new();
        sb.push(Scalar::from_u64(1), c.duplicate().0);
        multi_commitment.push(sb);
    }
    let combiners: Vec<Vec<Scalar>> = vec![(0..4).map(|_| Scalar::from_u64(1)).collect()];
    let pipeline_points: Vec<Vec<Scalar>> = vec![dup_scalars(&points)];
    let pipeline_proofs: Vec<Vec<UnivariateKzgProof>> =
        vec![proofs.iter().map(|p| p.duplicate()).collect()];
    let very_short: Vec<Scalar> = (0..2).map(|_| rand_scalar(rng)).collect();
    assert!(matches!(
        UnivariateKzgPCS::batch_verify_aggregated(
            &vk,
            &multi_commitment,
            &pipeline_points,
            &values,
            &pipeline_proofs,
            &combiners,
            &very_short,
        ),
        Err(PCSError::InvalidParameters(_))
    ));
}

/// Pipeline-parallel lists that disagree in shape are rejected by the
/// aggregated check with the invalid-parameters error.
#[test]
fn aggregated_shape_mismatch() {
    let rng = &mut test_rng();
    let tau = rand_scalar(rng);
    let srs = UnivariateKzgPCS::gen_srs_for_testing(&tau, 5).unwrap();
    let (ck, vk) = UnivariateKzgPCS::trim(&srs, 5, None).unwrap();
    let (comms, points, values, proofs) = honest_batch(3, 5, &ck, &vk, rng);
    let mut multi_commitment: Vec<ScalarsAndBases> = Vec::new();
    for c in &comms {
        let mut sb = ScalarsAndBases::new();
        sb.push(Scalar::from_u64(1), c.duplicate().0);
        multi_commitment.push(sb);
    }
    let combiners: Vec<Vec<Scalar>> = vec![(0..3).map(|_| Scalar::from_u64(1)).collect()];
    let pipeline_proofs: Vec<Vec<UnivariateKzgProof>> =
        vec![proofs.iter().map(|p| p.duplicate()).collect()];
    let randomizers: Vec<Scalar> = (0..3).map(|_| rand_scalar(rng)).collect();
    // One pipeline of proofs and combiners, but no pipeline of points.
    let no_points: Vec<Vec<Scalar>> = Vec::new();
    assert!(matches!(
        UnivariateKzgPCS::batch_verify_aggregated(
            &vk,
            &multi_commitment,
            &no_points,
            &values,
            &pipeline_proofs,
            &combiners,
            &randomizers,
        ),
        Err(PCSError::InvalidParameters(_))
    ));
    // A pipeline whose point list is shorter than the shared value list.
    let short_points: Vec<Vec<Scalar>> = vec![dup_scalars(&points[..2])];
    assert!(matches!(
        UnivariateKzgPCS::batch_verify_aggregated(
            &vk,
            &multi_commitment,
            &short_points,
            &values,
            &pipeline_proofs,
            &combiners,
            &randomizers,
        ),
        Err(PCSError::InvalidParameters(_))
    ));
    // The well-shaped inputs still pass.
    let pipeline_points: Vec<Vec<Scalar>> = vec![dup_scalars(&points)];
    assert!(UnivariateKzgPCS::batch_verify_aggregated(
        &vk,
        &multi_commitment,
        &pipeline_points,
        &values,
        &pipeline_proofs,
        &combiners,
        &randomizers,
    )
    .unwrap());
}

/// Batch commit and batch open return their outputs in input order: each
/// element equals the corresponding single commit or open.
#[test]
fn batch_operations_preserve_order() {
    let rng = &mut test_rng();
    let tau = rand_scalar(rng);
    let srs = UnivariateKzgPCS::gen_srs_for_testing(&tau, 9).unwrap();
    let (ck, _vk) = UnivariateKzgPCS::trim(&srs, 9, None).unwrap();
    let polys: Vec<DensePolynomial> = (0..5).map(|i| rand_poly(3 + i, rng)).collect();
    let points: Vec<Scalar> = (0..5).map(|_| rand_scalar(rng)).collect();
    let batch_comms = UnivariateKzgPCS::batch_commit(&ck, &polys).unwrap();
    assert_eq!(batch_comms.len(), 5);
    let (batch_proofs, batch_evals) =
        UnivariateKzgPCS::batch_open(&ck, &batch_comms, &polys, &points).unwrap();
    assert_eq!(batch_proofs.len(), 5);
    assert_eq!(batch_evals.len(), 5);
    for i in 0..5 {
        let single_comm = UnivariateKzgPCS::commit(&ck, &polys[i]).unwrap();
        assert_eq!(batch_comms[i], single_comm);
        let (single_proof, single_eval) =
            UnivariateKzgPCS::open(&ck, &polys[i], &points[i]).unwrap();
        assert_eq!(batch_proofs[i], single_proof);
        assert_eq!(batch_evals[i], single_eval);
    }
}

/// Mismatched list lengths in batch open are rejected.
#[test]
fn batch_open_length_mismatch() {
    let rng = &mut test_rng();
    let tau = rand_scalar(rng);
    let srs = UnivariateKzgPCS::gen_srs_for_testing(&tau, 4).unwrap();
    let (ck, _vk) = UnivariateKzgPCS::trim(&srs, 4, None).unwrap();
    let polys: Vec<DensePolynomial> = (0..3).map(|_| rand_poly(2, rng)).collect();
    let points: Vec<Scalar> = (0..2).map(|_| rand_scalar(rng)).collect();
    assert!(matches!(
        UnivariateKzgPCS::batch_open(&ck, &Vec::new(), &polys, &points),
        Err(PCSError::InvalidParameters(_))
    ));
}

/// The univariate trim rejects a variable count and a degree above the SRS
/// capacity.
#[test]
fn trim_rejections() {
    let rng = &mut test_rng();
    let tau = rand_scalar(rng);
    let srs = UnivariateKzgPCS::gen_srs_for_testing(&tau, 4).unwrap();
    assert!(matches!(
        UnivariateKzgPCS::trim(&srs, 2, Some(3)),
        Err(PCSError::InvalidParameters(_))
    ));
    assert!(matches!(
        UnivariateKzgPCS::trim(&srs, 5, None),
        Err(PCSError::InvalidParameters(_))
    ));
    assert!(UnivariateKzgPCS::trim(&srs, 4, None).is_ok());
    assert_eq!(srs.max_degree(), 4);
}

/// Scalars built from small integers agree with the field implementation.
#[test]
fn scalar_small_value_agreement() {
    assert_eq!(Scalar::from_u64(586), scalar_from_fr(&Fr::from(586u64)));
    assert_eq!(Scalar::from_u64(0), scalar_from_fr(&Fr::from(0u64)));
    assert!(Scalar::from_u64(0).is_zero());
    assert!(!Scalar::from_u64(7).is_zero());
}

/// A commitment converts into a proof carrying the same group element.
#[test]
fn proof_from_commitment() {
    let rng = &mut test_rng();
    let tau = rand_scalar(rng);
    let srs = UnivariateKzgPCS::gen_srs_for_testing(&tau, 3).unwrap();
    let (ck, _vk) = UnivariateKzgPCS::trim(&srs, 3, None).unwrap();
    let p = poly_from_u64(&[4, 0, 9]);
    let comm = UnivariateKzgPCS::commit(&ck, &p).unwrap();
    let expected = comm.duplicate();
    let converted: UnivariateKzgProof = UnivariateKzgPCS::from_comm(comm);
    assert_eq!(converted.proof, expected.0);
}

/// The engine's error wraps into the folding layer's commitment-error kind.
#[test]
fn engine_error_wraps_into_folding_error() {
    let e = PCSError::InvalidParameters("boundary".to_string());
    assert_eq!(
        sangria_kzg::errors::SangriaError::from(e),
        sangria_kzg::errors::SangriaError::CommitmentError
    );
}

/// The zero polynomial has an empty coefficient vector, commits without
/// error, and its opening verifies with value zero.
#[test]
fn zero_polynomial_opens_to_zero() {
    let rng = &mut test_rng();
    let tau = rand_scalar(rng);
    let srs = UnivariateKzgPCS::gen_srs_for_testing(&tau, 4).unwrap();
    let (ck, vk) = UnivariateKzgPCS::trim(&srs, 4, None).unwrap();
    let zero_poly = DensePolynomial::from_coefficients_vec(vec![
        Scalar::from_u64(0),
        Scalar::from_u64(0),
    ]);
    assert_eq!(zero_poly.coeffs.len(), 0);
    assert_eq!(zero_poly.degree(), 0);
    let comm = UnivariateKzgPCS::commit(&ck, &zero_poly).unwrap();
    let z = rand_scalar(rng);
    let (proof, value) = UnivariateKzgPCS::open(&ck, &zero_poly, &z).unwrap();
    assert!(value.is_zero());
    assert!(UnivariateKzgPCS::verify(&vk, &comm, &z, &value, &proof).unwrap());
}

/// A polynomial whose low coefficients are zero is committed through the
/// leading-zero-skipping path and still verifies.
#[test]
fn leading_zero_coefficients_are_skipped() {
    let rng = &mut test_rng();
    let tau = rand_scalar(rng);
    let srs = UnivariateKzgPCS::gen_srs_for_testing(&tau, 5).unwrap();
    let (ck, vk) = UnivariateKzgPCS::trim(&srs, 5, None).unwrap();
    let p = poly_from_u64(&[0, 0, 0, 7, 11]);
    let comm = UnivariateKzgPCS::commit(&ck, &p).unwrap();
    let z = Scalar::from_u64(2);
    let (proof, value) = UnivariateKzgPCS::open(&ck, &p, &z).unwrap();
    // p(2) = 7 * 8 + 11 * 16 = 232.
    assert_eq!(value, Scalar::from_u64(232));
    assert!(UnivariateKzgPCS::verify(&vk, &comm, &z, &value, &proof).unwrap());
}

