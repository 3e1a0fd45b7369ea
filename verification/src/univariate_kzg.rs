//! The univariate KZG commitment engine.
//!
//! Commit binds a polynomial to one G1 element, open produces a witness
//! commitment and the claimed evaluation, verify checks one statement by a
//! two-pairing product, and the batch paths combine many statements into one
//! pairing check through caller-supplied randomizers.

use vstd::prelude::*;

use crate::errors::PCSError;
use crate::field::{copy_bytes, fr_modulus, scalar_add, scalar_mul, scalar_neg, Scalar};
use crate::group::{
    bytes_seq, g1_add, g1_add_of, g1_msm, g1_msm_of, g1_mul, g1_mul_of, g1_neg, g1_neg_of,
    g1_valid_of, g1_zero, g1_zero_bytes, multi_pairing_is_one, pairing_product_is_one,
    scalar_values, scalars_wf,
};
use crate::poly::{poly_eval, witness_values, DensePolynomial};
use crate::scalars_n_bases::{pairs_msm, scaled_pairs, ScalarsAndBases};
use crate::srs::{UnivariateProverParam, UnivariateUniversalParams, UnivariateVerifierParam};
use crate::structs::Commitment;

verus! {

/// The univariate KZG polynomial commitment scheme over the BLS12-381
/// pairing group. The scheme is binding, not hiding.
#[derive(Debug, PartialEq, Eq)]
pub struct UnivariateKzgPCS;

/// A proof of an opening: the commitment to the witness polynomial.
#[derive(Debug, PartialEq, Eq)]
pub struct UnivariateKzgProof {
    /// The G1 encoding of the witness commitment.
    pub proof: Vec<u8>,
}

/// A batch proof: one opening proof per polynomial, in input order.
pub type UnivariateKzgBatchProof = Vec<UnivariateKzgProof>;

impl View for UnivariateKzgProof {
    type V = Seq<u8>;

    open spec fn view(&self) -> Seq<u8> {
        self.proof@
    }
}

impl UnivariateKzgProof {
    /// A fresh proof with the same encoding.
    pub fn duplicate(&self) -> (r: UnivariateKzgProof)
        ensures
            r@ == self@,
    {
        UnivariateKzgProof { proof: copy_bytes(&self.proof) }
    }
}

impl From<Commitment> for UnivariateKzgProof {
    /// A commitment is reinterpreted as the proof holding the same element.
    fn from(c: Commitment) -> (r: UnivariateKzgProof) {
        UnivariateKzgProof { proof: c.0 }
    }
}

impl crate::UVPCS for UnivariateKzgPCS {
    fn from_comm(c: Commitment) -> (r: UnivariateKzgProof) {
        UnivariateKzgProof::from(c)
    }
}

impl vstd::std_specs::convert::FromSpecImpl<Commitment> for UnivariateKzgProof {
    open spec fn obeys_from_spec() -> bool {
        true
    }

    open spec fn from_spec(c: Commitment) -> UnivariateKzgProof {
        UnivariateKzgProof { proof: c.0 }
    }
}

/// The byte encodings of a sequence of commitments.
pub open spec fn comms_view(cs: Seq<Commitment>) -> Seq<Seq<u8>> {
    cs.map_values(|c: Commitment| c@)
}

/// The byte encodings of a sequence of opening proofs.
pub open spec fn proofs_view(ps: Seq<UnivariateKzgProof>) -> Seq<Seq<u8>> {
    ps.map_values(|p: UnivariateKzgProof| p@)
}

/// Every polynomial of the sequence is well formed.
pub open spec fn polys_wf(ps: Seq<DensePolynomial>) -> bool {
    forall|i: int| 0 <= i < ps.len() ==> (#[trigger] ps[i]).wf()
}

/// The effective randomizer sequence of a batch of `n` statements: the
/// first randomizer is fixed to one, the rest are drawn from the caller's
/// stream in order.
pub open spec fn rand_seq(randomizers: Seq<nat>, n: nat) -> Seq<nat> {
    Seq::new(n, |i: int| if i == 0 { 1nat } else { randomizers[i - 1] })
}

/// The combined proof term of the first `n` statements:
/// `sum_i rs[i] * W_i`, as the fold of the named group operations.
pub open spec fn combined_w(proofs: Seq<Seq<u8>>, rs: Seq<nat>, n: int) -> Seq<u8>
    decreases n,
{
    if n <= 0 {
        g1_zero_bytes()
    } else {
        g1_add_of(combined_w(proofs, rs, n - 1), g1_mul_of(rs[n - 1], proofs[n - 1]))
    }
}

/// The combined commitment term of the first `n` statements:
/// `sum_i rs[i] * (z_i * W_i + C_i)`, as the fold of the named group
/// operations.
pub open spec fn combined_c(
    comms: Seq<Seq<u8>>,
    points: Seq<nat>,
    proofs: Seq<Seq<u8>>,
    rs: Seq<nat>,
    n: int,
) -> Seq<u8>
    decreases n,
{
    if n <= 0 {
        g1_zero_bytes()
    } else {
        g1_add_of(
            combined_c(comms, points, proofs, rs, n - 1),
            g1_mul_of(
                rs[n - 1],
                g1_add_of(g1_mul_of(points[n - 1], proofs[n - 1]), comms[n - 1]),
            ),
        )
    }
}

/// The randomizer-weighted sum of the first `n` claimed evaluations,
/// reduced after each step as the executable accumulation computes it.
pub open spec fn combined_eval(values: Seq<nat>, rs: Seq<nat>, n: int) -> nat
    decreases n,
{
    if n <= 0 {
        0
    } else {
        (combined_eval(values, rs, n - 1) + (rs[n - 1] * values[n - 1]) % fr_modulus())
            % fr_modulus()
    }
}

/// The outcome of the randomized batch check: the two-pairing product
/// `e(-total_w, beta_h) * e(total_c - (sum_i rs[i] * v_i) * g, h) = 1`.
pub open spec fn batch_verify_value(
    g: Seq<u8>,
    h: Seq<u8>,
    beta_h: Seq<u8>,
    comms: Seq<Seq<u8>>,
    points: Seq<nat>,
    values: Seq<nat>,
    proofs: Seq<Seq<u8>>,
    randomizers: Seq<nat>,
) -> bool {
    let n = comms.len() as int;
    let rs = rand_seq(randomizers, comms.len());
    let total_w = combined_w(proofs, rs, n);
    let total_c = g1_add_of(
        combined_c(comms, points, proofs, rs, n),
        g1_neg_of(g1_mul_of(combined_eval(values, rs, n), g)),
    );
    pairing_product_is_one(seq![g1_neg_of(total_w), total_c], seq![beta_h, h])
}

/// The field values of a sequence of scalar vectors.
pub open spec fn scalar_mat(v: Seq<Vec<Scalar>>) -> Seq<Seq<nat>> {
    v.map_values(|x: Vec<Scalar>| scalar_values(x@))
}

/// The byte encodings of a sequence of batch proofs.
pub open spec fn proofs_mat(v: Seq<Vec<UnivariateKzgProof>>) -> Seq<Seq<Seq<u8>>> {
    v.map_values(|x: Vec<UnivariateKzgProof>| proofs_view(x@))
}

/// The accumulated contents of a sequence of accumulators.
pub open spec fn sb_views(v: Seq<ScalarsAndBases>) -> Seq<Seq<(nat, Seq<u8>)>> {
    v.map_values(|m: ScalarsAndBases| m@)
}

/// The `(scalar, base)` pairs one pipeline's first `j` items contribute to
/// the proof-side accumulator: `(rs[j] * combiner[j], W_j)`.
pub open spec fn w_pipe_pairs(proofs: Seq<Seq<u8>>, combs: Seq<nat>, rs: Seq<nat>, j: int) -> Seq<
    (nat, Seq<u8>),
>
    decreases j,
{
    if j <= 0 {
        Seq::empty()
    } else {
        w_pipe_pairs(proofs, combs, rs, j - 1).push(
            ((rs[j - 1] * combs[j - 1]) % fr_modulus(), proofs[j - 1]),
        )
    }
}

/// The proof-side pairs of the first `i` pipelines, each pipeline
/// contributing `n` items in order.
pub open spec fn w_pairs(
    proofs: Seq<Seq<Seq<u8>>>,
    combs: Seq<Seq<nat>>,
    rs: Seq<nat>,
    i: int,
    n: int,
) -> Seq<(nat, Seq<u8>)>
    decreases i,
{
    if i <= 0 {
        Seq::empty()
    } else {
        w_pairs(proofs, combs, rs, i - 1, n) + w_pipe_pairs(proofs[i - 1], combs[i - 1], rs, n)
    }
}

/// The pairs contributed to the commitment-side accumulator by merging the
/// first `j` per-statement accumulators, each scaled by its randomizer.
pub open spec fn merged_pairs(mcs: Seq<Seq<(nat, Seq<u8>)>>, rs: Seq<nat>, j: int) -> Seq<
    (nat, Seq<u8>),
>
    decreases j,
{
    if j <= 0 {
        Seq::empty()
    } else {
        merged_pairs(mcs, rs, j - 1) + scaled_pairs(mcs[j - 1], rs[j - 1])
    }
}

/// The `(scalar, base)` pairs one pipeline's first `j` items contribute to
/// the commitment-side accumulator: `(rs[j] * combiner[j] * z_j, W_j)`.
pub open spec fn c_pipe_pairs(
    points: Seq<nat>,
    proofs: Seq<Seq<u8>>,
    combs: Seq<nat>,
    rs: Seq<nat>,
    j: int,
) -> Seq<(nat, Seq<u8>)>
    decreases j,
{
    if j <= 0 {
        Seq::empty()
    } else {
        c_pipe_pairs(points, proofs, combs, rs, j - 1).push(
            (
                (((rs[j - 1] * combs[j - 1]) % fr_modulus()) * points[j - 1]) % fr_modulus(),
                proofs[j - 1],
            ),
        )
    }
}

/// The commitment-side point pairs of the first `i` pipelines.
pub open spec fn c_pairs(
    points: Seq<Seq<nat>>,
    proofs: Seq<Seq<Seq<u8>>>,
    combs: Seq<Seq<nat>>,
    rs: Seq<nat>,
    i: int,
    n: int,
) -> Seq<(nat, Seq<u8>)>
    decreases i,
{
    if i <= 0 {
        Seq::empty()
    } else {
        c_pairs(points, proofs, combs, rs, i - 1, n) + c_pipe_pairs(
            points[i - 1],
            proofs[i - 1],
            combs[i - 1],
            rs,
            n,
        )
    }
}

/// With a single pipeline whose combiners are all one, the proof-side
/// contributions of the aggregated check are exactly the randomizer-weighted
/// proofs `(rs[j], W_j)` — the same weights the plain batch check gives its
/// proofs, both checks materializing their randomizer sequence with the same
/// leading one. (That the two outcomes then agree bit for bit rests on the
/// bilinearity of the pairing, which no contract of this crate states; the
/// agreement of outcomes is exercised by tests.)
pub proof fn lemma_single_pipeline_w_pairs(
    proofs: Seq<Seq<u8>>,
    combs: Seq<nat>,
    rs: Seq<nat>,
    n: int,
)
    requires
        0 <= n <= rs.len(),
        n <= proofs.len(),
        n <= combs.len(),
        forall|j: int| 0 <= j < n ==> combs[j] == 1,
        forall|j: int| 0 <= j < rs.len() ==> rs[j] < fr_modulus(),
    ensures
        w_pipe_pairs(proofs, combs, rs, n).len() == n,
        forall|j: int|
            0 <= j < n ==> w_pipe_pairs(proofs, combs, rs, n)[j] == (rs[j], proofs[j]),
    decreases n,
{
    if n > 0 {
        lemma_single_pipeline_w_pairs(proofs, combs, rs, n - 1);
        crate::field::lemma_u64_below_modulus(0);
        vstd::arithmetic::div_mod::lemma_small_mod(rs[n - 1], fr_modulus());
        assert(w_pipe_pairs(proofs, combs, rs, n)[n - 1] == (rs[n - 1], proofs[n - 1]));
        assert(forall|j: int|
            0 <= j < n - 1 ==> w_pipe_pairs(proofs, combs, rs, n)[j] == w_pipe_pairs(
                proofs,
                combs,
                rs,
                n - 1,
            )[j]);
    }
}

/// With a single pipeline whose combiners are all one, the point
/// contributions of the aggregated check's commitment side are exactly
/// `(rs[j] * z_j, W_j)`: the point-weighted proofs of the plain batch
/// check, weighted by the same randomizers.
pub proof fn lemma_single_pipeline_c_pairs(
    points: Seq<nat>,
    proofs: Seq<Seq<u8>>,
    combs: Seq<nat>,
    rs: Seq<nat>,
    n: int,
)
    requires
        0 <= n <= rs.len(),
        n <= points.len(),
        n <= proofs.len(),
        n <= combs.len(),
        forall|j: int| 0 <= j < n ==> combs[j] == 1,
        forall|j: int| 0 <= j < rs.len() ==> rs[j] < fr_modulus(),
    ensures
        c_pipe_pairs(points, proofs, combs, rs, n).len() == n,
        forall|j: int|
            0 <= j < n ==> c_pipe_pairs(points, proofs, combs, rs, n)[j] == (
                (rs[j] * points[j]) % fr_modulus(),
                proofs[j],
            ),
    decreases n,
{
    if n > 0 {
        lemma_single_pipeline_c_pairs(points, proofs, combs, rs, n - 1);
        crate::field::lemma_u64_below_modulus(0);
        vstd::arithmetic::div_mod::lemma_small_mod(rs[n - 1], fr_modulus());
        assert(c_pipe_pairs(points, proofs, combs, rs, n)[n - 1] == (
            (rs[n - 1] * points[n - 1]) % fr_modulus(),
            proofs[n - 1],
        ));
        assert(forall|j: int|
            0 <= j < n - 1 ==> c_pipe_pairs(points, proofs, combs, rs, n)[j] == c_pipe_pairs(
                points,
                proofs,
                combs,
                rs,
                n - 1,
            )[j]);
    }
}

/// A per-statement accumulator holding the single pair `(1, C)`, merged
/// with the randomizer `r` as its scale, contributes exactly `(r, C)`: the
/// randomizer-weighted commitment that the plain batch check adds for that
/// statement.
pub proof fn lemma_unit_accumulator_scaled(c: Seq<u8>, r: nat)
    requires
        r < fr_modulus(),
    ensures
        scaled_pairs(seq![(1nat, c)], r) == seq![(r, c)],
{
    crate::field::lemma_u64_below_modulus(0);
    vstd::arithmetic::div_mod::lemma_small_mod(r, fr_modulus());
    assert(scaled_pairs(seq![(1nat, c)], r) =~= seq![(r, c)]);
}

/// Whether the pipeline-parallel inputs of the aggregated check agree in
/// shape: equally many pipelines of points, proofs and combiners, each of
/// the shared value list's length, and one commitment accumulator per
/// shared value.
pub open spec fn aggregated_shape_ok(
    mcs: Seq<ScalarsAndBases>,
    points: Seq<Vec<Scalar>>,
    values: Seq<Scalar>,
    proofs: Seq<Vec<UnivariateKzgProof>>,
    combs: Seq<Vec<Scalar>>,
) -> bool {
    &&& points.len() == proofs.len()
    &&& points.len() == combs.len()
    &&& mcs.len() == values.len()
    &&& forall|i: int| 0 <= i < points.len() ==> (#[trigger] points[i])@.len() == values.len()
    &&& forall|i: int| 0 <= i < proofs.len() ==> (#[trigger] proofs[i])@.len() == values.len()
    &&& forall|i: int| 0 <= i < combs.len() ==> (#[trigger] combs[i])@.len() == values.len()
}

/// The outcome of the pipelined aggregated check: both sides are collapsed
/// by one multi-scalar multiplication each, and the two-pairing product
/// `e(inner_w, beta_h) * e(-inner_c, h) = 1` is tested.
pub open spec fn aggregated_verify_value(
    g: Seq<u8>,
    h: Seq<u8>,
    beta_h: Seq<u8>,
    mcs: Seq<Seq<(nat, Seq<u8>)>>,
    points: Seq<Seq<nat>>,
    values: Seq<nat>,
    proofs: Seq<Seq<Seq<u8>>>,
    combs: Seq<Seq<nat>>,
    randomizers: Seq<nat>,
) -> bool {
    let n = values.len() as int;
    let arity = points.len() as int;
    let rs = rand_seq(randomizers, values.len());
    let inner_w = pairs_msm(w_pairs(proofs, combs, rs, arity, n));
    let neg_se = ((fr_modulus() - combined_eval(values, rs, n)) as nat) % fr_modulus();
    let cp = merged_pairs(mcs, rs, n) + c_pairs(points, proofs, combs, rs, arity, n) + seq![
        (neg_se, g),
    ];
    pairing_product_is_one(seq![inner_w, g1_neg_of(pairs_msm(cp))], seq![beta_h, h])
}

/// The number of zero coefficient values before the first nonzero one.
pub open spec fn leading_zeros(c: Seq<nat>) -> nat
    decreases c.len(),
{
    if c.len() == 0 || c[0] != 0 {
        0
    } else {
        (leading_zeros(c.subrange(1, c.len() as int)) + 1) as nat
    }
}

/// The prefix of zeros before a nonzero value (or the end) determines
/// `leading_zeros`.
proof fn lemma_leading_zeros_is(c: Seq<nat>, k: int)
    requires
        0 <= k <= c.len(),
        forall|j: int| 0 <= j < k ==> c[j] == 0,
        k == c.len() || c[k] != 0,
    ensures
        leading_zeros(c) == k,
    decreases c.len(),
{
    if c.len() == 0 {
    } else if c[0] != 0 {
        assert(k == 0);
    } else {
        let t = c.subrange(1, c.len() as int);
        assert(k >= 1);
        assert(forall|j: int| 0 <= j < k - 1 ==> t[j] == 0);
        lemma_leading_zeros_is(t, k - 1);
    }
}

/// The value of a commitment to coefficient values `coeffs` under the power
/// sequence `powers`: the multi-scalar multiplication of the coefficients
/// after the leading zeros against the correspondingly offset powers.
pub open spec fn commit_value(powers: Seq<Seq<u8>>, coeffs: Seq<nat>) -> Seq<u8> {
    let k = leading_zeros(coeffs) as int;
    g1_msm_of(coeffs.subrange(k, coeffs.len() as int), powers.subrange(k, coeffs.len() as int))
}

/// The outcome of the single-statement pairing check
/// `e(v*g - z*W - C, h) * e(W, beta_h) = 1`.
pub open spec fn verify_value(
    g: Seq<u8>,
    h: Seq<u8>,
    beta_h: Seq<u8>,
    c: Seq<u8>,
    z: nat,
    v: nat,
    w: Seq<u8>,
) -> bool {
    pairing_product_is_one(
        seq![
            g1_add_of(g1_add_of(g1_mul_of(v, g), g1_neg_of(g1_mul_of(z, w))), g1_neg_of(c)),
            w,
        ],
        seq![h, beta_h],
    )
}

/// The index of the first nonzero coefficient, or the length if all are
/// zero.
fn skip_leading_zeros(coeffs: &Vec<Scalar>) -> (k: usize)
    requires
        scalars_wf(coeffs@),
    ensures
        k == leading_zeros(scalar_values(coeffs@)),
        k <= coeffs@.len(),
{
    let mut i: usize = 0;
    while i < coeffs.len()
        invariant_except_break
            i <= coeffs@.len(),
            scalars_wf(coeffs@),
            forall|j: int| 0 <= j < i ==> scalar_values(coeffs@)[j] == 0,
        ensures
            i <= coeffs@.len(),
            forall|j: int| 0 <= j < i ==> scalar_values(coeffs@)[j] == 0,
            i == coeffs@.len() || scalar_values(coeffs@)[i as int] != 0,
        decreases coeffs@.len() - i,
    {
        if !coeffs[i].is_zero() {
            break;
        }
        i = i + 1;
    }
    proof {
        lemma_leading_zeros_is(scalar_values(coeffs@), i as int);
    }
    i
}

/// Commit to a coefficient vector: skip the leading zero coefficients and
/// multi-scalar-multiply the rest against the offset powers.
fn commit_coeffs(prover_param: &UnivariateProverParam, coeffs: &Vec<Scalar>) -> (r: Vec<u8>)
    requires
        scalars_wf(coeffs@),
        coeffs@.len() <= prover_param.powers_of_g@.len(),
    ensures
        r@ == commit_value(bytes_seq(prover_param.powers_of_g@), scalar_values(coeffs@)),
        r@.len() == 48,
        g1_valid_of(r@),
{
    let k = skip_leading_zeros(coeffs);
    let n = coeffs.len();
    let mut ss: Vec<Scalar> = Vec::new();
    let mut bs: Vec<Vec<u8>> = Vec::new();
    let mut i: usize = k;
    proof {
        assert(scalar_values(ss@) =~= scalar_values(coeffs@).subrange(k as int, k as int));
        assert(bytes_seq(bs@) =~= bytes_seq(prover_param.powers_of_g@).subrange(
            k as int,
            k as int,
        ));
    }
    while i < n
        invariant
            k <= i <= n,
            n == coeffs@.len(),
            n <= prover_param.powers_of_g@.len(),
            scalars_wf(coeffs@),
            scalars_wf(ss@),
            ss@.len() == i - k,
            bs@.len() == i - k,
            scalar_values(ss@) == scalar_values(coeffs@).subrange(k as int, i as int),
            bytes_seq(bs@) == bytes_seq(prover_param.powers_of_g@).subrange(k as int, i as int),
        decreases n - i,
    {
        ss.push(coeffs[i].duplicate());
        bs.push(copy_bytes(&prover_param.powers_of_g[i]));
        proof {
            assert(scalar_values(ss@) =~= scalar_values(coeffs@).subrange(k as int, i as int + 1));
            assert(bytes_seq(bs@) =~= bytes_seq(prover_param.powers_of_g@).subrange(
                k as int,
                i as int + 1,
            ));
        }
        i = i + 1;
    }
    g1_msm(&ss, &bs)
}

impl UnivariateKzgPCS {
    /// Build an SRS for a given secret; for testing only, since the secret
    /// is supplied by the caller rather than destroyed by a ceremony.
    pub fn gen_srs_for_testing(tau: &Scalar, supported_size: usize) -> (r: Result<
        UnivariateUniversalParams,
        PCSError,
    >)
        requires
            tau.wf(),
            supported_size < usize::MAX,
        ensures
            r is Ok,
            r matches Ok(s) ==> {
                &&& s.powers_of_g@.len() == supported_size + 1
                &&& forall|i: int|
                    1 <= i < s.powers_of_g@.len() ==> #[trigger] s.powers_of_g@[i]@ == g1_mul_of(
                        crate::field::pow_mod(tau.value(), i as nat),
                        s.powers_of_g@[0]@,
                    )
                &&& s.beta_h@ == crate::group::g2_mul_of(tau.value(), s.h@)
            },
    {
        Ok(UnivariateUniversalParams::gen_srs_for_testing(tau, supported_size))
    }

    /// Trim the universal parameters to a degree ceiling. The univariate
    /// scheme takes no variable count: supplying one is rejected.
    pub fn trim(
        srs: &UnivariateUniversalParams,
        supported_degree: usize,
        supported_num_vars: Option<usize>,
    ) -> (r: Result<(UnivariateProverParam, UnivariateVerifierParam), PCSError>)
        ensures
            r is Ok <==> (supported_num_vars is None && supported_degree + 1
                <= srs.powers_of_g@.len()),
            r matches Ok(kv) ==> {
                &&& bytes_seq(kv.0.powers_of_g@) == bytes_seq(srs.powers_of_g@).subrange(
                    0,
                    supported_degree + 1,
                )
                &&& kv.1.g@ == srs.powers_of_g@[0]@
                &&& kv.1.h@ == srs.h@
                &&& kv.1.beta_h@ == srs.beta_h@
            },
    {
        match supported_num_vars {
            Some(_) => Err(
                PCSError::InvalidParameters(
                    "the univariate scheme takes no variable count".to_owned(),
                ),
            ),
            None => srs.trim(supported_degree),
        }
    }

    /// Commit to a polynomial. Fails exactly when the polynomial's
    /// coefficient count exceeds the prover key's power count, that is when
    /// its degree exceeds the key's supported degree.
    pub fn commit(prover_param: &UnivariateProverParam, poly: &DensePolynomial) -> (r: Result<
        Commitment,
        PCSError,
    >)
        requires
            poly.wf(),
        ensures
            r is Ok <==> poly.coeffs@.len() <= prover_param.powers_of_g@.len(),
            r matches Ok(c) ==> c@ == commit_value(
                bytes_seq(prover_param.powers_of_g@),
                poly.values(),
            ),
    {
        if poly.coeffs.len() > prover_param.powers_of_g.len() {
            return Err(
                PCSError::InvalidParameters(
                    "the polynomial's degree exceeds the supported degree of the prover key".to_owned(),
                ),
            );
        }
        Ok(Commitment(commit_coeffs(prover_param, &poly.coeffs)))
    }

    /// Open a polynomial at a point: commit to the witness polynomial
    /// `(p(X) - p(z)) / (X - z)` and evaluate `p(z)` directly.
    pub fn open(
        prover_param: &UnivariateProverParam,
        polynomial: &DensePolynomial,
        point: &Scalar,
    ) -> (r: Result<(UnivariateKzgProof, Scalar), PCSError>)
        requires
            polynomial.wf(),
            point.wf(),
        ensures
            r is Ok <==> polynomial.coeffs@.len() <= prover_param.powers_of_g@.len(),
            r matches Ok(pe) ==> {
                &&& pe.0@ == commit_value(
                    bytes_seq(prover_param.powers_of_g@),
                    witness_values(polynomial.values(), point.value()),
                )
                &&& pe.1.wf()
                &&& pe.1.value() == poly_eval(polynomial.values(), point.value())
            },
    {
        if polynomial.coeffs.len() > prover_param.powers_of_g.len() {
            return Err(
                PCSError::InvalidParameters(
                    "the polynomial's degree exceeds the supported degree of the prover key".to_owned(),
                ),
            );
        }
        let witness_poly = polynomial.divide_by_linear(point);
        proof {
            assert(witness_poly@.len() == scalar_values(witness_poly@).len());
            assert(scalar_values(witness_poly@).len() == witness_values(
                polynomial.values(),
                point.value(),
            ).len());
            assert(polynomial.values().len() == polynomial.coeffs@.len());
        }
        let w = commit_coeffs(prover_param, &witness_poly);
        let eval = polynomial.evaluate(point);
        Ok((UnivariateKzgProof { proof: w }, eval))
    }

    /// Commit to a list of polynomials, preserving input order: the `i`-th
    /// commitment is the commitment of the `i`-th polynomial. Fails exactly
    /// when some polynomial's degree exceeds the key's supported degree.
    pub fn batch_commit(prover_param: &UnivariateProverParam, polys: &Vec<DensePolynomial>) -> (r:
        Result<Vec<Commitment>, PCSError>)
        requires
            polys_wf(polys@),
        ensures
            r is Ok <==> (forall|i: int|
                0 <= i < polys@.len() ==> (#[trigger] polys@[i]).coeffs@.len()
                    <= prover_param.powers_of_g@.len()),
            r matches Ok(cs) ==> {
                &&& cs@.len() == polys@.len()
                &&& forall|i: int|
                    0 <= i < polys@.len() ==> (#[trigger] cs@[i])@ == commit_value(
                        bytes_seq(prover_param.powers_of_g@),
                        polys@[i].values(),
                    )
            },
    {
        let mut out: Vec<Commitment> = Vec::new();
        let mut i: usize = 0;
        while i < polys.len()
            invariant
                i <= polys@.len(),
                polys_wf(polys@),
                out@.len() == i,
                forall|j: int|
                    0 <= j < i ==> (#[trigger] polys@[j]).coeffs@.len()
                        <= prover_param.powers_of_g@.len(),
                forall|j: int|
                    0 <= j < i ==> (#[trigger] out@[j])@ == commit_value(
                        bytes_seq(prover_param.powers_of_g@),
                        polys@[j].values(),
                    ),
            decreases polys@.len() - i,
        {
            match Self::commit(prover_param, &polys[i]) {
                Ok(c) => {
                    out.push(c);
                },
                Err(e) => {
                    return Err(e);
                },
            }
            i = i + 1;
        }
        Ok(out)
    }

    /// Open a list of polynomials at a same-length list of points,
    /// independently and in input order; the batch commitment input is not
    /// consulted, since no precomputation is shared between items. Fails
    /// exactly when the two lists differ in length or some polynomial's
    /// degree exceeds the key's supported degree.
    pub fn batch_open(
        prover_param: &UnivariateProverParam,
        _multi_commitment: &Vec<Commitment>,
        polynomials: &Vec<DensePolynomial>,
        points: &Vec<Scalar>,
    ) -> (r: Result<(UnivariateKzgBatchProof, Vec<Scalar>), PCSError>)
        requires
            polys_wf(polynomials@),
            scalars_wf(points@),
        ensures
            r is Ok <==> (polynomials@.len() == points@.len() && forall|i: int|
                0 <= i < polynomials@.len() ==> (#[trigger] polynomials@[i]).coeffs@.len()
                    <= prover_param.powers_of_g@.len()),
            r matches Ok(pe) ==> {
                &&& pe.0@.len() == polynomials@.len()
                &&& pe.1@.len() == polynomials@.len()
                &&& scalars_wf(pe.1@)
                &&& forall|i: int|
                    0 <= i < polynomials@.len() ==> (#[trigger] pe.0@[i])@ == commit_value(
                        bytes_seq(prover_param.powers_of_g@),
                        witness_values(polynomials@[i].values(), points@[i].value()),
                    )
                &&& forall|i: int|
                    0 <= i < polynomials@.len() ==> (#[trigger] pe.1@[i]).value() == poly_eval(
                        polynomials@[i].values(),
                        points@[i].value(),
                    )
            },
    {
        if polynomials.len() != points.len() {
            return Err(
                PCSError::InvalidParameters(
                    "the polynomial and point lists differ in length".to_owned(),
                ),
            );
        }
        let mut batch_proof: Vec<UnivariateKzgProof> = Vec::new();
        let mut evals: Vec<Scalar> = Vec::new();
        let mut i: usize = 0;
        while i < polynomials.len()
            invariant
                i <= polynomials@.len(),
                polynomials@.len() == points@.len(),
                polys_wf(polynomials@),
                scalars_wf(points@),
                batch_proof@.len() == i,
                evals@.len() == i,
                scalars_wf(evals@),
                forall|j: int|
                    0 <= j < i ==> (#[trigger] polynomials@[j]).coeffs@.len()
                        <= prover_param.powers_of_g@.len(),
                forall|j: int|
                    0 <= j < i ==> (#[trigger] batch_proof@[j])@ == commit_value(
                        bytes_seq(prover_param.powers_of_g@),
                        witness_values(polynomials@[j].values(), points@[j].value()),
                    ),
                forall|j: int|
                    0 <= j < i ==> (#[trigger] evals@[j]).value() == poly_eval(
                        polynomials@[j].values(),
                        points@[j].value(),
                    ),
            decreases polynomials@.len() - i,
        {
            match Self::open(prover_param, &polynomials[i], &points[i]) {
                Ok(pe) => {
                    batch_proof.push(pe.0);
                    evals.push(pe.1);
                },
                Err(e) => {
                    return Err(e);
                },
            }
            i = i + 1;
        }
        Ok((batch_proof, evals))
    }

    /// Verify `n` statements sharing one verifier key by a random linear
    /// combination: with randomizers `rs` (the first fixed to one, the rest
    /// from the caller's stream), accumulate
    /// `total_c = sum_i rs[i] * (z_i * W_i + C_i) - (sum_i rs[i] * v_i) * g`
    /// and `total_w = sum_i rs[i] * W_i`, and check the two-pairing product
    /// `e(-total_w, beta_h) * e(total_c, h) = 1`. Fails exactly when the
    /// randomizer stream holds fewer than `n` values.
    pub fn batch_verify(
        verifier_param: &UnivariateVerifierParam,
        multi_commitment: &Vec<Commitment>,
        points: &Vec<Scalar>,
        values: &Vec<Scalar>,
        batch_proof: &Vec<UnivariateKzgProof>,
        randomizers: &Vec<Scalar>,
    ) -> (r: Result<bool, PCSError>)
        requires
            points@.len() == multi_commitment@.len(),
            values@.len() == multi_commitment@.len(),
            batch_proof@.len() == multi_commitment@.len(),
            scalars_wf(points@),
            scalars_wf(values@),
            scalars_wf(randomizers@),
        ensures
            r is Err <==> randomizers@.len() < multi_commitment@.len(),
            r matches Ok(b) ==> b == batch_verify_value(
                verifier_param.g@,
                verifier_param.h@,
                verifier_param.beta_h@,
                comms_view(multi_commitment@),
                scalar_values(points@),
                scalar_values(values@),
                proofs_view(batch_proof@),
                scalar_values(randomizers@),
            ),
    {
        let n = multi_commitment.len();
        if randomizers.len() < n {
            return Err(
                PCSError::InvalidParameters("insufficient randomizers provided".to_owned()),
            );
        }
        let ghost rs = rand_seq(scalar_values(randomizers@), n as nat);
        let mut total_c = g1_zero();
        let mut total_w = g1_zero();
        let mut gm = Scalar::zero();
        let mut r_cur = Scalar::one();
        let mut i: usize = 0;
        while i < n
            invariant
                i <= n,
                n == multi_commitment@.len(),
                points@.len() == n,
                values@.len() == n,
                batch_proof@.len() == n,
                randomizers@.len() >= n,
                scalars_wf(points@),
                scalars_wf(values@),
                scalars_wf(randomizers@),
                rs == rand_seq(scalar_values(randomizers@), n as nat),
                gm.wf(),
                r_cur.wf(),
                i < n ==> r_cur.value() == rs[i as int],
                total_w@ == combined_w(proofs_view(batch_proof@), rs, i as int),
                total_c@ == combined_c(
                    comms_view(multi_commitment@),
                    scalar_values(points@),
                    proofs_view(batch_proof@),
                    rs,
                    i as int,
                ),
                gm.value() == combined_eval(scalar_values(values@), rs, i as int),
            decreases n - i,
        {
            let w = &batch_proof[i].proof;
            let zw = g1_mul(&points[i], w);
            let c_i = g1_add(&zw, &multi_commitment[i].0);
            total_c = g1_add(&total_c, &g1_mul(&r_cur, &c_i));
            total_w = g1_add(&total_w, &g1_mul(&r_cur, w));
            gm = scalar_add(&gm, &scalar_mul(&r_cur, &values[i]));
            proof {
                assert(proofs_view(batch_proof@)[i as int] == batch_proof@[i as int].proof@);
                assert(comms_view(multi_commitment@)[i as int] == multi_commitment@[i as int].0@);
                assert(scalar_values(points@)[i as int] == points@[i as int].value());
                assert(scalar_values(values@)[i as int] == values@[i as int].value());
            }
            r_cur = randomizers[i].duplicate();
            i = i + 1;
        }
        let gmg = g1_mul(&gm, &verifier_param.g);
        total_c = g1_add(&total_c, &g1_neg(&gmg));
        let neg_w = g1_neg(&total_w);
        let mut g1s: Vec<Vec<u8>> = Vec::new();
        g1s.push(neg_w);
        g1s.push(total_c);
        let mut g2s: Vec<Vec<u8>> = Vec::new();
        g2s.push(copy_bytes(&verifier_param.beta_h));
        g2s.push(copy_bytes(&verifier_param.h));
        let b = multi_pairing_is_one(&g1s, &g2s);
        proof {
            assert(bytes_seq(g1s@) =~= seq![
                g1_neg_of(combined_w(proofs_view(batch_proof@), rs, n as int)),
                g1_add_of(
                    combined_c(
                        comms_view(multi_commitment@),
                        scalar_values(points@),
                        proofs_view(batch_proof@),
                        rs,
                        n as int,
                    ),
                    g1_neg_of(
                        g1_mul_of(
                            combined_eval(scalar_values(values@), rs, n as int),
                            verifier_param.g@,
                        ),
                    ),
                ),
            ]);
            assert(bytes_seq(g2s@) =~= seq![verifier_param.beta_h@, verifier_param.h@]);
        }
        Ok(b)
    }

    /// Verify several independently produced batches ("pipelines") with one
    /// amortized pairing check. All pipelines share one materialized
    /// randomizer sequence of the length of the shared value list (its first
    /// entry forced to one); each pipeline carries its own points, proofs
    /// and combiner weights. Each side of the pairing is collapsed by
    /// exactly one multi-scalar multiplication. Fails exactly when the
    /// pipeline-parallel lists disagree in shape or the randomizer stream
    /// cannot supply the required count.
    pub fn batch_verify_aggregated(
        verifier_param: &UnivariateVerifierParam,
        multi_commitment: &Vec<ScalarsAndBases>,
        points: &Vec<Vec<Scalar>>,
        values: &Vec<Scalar>,
        batch_proof: &Vec<UnivariateKzgBatchProof>,
        combiners: &Vec<Vec<Scalar>>,
        randomizers: &Vec<Scalar>,
    ) -> (r: Result<bool, PCSError>)
        requires
            values@.len() >= 1,
            forall|i: int|
                0 <= i < multi_commitment@.len() ==> (#[trigger] multi_commitment@[i]).wf(),
            forall|i: int| 0 <= i < points@.len() ==> scalars_wf((#[trigger] points@[i])@),
            forall|i: int| 0 <= i < combiners@.len() ==> scalars_wf((#[trigger] combiners@[i])@),
            scalars_wf(values@),
            scalars_wf(randomizers@),
        ensures
            r is Err <==> (!aggregated_shape_ok(
                multi_commitment@,
                points@,
                values@,
                batch_proof@,
                combiners@,
            ) || randomizers@.len() < values@.len() - 1),
            r matches Ok(b) ==> b == aggregated_verify_value(
                verifier_param.g@,
                verifier_param.h@,
                verifier_param.beta_h@,
                sb_views(multi_commitment@),
                scalar_mat(points@),
                scalar_values(values@),
                proofs_mat(batch_proof@),
                scalar_mat(combiners@),
                scalar_values(randomizers@),
            ),
    {
        let arity = points.len();
        let seq_len = values.len();
        if arity != batch_proof.len() || arity != combiners.len() || multi_commitment.len()
            != seq_len {
            return Err(
                PCSError::InvalidParameters(
                    "the pipeline-parallel lists differ in shape".to_owned(),
                ),
            );
        }
        let mut p: usize = 0;
        while p < arity
            invariant
                p <= arity,
                arity == points@.len(),
                arity == batch_proof@.len(),
                arity == combiners@.len(),
                seq_len == values@.len(),
                forall|k: int| 0 <= k < p ==> (#[trigger] points@[k])@.len() == seq_len,
                forall|k: int| 0 <= k < p ==> (#[trigger] batch_proof@[k])@.len() == seq_len,
                forall|k: int| 0 <= k < p ==> (#[trigger] combiners@[k])@.len() == seq_len,
            decreases arity - p,
        {
            if points[p].len() != seq_len || batch_proof[p].len() != seq_len || combiners[p].len()
                != seq_len {
                return Err(
                    PCSError::InvalidParameters(
                        "the pipeline-parallel lists differ in shape".to_owned(),
                    ),
                );
            }
            p = p + 1;
        }
        if randomizers.len() < seq_len - 1 {
            return Err(
                PCSError::InvalidParameters("insufficient randomizers provided".to_owned()),
            );
        }
        let ghost rs = rand_seq(scalar_values(randomizers@), seq_len as nat);
        // Materialize the shared randomizer sequence, the first entry one.
        let mut rsv: Vec<Scalar> = Vec::new();
        rsv.push(Scalar::one());
        let mut j: usize = 1;
        while j < seq_len
            invariant
                1 <= j <= seq_len,
                seq_len == values@.len(),
                randomizers@.len() >= seq_len - 1,
                scalars_wf(randomizers@),
                rs == rand_seq(scalar_values(randomizers@), seq_len as nat),
                rsv@.len() == j,
                scalars_wf(rsv@),
                forall|k: int| 0 <= k < j ==> (#[trigger] rsv@[k]).value() == rs[k],
            decreases seq_len - j,
        {
            rsv.push(randomizers[j - 1].duplicate());
            j = j + 1;
        }
        // The pipelined variant of the total_w term.
        let mut inners = ScalarsAndBases::new();
        let mut i: usize = 0;
        proof {
            assert(inners@ =~= w_pairs(
                proofs_mat(batch_proof@),
                scalar_mat(combiners@),
                rs,
                0,
                seq_len as int,
            ));
        }
        while i < arity
            invariant
                i <= arity,
                arity == points@.len(),
                arity == batch_proof@.len(),
                arity == combiners@.len(),
                seq_len == values@.len(),
                forall|k: int|
                    0 <= k < combiners@.len() ==> (#[trigger] combiners@[k])@.len() == seq_len
                        && scalars_wf(combiners@[k]@),
                forall|k: int|
                    0 <= k < batch_proof@.len() ==> (#[trigger] batch_proof@[k])@.len() == seq_len,
                rsv@.len() == seq_len,
                scalars_wf(rsv@),
                forall|k: int| 0 <= k < seq_len ==> (#[trigger] rsv@[k]).value() == rs[k],
                inners.wf(),
                inners@ == w_pairs(
                    proofs_mat(batch_proof@),
                    scalar_mat(combiners@),
                    rs,
                    i as int,
                    seq_len as int,
                ),
            decreases arity - i,
        {
            let mut j: usize = 0;
            while j < seq_len
                invariant
                    j <= seq_len,
                    i < arity,
                    arity == points@.len(),
                    arity == batch_proof@.len(),
                    arity == combiners@.len(),
                    seq_len == values@.len(),
                    forall|k: int|
                        0 <= k < combiners@.len() ==> (#[trigger] combiners@[k])@.len() == seq_len
                            && scalars_wf(combiners@[k]@),
                    forall|k: int|
                        0 <= k < batch_proof@.len() ==> (#[trigger] batch_proof@[k])@.len()
                            == seq_len,
                    rsv@.len() == seq_len,
                    scalars_wf(rsv@),
                    forall|k: int| 0 <= k < seq_len ==> (#[trigger] rsv@[k]).value() == rs[k],
                    inners.wf(),
                    inners@ == w_pairs(
                        proofs_mat(batch_proof@),
                        scalar_mat(combiners@),
                        rs,
                        i as int,
                        seq_len as int,
                    ) + w_pipe_pairs(
                        proofs_mat(batch_proof@)[i as int],
                        scalar_mat(combiners@)[i as int],
                        rs,
                        j as int,
                    ),
                decreases seq_len - j,
            {
                let s = scalar_mul(&rsv[j], &combiners[i][j]);
                let ghost v0 = inners@;
                inners.push(s, copy_bytes(&batch_proof[i][j].proof));
                proof {
                    assert(scalar_mat(combiners@)[i as int][j as int] == combiners@[i as int]@[j as int].value());
                    assert(proofs_mat(batch_proof@)[i as int][j as int] == batch_proof@[i as int]@[j as int].proof@);
                    assert(inners@ =~= w_pairs(
                        proofs_mat(batch_proof@),
                        scalar_mat(combiners@),
                        rs,
                        i as int,
                        seq_len as int,
                    ) + w_pipe_pairs(
                        proofs_mat(batch_proof@)[i as int],
                        scalar_mat(combiners@)[i as int],
                        rs,
                        j as int + 1,
                    ));
                }
                j = j + 1;
            }
            proof {
                assert(inners@ =~= w_pairs(
                    proofs_mat(batch_proof@),
                    scalar_mat(combiners@),
                    rs,
                    i as int + 1,
                    seq_len as int,
                ));
            }
            i = i + 1;
        }
        let inner_w = inners.multi_scalar_mul();
        // The pipelined variant of the total_c term: first the merged
        // per-statement commitment accumulators, scaled by the randomizers.
        let mut inners2 = ScalarsAndBases::new();
        let mut j2: usize = 0;
        proof {
            assert(inners2@ =~= merged_pairs(sb_views(multi_commitment@), rs, 0));
        }
        while j2 < seq_len
            invariant
                j2 <= seq_len,
                seq_len == values@.len(),
                multi_commitment@.len() == seq_len,
                forall|k: int|
                    0 <= k < multi_commitment@.len() ==> (#[trigger] multi_commitment@[k]).wf(),
                rsv@.len() == seq_len,
                scalars_wf(rsv@),
                forall|k: int| 0 <= k < seq_len ==> (#[trigger] rsv@[k]).value() == rs[k],
                inners2.wf(),
                inners2@ == merged_pairs(sb_views(multi_commitment@), rs, j2 as int),
            decreases seq_len - j2,
        {
            inners2.merge(&rsv[j2], &multi_commitment[j2]);
            proof {
                assert(sb_views(multi_commitment@)[j2 as int] == multi_commitment@[j2 as int]@);
                assert(inners2@ =~= merged_pairs(sb_views(multi_commitment@), rs, j2 as int + 1));
            }
            j2 = j2 + 1;
        }
        // Then the per-pipeline point contributions.
        let ghost merged = inners2@;
        let mut i2: usize = 0;
        proof {
            assert(inners2@ =~= merged + c_pairs(
                scalar_mat(points@),
                proofs_mat(batch_proof@),
                scalar_mat(combiners@),
                rs,
                0,
                seq_len as int,
            ));
        }
        while i2 < arity
            invariant
                i2 <= arity,
                arity == points@.len(),
                arity == batch_proof@.len(),
                arity == combiners@.len(),
                seq_len == values@.len(),
                forall|k: int|
                    0 <= k < points@.len() ==> (#[trigger] points@[k])@.len() == seq_len
                        && scalars_wf(points@[k]@),
                forall|k: int|
                    0 <= k < combiners@.len() ==> (#[trigger] combiners@[k])@.len() == seq_len
                        && scalars_wf(combiners@[k]@),
                forall|k: int|
                    0 <= k < batch_proof@.len() ==> (#[trigger] batch_proof@[k])@.len()
                        == seq_len,
                rsv@.len() == seq_len,
                scalars_wf(rsv@),
                forall|k: int| 0 <= k < seq_len ==> (#[trigger] rsv@[k]).value() == rs[k],
                inners2.wf(),
                inners2@ == merged + c_pairs(
                    scalar_mat(points@),
                    proofs_mat(batch_proof@),
                    scalar_mat(combiners@),
                    rs,
                    i2 as int,
                    seq_len as int,
                ),
            decreases arity - i2,
        {
            let mut j3: usize = 0;
            while j3 < seq_len
                invariant
                    j3 <= seq_len,
                    i2 < arity,
                    arity == points@.len(),
                    arity == batch_proof@.len(),
                    arity == combiners@.len(),
                    seq_len == values@.len(),
                    forall|k: int|
                        0 <= k < points@.len() ==> (#[trigger] points@[k])@.len() == seq_len
                            && scalars_wf(points@[k]@),
                    forall|k: int|
                        0 <= k < combiners@.len() ==> (#[trigger] combiners@[k])@.len() == seq_len
                            && scalars_wf(combiners@[k]@),
                    forall|k: int|
                        0 <= k < batch_proof@.len() ==> (#[trigger] batch_proof@[k])@.len()
                            == seq_len,
                    rsv@.len() == seq_len,
                    scalars_wf(rsv@),
                    forall|k: int| 0 <= k < seq_len ==> (#[trigger] rsv@[k]).value() == rs[k],
                    inners2.wf(),
                    inners2@ == merged + c_pairs(
                        scalar_mat(points@),
                        proofs_mat(batch_proof@),
                        scalar_mat(combiners@),
                        rs,
                        i2 as int,
                        seq_len as int,
                    ) + c_pipe_pairs(
                        scalar_mat(points@)[i2 as int],
                        proofs_mat(batch_proof@)[i2 as int],
                        scalar_mat(combiners@)[i2 as int],
                        rs,
                        j3 as int,
                    ),
                decreases seq_len - j3,
            {
                let s = scalar_mul(&scalar_mul(&rsv[j3], &combiners[i2][j3]), &points[i2][j3]);
                inners2.push(s, copy_bytes(&batch_proof[i2][j3].proof));
                proof {
                    assert(scalar_mat(combiners@)[i2 as int][j3 as int] == combiners@[i2 as int]@[j3 as int].value());
                    assert(scalar_mat(points@)[i2 as int][j3 as int] == points@[i2 as int]@[j3 as int].value());
                    assert(proofs_mat(batch_proof@)[i2 as int][j3 as int] == batch_proof@[i2 as int]@[j3 as int].proof@);
                    assert(inners2@ =~= merged + c_pairs(
                        scalar_mat(points@),
                        proofs_mat(batch_proof@),
                        scalar_mat(combiners@),
                        rs,
                        i2 as int,
                        seq_len as int,
                    ) + c_pipe_pairs(
                        scalar_mat(points@)[i2 as int],
                        proofs_mat(batch_proof@)[i2 as int],
                        scalar_mat(combiners@)[i2 as int],
                        rs,
                        j3 as int + 1,
                    ));
                }
                j3 = j3 + 1;
            }
            proof {
                assert(inners2@ =~= merged + c_pairs(
                    scalar_mat(points@),
                    proofs_mat(batch_proof@),
                    scalar_mat(combiners@),
                    rs,
                    i2 as int + 1,
                    seq_len as int,
                ));
            }
            i2 = i2 + 1;
        }
        // Finally the generator, weighted by the negated randomized sum of
        // the claimed evaluations.
        let mut se = Scalar::zero();
        let mut j4: usize = 0;
        while j4 < seq_len
            invariant
                j4 <= seq_len,
                seq_len == values@.len(),
                scalars_wf(values@),
                rsv@.len() == seq_len,
                scalars_wf(rsv@),
                forall|k: int| 0 <= k < seq_len ==> (#[trigger] rsv@[k]).value() == rs[k],
                se.wf(),
                se.value() == combined_eval(scalar_values(values@), rs, j4 as int),
            decreases seq_len - j4,
        {
            se = scalar_add(&se, &scalar_mul(&values[j4], &rsv[j4]));
            proof {
                assert(scalar_values(values@)[j4 as int] == values@[j4 as int].value());
                assert(rsv@[j4 as int].value() == rs[j4 as int]);
                assert(values@[j4 as int].value() * rs[j4 as int] == rs[j4 as int] * values@[
                    j4 as int
                ].value());
            }
            j4 = j4 + 1;
        }
        let ghost before_g = inners2@;
        inners2.push(scalar_neg(&se), copy_bytes(&verifier_param.g));
        let inner_c = inners2.multi_scalar_mul();
        let neg_c = g1_neg(&inner_c);
        let mut g1s: Vec<Vec<u8>> = Vec::new();
        g1s.push(inner_w);
        g1s.push(neg_c);
        let mut g2s: Vec<Vec<u8>> = Vec::new();
        g2s.push(copy_bytes(&verifier_param.beta_h));
        g2s.push(copy_bytes(&verifier_param.h));
        let b = multi_pairing_is_one(&g1s, &g2s);
        proof {
            let n = seq_len as int;
            let neg_se = ((fr_modulus() - combined_eval(scalar_values(values@), rs, n)) as nat)
                % fr_modulus();
            assert(inners2@ =~= merged_pairs(sb_views(multi_commitment@), rs, n) + c_pairs(
                scalar_mat(points@),
                proofs_mat(batch_proof@),
                scalar_mat(combiners@),
                rs,
                arity as int,
                n,
            ) + seq![(neg_se, verifier_param.g@)]);
            assert(bytes_seq(g1s@) =~= seq![inner_w@, g1_neg_of(pairs_msm(inners2@))]);
            assert(bytes_seq(g2s@) =~= seq![verifier_param.beta_h@, verifier_param.h@]);
        }
        Ok(b)
    }

    /// Verify that `value` is the evaluation at `point` of the polynomial
    /// committed inside `commitment`, by the pairing identity
    /// `e(v*g - z*W - C, h) * e(W, beta_h) = 1`. A well-formed but false
    /// statement yields `Ok(false)`, never an error.
    pub fn verify(
        verifier_param: &UnivariateVerifierParam,
        commitment: &Commitment,
        point: &Scalar,
        value: &Scalar,
        opening_proof: &UnivariateKzgProof,
    ) -> (r: Result<bool, PCSError>)
        requires
            point.wf(),
            value.wf(),
        ensures
            r == Ok::<bool, PCSError>(
                verify_value(
                    verifier_param.g@,
                    verifier_param.h@,
                    verifier_param.beta_h@,
                    commitment@,
                    point.value(),
                    value.value(),
                    opening_proof@,
                ),
            ),
    {
        let vg = g1_mul(value, &verifier_param.g);
        let zw = g1_mul(point, &opening_proof.proof);
        let t = g1_add(&vg, &g1_neg(&zw));
        let lhs = g1_add(&t, &g1_neg(&commitment.0));
        let mut g1s: Vec<Vec<u8>> = Vec::new();
        g1s.push(lhs);
        g1s.push(copy_bytes(&opening_proof.proof));
        let mut g2s: Vec<Vec<u8>> = Vec::new();
        g2s.push(copy_bytes(&verifier_param.h));
        g2s.push(copy_bytes(&verifier_param.beta_h));
        let b = multi_pairing_is_one(&g1s, &g2s);
        proof {
            assert(bytes_seq(g1s@) =~= seq![
                g1_add_of(
                    g1_add_of(
                        g1_mul_of(value.value(), verifier_param.g@),
                        g1_neg_of(g1_mul_of(point.value(), opening_proof@)),
                    ),
                    g1_neg_of(commitment@),
                ),
                opening_proof@,
            ]);
            assert(bytes_seq(g2s@) =~= seq![verifier_param.h@, verifier_param.beta_h@]);
        }
        Ok(b)
    }
}

} // verus!
