//! The structured reference string and the keys trimmed from it.
//!
//! The SRS holds G1 encodings of increasing powers of a hidden secret applied
//! to a generator, together with a G2 generator `h` and its secret-scaled
//! counterpart `beta_h`. Trimming slices a prover key of the first
//! `degree + 1` powers and a verifier key of the fixed triple
//! `(g, h, beta_h)`.

use vstd::prelude::*;

use crate::errors::PCSError;
use crate::field::{copy_bytes, pow_mod, scalar_mul, Scalar};
use crate::group::{
    bytes_seq, g1_generator, g1_mul, g1_mul_of, g1_valid_of, g2_generator, g2_mul, g2_mul_of,
    g2_valid_of,
};
use crate::WithMaxDegree;

verus! {

/// The prover key: the prefix of the SRS power sequence sized to the
/// supported degree.
#[derive(Debug, PartialEq, Eq)]
pub struct UnivariateProverParam {
    /// Encodings of the generator times increasing powers of the secret.
    pub powers_of_g: Vec<Vec<u8>>,
}

/// The verifier key: three fixed group elements, independent of the
/// supported degree.
#[derive(Debug, PartialEq, Eq)]
pub struct UnivariateVerifierParam {
    /// The G1 generator of the SRS.
    pub g: Vec<u8>,
    /// The G2 generator of the SRS.
    pub h: Vec<u8>,
    /// `h` multiplied by the setup secret.
    pub beta_h: Vec<u8>,
}

/// The universal parameters: the full power sequence and the G2 pair.
#[derive(Debug, PartialEq, Eq)]
pub struct UnivariateUniversalParams {
    /// Encodings of the generator times increasing powers of the secret;
    /// the entry at index `i` encodes the secret raised to `i`.
    pub powers_of_g: Vec<Vec<u8>>,
    /// The G2 generator.
    pub h: Vec<u8>,
    /// `h` multiplied by the setup secret.
    pub beta_h: Vec<u8>,
}

impl WithMaxDegree for UnivariateUniversalParams {
    /// The power-sequence length minus one; zero for an empty sequence.
    open spec fn spec_max_degree(&self) -> nat {
        if self.powers_of_g@.len() <= 1 {
            0
        } else {
            (self.powers_of_g@.len() - 1) as nat
        }
    }

    fn max_degree(&self) -> (r: usize) {
        if self.powers_of_g.len() == 0 {
            0
        } else {
            self.powers_of_g.len() - 1
        }
    }
}

impl UnivariateUniversalParams {
    /// Build an SRS for a given secret `tau`, supporting degrees up to
    /// `supported_size`: the power at index `i` is the generator multiplied
    /// by `tau` raised to `i`, and `beta_h` is `h` multiplied by `tau`.
    ///
    /// This path exists for testing only: the secret is handed in by the
    /// caller instead of being destroyed by a setup ceremony, so the output
    /// must not be used in production.
    pub fn gen_srs_for_testing(tau: &Scalar, supported_size: usize) -> (r: UnivariateUniversalParams)
        requires
            tau.wf(),
            supported_size < usize::MAX,
        ensures
            r.powers_of_g@.len() == supported_size + 1,
            forall|i: int|
                1 <= i < r.powers_of_g@.len() ==> #[trigger] r.powers_of_g@[i]@ == g1_mul_of(
                    pow_mod(tau.value(), i as nat),
                    r.powers_of_g@[0]@,
                ),
            r.beta_h@ == g2_mul_of(tau.value(), r.h@),
            forall|i: int| 0 <= i < r.powers_of_g@.len() ==> g1_valid_of(#[trigger] r.powers_of_g@[i]@),
            g2_valid_of(r.h@),
            g2_valid_of(r.beta_h@),
    {
        let base = g1_generator();
        let mut powers: Vec<Vec<u8>> = Vec::new();
        powers.push(copy_bytes(&base));
        let mut cur = Scalar::one();
        proof {
            crate::field::lemma_u64_below_modulus(1);
            vstd::arithmetic::div_mod::lemma_small_mod(1nat, crate::field::fr_modulus());
        }
        let mut i: usize = 1;
        while i <= supported_size
            invariant
                1 <= i <= supported_size + 1,
                supported_size < usize::MAX,
                tau.wf(),
                cur.wf(),
                cur.value() == pow_mod(tau.value(), (i - 1) as nat),
                powers@.len() == i,
                powers@[0]@ == base@,
                g1_valid_of(base@),
                forall|k: int|
                    1 <= k < i ==> #[trigger] powers@[k]@ == g1_mul_of(
                        pow_mod(tau.value(), k as nat),
                        powers@[0]@,
                    ),
                forall|k: int| 0 <= k < i ==> g1_valid_of(#[trigger] powers@[k]@),
            decreases supported_size + 1 - i,
        {
            cur = scalar_mul(&cur, tau);
            powers.push(g1_mul(&cur, &base));
            i = i + 1;
        }
        let h = g2_generator();
        let beta_h = g2_mul(tau, &h);
        UnivariateUniversalParams { powers_of_g: powers, h, beta_h }
    }

    /// The prover parameters: the first `supported_size + 1` powers.
    pub fn extract_prover_param(&self, supported_size: usize) -> (r: UnivariateProverParam)
        requires
            supported_size + 1 <= self.powers_of_g@.len(),
        ensures
            bytes_seq(r.powers_of_g@) == bytes_seq(self.powers_of_g@).subrange(
                0,
                supported_size + 1,
            ),
    {
        let n = self.powers_of_g.len();
        let mut powers: Vec<Vec<u8>> = Vec::new();
        let mut i: usize = 0;
        while i <= supported_size
            invariant
                i <= supported_size + 1,
                n == self.powers_of_g@.len(),
                supported_size + 1 <= n,
                powers@.len() == i,
                bytes_seq(powers@) == bytes_seq(self.powers_of_g@).subrange(0, i as int),
            decreases supported_size + 1 - i,
        {
            powers.push(copy_bytes(&self.powers_of_g[i]));
            proof {
                assert(bytes_seq(powers@) =~= bytes_seq(self.powers_of_g@).subrange(
                    0,
                    i as int + 1,
                ));
            }
            i = i + 1;
        }
        UnivariateProverParam { powers_of_g: powers }
    }

    /// The verifier parameters: the fixed triple, independent of the
    /// requested size.
    pub fn extract_verifier_param(&self, _supported_size: usize) -> (r: UnivariateVerifierParam)
        requires
            self.powers_of_g@.len() >= 1,
        ensures
            r.g@ == self.powers_of_g@[0]@,
            r.h@ == self.h@,
            r.beta_h@ == self.beta_h@,
    {
        UnivariateVerifierParam {
            g: copy_bytes(&self.powers_of_g[0]),
            h: copy_bytes(&self.h),
            beta_h: copy_bytes(&self.beta_h),
        }
    }

    /// Trim the universal parameters to a degree ceiling: the prover key is
    /// the first `supported_degree + 1` powers, the verifier key the fixed
    /// triple. Fails when the requested degree exceeds the SRS capacity.
    pub fn trim(&self, supported_degree: usize) -> (r: Result<
        (UnivariateProverParam, UnivariateVerifierParam),
        PCSError,
    >)
        ensures
            r is Ok <==> supported_degree + 1 <= self.powers_of_g@.len(),
            r matches Ok(kv) ==> {
                &&& bytes_seq(kv.0.powers_of_g@) == bytes_seq(self.powers_of_g@).subrange(
                    0,
                    supported_degree + 1,
                )
                &&& kv.1.g@ == self.powers_of_g@[0]@
                &&& kv.1.h@ == self.h@
                &&& kv.1.beta_h@ == self.beta_h@
            },
    {
        if supported_degree >= self.powers_of_g.len() {
            return Err(PCSError::InvalidParameters(
                "the requested degree exceeds the capacity of the reference string".to_owned(),
            ));
        }
        Ok((self.extract_prover_param(supported_degree), self.extract_verifier_param(
            supported_degree,
        )))
    }
}

} // verus!
