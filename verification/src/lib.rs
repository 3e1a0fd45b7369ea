//! A pairing-based univariate polynomial commitment engine.
//!
//! A prover commits to a dense univariate polynomial with a single group
//! element, later opens the polynomial at a point, and a verifier checks one
//! statement, a randomized batch of statements, or several independently
//! produced batches merged into a single pairing check.
//!
//! Field and curve arithmetic is supplied by the arkworks libraries for the
//! BLS12-381 pairing group; every element is carried through this crate as its
//! canonical fixed-width byte encoding, and the engine's own logic — degree
//! checks, leading-zero skipping, witness-polynomial division, evaluation,
//! linear-combination batching and aggregation — is verified against exact
//! contracts over those encodings.

use vstd::prelude::*;

pub mod errors;
pub mod field;
pub mod group;
pub mod poly;
pub mod scalars_n_bases;
pub mod serialize;
pub mod srs;
pub mod structs;
pub mod univariate_kzg;

use crate::errors::SangriaError;
use crate::structs::Commitment;
use crate::univariate_kzg::UnivariateKzgProof;

verus! {

/// The maximum degree supported by a structured reference string.
pub trait WithMaxDegree {
    /// The supported maximum degree, as a specification value.
    spec fn spec_max_degree(&self) -> nat;

    /// The largest polynomial degree the reference string can serve.
    fn max_degree(&self) -> (r: usize)
        ensures
            r == self.spec_max_degree(),
    ;
}

/// The restricted univariate face of the commitment scheme: its proofs
/// carry the same kind of group element as its commitments.
pub trait UVPCS {
    /// Convert a commitment into an opening proof holding the same element.
    fn from_comm(c: Commitment) -> (r: UnivariateKzgProof)
        ensures
            r@ == c@,
    ;
}

/// Interface for a single step of an incremental computation over a scalar
/// field `F`.
pub trait StepCircuit<F> {
    /// The output of a single step.
    type State;

    /// The non-deterministic input for a step of the computation.
    type Witness;
}

/// Interface for an incrementally verifiable computation scheme.
pub trait IVC<F, SC: StepCircuit<F>> {
    /// Public parameters for the scheme.
    type PublicParameters;

    /// A collection of data needed for proving.
    type ProverKey;

    /// A collection of data needed for verifying.
    type VerifierKey;

    /// A proof of the computation so far.
    type Proof;

    /// Run the randomised setup to produce public parameters.
    fn setup() -> Self::PublicParameters;

    /// Produce a proving key and a verifying key.
    fn encode(public_parameters: &Self::PublicParameters, step_circuit: &SC) -> Result<
        (Self::ProverKey, Self::VerifierKey),
        SangriaError,
    >;

    /// Prove a step of the computation: consume the current state and proof
    /// and produce the next state and proof.
    fn prove_step(
        prover_key: &Self::ProverKey,
        origin_state: &SC::State,
        current_state: SC::State,
        current_proof: Option<Self::Proof>,
        current_witness: &SC::Witness,
    ) -> Result<(SC::State, Self::Proof), SangriaError>;

    /// Verify a step of the computation.
    fn verify(
        verifier_key: &Self::VerifierKey,
        origin_state: &SC::State,
        current_state: SC::State,
        current_proof: Option<Self::Proof>,
    ) -> Result<(), SangriaError>;
}

/// A marker for an incrementally-verifiable-computation scheme that also
/// compresses its proofs.
pub trait IVCWithProofCompression<F, SC: StepCircuit<F>>: IVC<F, SC> {

}

/// Interface for a non-interactive folding scheme.
pub trait NonInteractiveFoldingScheme {
    /// The arguments necessary to run the setup.
    type SetupInfo;

    /// Public parameters for the scheme.
    type PublicParameters;

    /// The structure of the underlying NP problem.
    type Structure;

    /// A collection of data needed for proving.
    type ProverKey;

    /// A collection of data needed for verifying.
    type VerifierKey;

    /// An instance of the relation that will be folded.
    type Instance;

    /// A witness for the relation to be folded.
    type Witness;

    /// The prover's message.
    type ProverMessage;

    /// Run the randomised setup for the scheme to produce public parameters.
    fn setup(info: &Self::SetupInfo) -> Self::PublicParameters;

    /// Produce a prover key and verifier key from the public parameters.
    fn encode(pp: &Self::PublicParameters, circuit: &Self::Structure) -> Result<
        (Self::ProverKey, Self::VerifierKey),
        SangriaError,
    >;

    /// The folding prover: outputs a folded instance-witness pair and the
    /// prover's message.
    fn prover(
        public_parameters: &Self::PublicParameters,
        prover_key: &Self::ProverKey,
        left_instance: &Self::Instance,
        left_witness: &Self::Witness,
        right_instance: &Self::Instance,
        right_witness: &Self::Witness,
    ) -> Result<(Self::Instance, Self::Witness, Self::ProverMessage), SangriaError>;

    /// The folding verifier: outputs a folded instance.
    fn fold_verifier(
        public_parameters: &Self::PublicParameters,
        verifier_key: &Self::VerifierKey,
        left_instance: &Self::Instance,
        right_instance: &Self::Instance,
        prover_message: &Self::ProverMessage,
    ) -> Result<Self::Instance, SangriaError>;
}

} // verus!
