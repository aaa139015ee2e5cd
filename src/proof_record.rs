//! The proof record that the prover hands to the verifier.

use crate::field::Ext;
use vstd::prelude::*;

verus! {

/// A multi-trace STARK proof: commitments, opened values and the opening
/// proof, generic over the commitment scheme's commitment and proof types.
pub struct Proof<Com, OpeningProof> {
    /// Commitment to the main trace.
    pub main_commit: Com,
    /// Commitment to the auxiliary trace, when there is one.
    pub aux_commit: Option<Com>,
    /// One commitment to all quotient chunks.
    pub quotient_commit: Com,
    /// Main trace values at `ζ`.
    pub main_local: Vec<Ext>,
    /// Main trace values at `ζ·g`.
    pub main_next: Vec<Ext>,
    /// Auxiliary trace values at `ζ`, empty without an auxiliary trace.
    pub aux_local: Vec<Ext>,
    /// Auxiliary trace values at `ζ·g`, empty without an auxiliary trace.
    pub aux_next: Vec<Ext>,
    /// Each quotient chunk's opened coordinates at `ζ`.
    pub quotient_chunks: Vec<Vec<Ext>>,
    /// The commitment scheme's opening proof.
    pub opening_proof: OpeningProof,
    /// Base-two logarithm of the trace height.
    pub log_degree: u8,
}

impl<Com, OpeningProof> Proof<Com, OpeningProof> {
    /// Whether the proof carries an auxiliary commitment.
    pub fn has_aux_commit(&self) -> (r: bool)
        ensures
            r == self.aux_commit is Some,
    {
        self.aux_commit.is_some()
    }
}

} // verus!
