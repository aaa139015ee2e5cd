//! What a computation provides to be proved in two phases.

use crate::field::Ext;
use crate::folder::VerifierView;
use vstd::prelude::*;

verus! {

/// Selector values at one evaluation point.
#[derive(Clone, Copy)]
pub struct RowSelectors {
    /// One on the first row, zero elsewhere.
    pub is_first_row: Ext,
    /// One on the last row, zero elsewhere.
    pub is_last_row: Ext,
    /// One on every row but the last.
    pub is_transition: Ext,
    /// Inverse of the trace domain's vanishing polynomial at the point.
    pub inv_vanishing: Ext,
}

/// A computation that can build auxiliary trace columns once the main trace
/// is committed and challenges have been drawn.
pub trait AuxTraceBuilder {
    /// Number of auxiliary columns; zero for single-phase proving.
    fn aux_width(&self) -> usize {
        0
    }

    /// Number of challenges needed to build the auxiliary trace.
    fn num_challenges(&self) -> usize {
        0
    }

    /// Builds the auxiliary trace, one row per main row, `aux_width()` wide.
    /// Called only when `aux_width()` is positive, with `num_challenges()`
    /// challenges.
    fn build_aux_trace(&self, main_trace: &Vec<Vec<u32>>, challenges: &Vec<Ext>) -> Vec<Vec<Ext>>;
}

/// A computation that the prover and the verifier both accept: its main
/// width, its auxiliary trace, and its constraints.
pub trait MultiTraceAir: AuxTraceBuilder {
    /// Number of main trace columns.
    fn width(&self) -> usize;

    /// The values of all constraints at one point, in the order in which they
    /// are asserted; each is already multiplied by the selectors it uses.
    /// The prover and the verifier fold this sequence identically.
    fn eval(
        &self,
        main: &VerifierView<Ext>,
        aux: &VerifierView<Ext>,
        selectors: &RowSelectors,
    ) -> Vec<Ext>;
}

} // verus!
