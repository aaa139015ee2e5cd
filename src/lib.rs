//! Two-phase, multi-trace STARK proving: the protocol schedule, the constraint
//! folders, the quotient engine and the verifier's checks. Traces live in the
//! BabyBear prime field; challenges, opened values and the quotient live in
//! its degree-four extension.

pub mod air;
pub mod domain;
pub mod field;
pub mod folder;
pub mod openings;
pub mod proof_record;
pub mod protocol;
pub mod quotient;
pub mod ring;
pub mod verify_checks;

pub use air::{AuxTraceBuilder, MultiTraceAir, RowSelectors};
pub use field::{basis_element, embed_base, fred, Ext, EXTENSION_DEGREE, P, W};
pub use folder::{AuxBuilder, ProverFolder, VerifierFolder, VerifierView};
pub use quotient::{
    alpha_power_table, compute_quotient_values, next_row_index, quotient_values_from_constraints,
    CONSTRAINT_DEGREE, QUOTIENT_DEGREE,
};
pub use protocol::{
    check_proof_shape, prover_transcript, verifier_transcript, TranscriptStep, VerificationError,
};
pub use proof_record::Proof;
pub use verify_checks::{
    check_constraint_identity, check_constraints_at_zeta, check_quotient_shape, fold_at_zeta,
    recombine, recombine_row, recompose_quotient_from_chunks, verify_opened,
};
pub use domain::{
    aux_trace_fits, height_is_power_of_two, quotient_domain_size, trace_has_width,
    trace_log_degree, verifier_domain_sizes,
};
pub use openings::{extract_openings, opening_points, OpenedRows};
