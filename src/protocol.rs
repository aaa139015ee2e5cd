//! The Fiat-Shamir transcript schedule that the prover and the verifier both
//! follow, and the verifier's check of a proof's shape.

use vstd::prelude::*;

verus! {

/// One step of the transcript, in protocol order.
#[derive(Clone, Copy, Debug, PartialEq, Eq, Structural)]
pub enum TranscriptStep {
    /// Observe the main trace commitment.
    ObserveMainCommit,
    /// Observe every public value.
    ObservePublicValues,
    /// Draw one challenge for the auxiliary trace.
    SampleAuxChallenge,
    /// Observe the auxiliary trace commitment.
    ObserveAuxCommit,
    /// Draw `α`, which combines the constraints.
    SampleAlpha,
    /// Observe the commitment to the quotient chunks.
    ObserveQuotientCommit,
    /// Draw the out-of-domain point `ζ`.
    SampleZeta,
}

/// Why a proof was rejected.
#[derive(Clone, Copy, Debug, PartialEq, Eq)]
pub enum VerificationError {
    /// The commitment scheme rejected the openings.
    PcsVerificationFailed,
    /// The constraints at `ζ` do not match the recomposed quotient.
    ConstraintVerificationFailed,
    /// The proof's shape does not fit the computation.
    InvalidProof(&'static str),
}

/// The auxiliary phase: one draw per challenge, then the commitment.
pub open spec fn aux_phase(num_challenges: nat) -> Seq<TranscriptStep> {
    Seq::new(num_challenges, |_i: int| TranscriptStep::SampleAuxChallenge).push(
        TranscriptStep::ObserveAuxCommit,
    )
}

/// The whole transcript: main commitment and public values; the auxiliary
/// phase when there is one; `α`; the quotient commitment; `ζ`.
pub open spec fn transcript_schedule(has_aux: bool, num_challenges: nat) -> Seq<TranscriptStep> {
    seq![TranscriptStep::ObserveMainCommit, TranscriptStep::ObservePublicValues] + (if has_aux {
        aux_phase(num_challenges)
    } else {
        Seq::empty()
    }) + seq![
        TranscriptStep::SampleAlpha,
        TranscriptStep::ObserveQuotientCommit,
        TranscriptStep::SampleZeta,
    ]
}

/// Whether a proof's auxiliary commitment agrees with the declared width.
pub open spec fn shape_fits(aux_width: nat, has_aux_commit: bool) -> bool {
    (aux_width > 0) == has_aux_commit
}

/// What the verifier replays: the schedule of the proof's own shape, or the
/// shape error.
pub open spec fn verifier_schedule(aux_width: nat, num_challenges: nat, has_aux_commit: bool) -> Result<
    Seq<TranscriptStep>,
    VerificationError,
> {
    if aux_width > 0 && !has_aux_commit {
        Err(VerificationError::InvalidProof("AIR requires auxiliary trace but proof has none"))
    } else if aux_width == 0 && has_aux_commit {
        Err(VerificationError::InvalidProof("AIR has no auxiliary trace but proof includes one"))
    } else {
        Ok(transcript_schedule(has_aux_commit, num_challenges))
    }
}

fn push_fixed(steps: &mut Vec<TranscriptStep>, s: TranscriptStep)
    ensures
        final(steps)@ == old(steps)@.push(s),
{
    steps.push(s);
}

/// Builds the schedule for a proof with or without an auxiliary phase.
fn build_schedule(has_aux: bool, num_challenges: usize) -> (r: Vec<TranscriptStep>)
    ensures
        r@ == transcript_schedule(has_aux, num_challenges as nat),
{
    let mut steps: Vec<TranscriptStep> = Vec::new();
    push_fixed(&mut steps, TranscriptStep::ObserveMainCommit);
    push_fixed(&mut steps, TranscriptStep::ObservePublicValues);
    let ghost head = steps@;
    if has_aux {
        let mut i: usize = 0;
        while i < num_challenges
            invariant
                i <= num_challenges,
                steps@ == head + Seq::new(i as nat, |_j: int| TranscriptStep::SampleAuxChallenge),
            decreases num_challenges - i,
        {
            push_fixed(&mut steps, TranscriptStep::SampleAuxChallenge);
            proof {
                assert(Seq::new((i + 1) as nat, |_j: int| TranscriptStep::SampleAuxChallenge)
                    =~= Seq::new(i as nat, |_j: int| TranscriptStep::SampleAuxChallenge).push(
                    TranscriptStep::SampleAuxChallenge,
                ));
            }
            i = i + 1;
        }
        push_fixed(&mut steps, TranscriptStep::ObserveAuxCommit);
        assert(steps@ =~= head + aux_phase(num_challenges as nat));
    } else {
        assert(steps@ =~= head + Seq::empty());
    }
    let ghost mid = steps@;
    push_fixed(&mut steps, TranscriptStep::SampleAlpha);
    push_fixed(&mut steps, TranscriptStep::ObserveQuotientCommit);
    push_fixed(&mut steps, TranscriptStep::SampleZeta);
    assert(steps@ =~= transcript_schedule(has_aux, num_challenges as nat));
    steps
}

/// The prover's transcript: the auxiliary phase runs exactly when the
/// computation declares auxiliary columns.
pub fn prover_transcript(aux_width: usize, num_challenges: usize) -> (r: Vec<TranscriptStep>)
    ensures
        r@ == transcript_schedule(aux_width > 0, num_challenges as nat),
{
    build_schedule(aux_width > 0, num_challenges)
}

/// Checks that a proof carries an auxiliary commitment exactly when the
/// computation declares auxiliary columns.
pub fn check_proof_shape(aux_width: usize, has_aux_commit: bool) -> (r: Result<(), VerificationError>)
    ensures
        r is Ok <==> shape_fits(aux_width as nat, has_aux_commit),
        r matches Err(e) ==> e == if aux_width > 0 {
            VerificationError::InvalidProof("AIR requires auxiliary trace but proof has none")
        } else {
            VerificationError::InvalidProof("AIR has no auxiliary trace but proof includes one")
        },
{
    if aux_width > 0 && !has_aux_commit {
        Err(VerificationError::InvalidProof("AIR requires auxiliary trace but proof has none"))
    } else if aux_width == 0 && has_aux_commit {
        Err(VerificationError::InvalidProof("AIR has no auxiliary trace but proof includes one"))
    } else {
        Ok(())
    }
}

/// The verifier's transcript for a proof, after its shape is checked.
pub fn verifier_transcript(aux_width: usize, num_challenges: usize, has_aux_commit: bool) -> (r:
    Result<Vec<TranscriptStep>, VerificationError>)
    ensures
        match r {
            Ok(s) => verifier_schedule(aux_width as nat, num_challenges as nat, has_aux_commit)
                == Ok::<Seq<TranscriptStep>, VerificationError>(s@),
            Err(e) => verifier_schedule(aux_width as nat, num_challenges as nat, has_aux_commit)
                == Err::<Seq<TranscriptStep>, VerificationError>(e),
        },
{
    match check_proof_shape(aux_width, has_aux_commit) {
        Err(e) => Err(e),
        Ok(()) => Ok(build_schedule(has_aux_commit, num_challenges)),
    }
}

/// Transcript agreement: on a proof of the shape that the prover produces,
/// the verifier accepts the shape and replays exactly the prover's sequence of
/// observations and draws.
pub proof fn lemma_transcripts_agree(aux_width: nat, num_challenges: nat)
    ensures
        verifier_schedule(aux_width, num_challenges, aux_width > 0) == Ok::<
            Seq<TranscriptStep>,
            VerificationError,
        >(transcript_schedule(aux_width > 0, num_challenges)),
{
}

/// Shape consistency: the prover observes an auxiliary commitment exactly
/// when the computation declares auxiliary columns, and the verifier rejects
/// with a structural error exactly the proofs whose auxiliary commitment
/// disagrees with the declaration.
pub proof fn lemma_shape_consistency(aux_width: nat, num_challenges: nat, has_aux_commit: bool)
    ensures
        transcript_schedule(aux_width > 0, num_challenges).contains(TranscriptStep::ObserveAuxCommit)
            <==> aux_width > 0,
        verifier_schedule(aux_width, num_challenges, has_aux_commit) is Err <==> !shape_fits(
            aux_width,
            has_aux_commit,
        ),
        verifier_schedule(aux_width, num_challenges, has_aux_commit) matches Err(e) ==> e
            is InvalidProof,
{
    let s = transcript_schedule(aux_width > 0, num_challenges);
    let head = seq![TranscriptStep::ObserveMainCommit, TranscriptStep::ObservePublicValues];
    let tail = seq![
        TranscriptStep::SampleAlpha,
        TranscriptStep::ObserveQuotientCommit,
        TranscriptStep::SampleZeta,
    ];
    if aux_width > 0 {
        let k = (head.len() + num_challenges) as int;
        assert(s[k] == TranscriptStep::ObserveAuxCommit);
    } else {
        assert(s =~= head + tail);
        assert forall|i: int| 0 <= i < s.len() implies s[i] != TranscriptStep::ObserveAuxCommit by {
            if i < 2 {
                assert(s[i] == head[i]);
            } else {
                assert(s[i] == tail[i - 2]);
            }
        }
    }
}

} // verus!
