//! The verifier's decisions once the transcript is replayed: recomposing the
//! quotient from its chunks and checking the constraint identity at `ζ`.

use crate::field::{
    basis, basis_element, eadd, embed, embed_base, emul, ext_add, ext_mul, fe_try_inverse, fred, Ext,
    EXTENSION_DEGREE, P,
};
use crate::folder::{lemma_folder_equivalence, verifier_fold, VerifierFolder};
use crate::quotient::quotient_at;
use crate::proof_record::Proof;
use crate::protocol::{check_proof_shape, shape_fits, VerificationError};
use vstd::arithmetic::div_mod::{lemma_mod_twice, lemma_mul_mod_noop_right};
use vstd::prelude::*;

verus! {

/// The inverse of `a` modulo the field order.
pub open spec fn finv(a: int) -> int {
    choose|r: int| 0 <= r < P && #[trigger] fred(a * r) == 1
}

/// A canonical value whose product with `a` is one is the inverse of `a`.
proof fn lemma_inverse_unique(a: int, v: int)
    requires
        0 <= v < P,
        fred(a * v) == 1,
    ensures
        v == finv(a),
{
    let c = finv(a);
    assert(0 <= c < P && fred(a * c) == 1);
    let p = P as int;
    lemma_mul_mod_noop_right(v, a * c, p);
    lemma_mul_mod_noop_right(c, a * v, p);
    assert(v * (a * c) == c * (a * v)) by (nonlinear_arith);
    assert(v % p == v) by {
        vstd::arithmetic::div_mod::lemma_small_mod(v as nat, p as nat);
    }
    assert(c % p == c) by {
        vstd::arithmetic::div_mod::lemma_small_mod(c as nat, p as nat);
    }
}

/// The Lagrange weight of chunk `i`, over the first `m` domains:
/// `Π_{j<m, j≠i} vz[j] / vf[j][i]` modulo p, where `vz[j]` is domain `j`'s
/// vanishing polynomial at `ζ` and `vf[j][i]` the same polynomial at the first
/// point of domain `i`.
pub open spec fn chunk_weight(vz: Seq<Ext>, vf: Seq<Vec<u32>>, i: int, m: int) -> Ext
    decreases m,
{
    if m <= 0 {
        Ext { c0: 1, c1: 0, c2: 0, c3: 0 }
    } else {
        let j = m - 1;
        let w = chunk_weight(vz, vf, i, j);
        if j == i {
            w
        } else {
            emul(w, emul(vz[j], embed(finv(vf[j]@[i] as int) as u32)))
        }
    }
}

/// A chunk's value at `ζ` from its opened coordinates, recombined with the
/// basis: `Σ_e X^e · coords[e]`, undoing the flattening to base-field
/// columns that preceded the commitment.
pub open spec fn recombined(coords: Seq<Ext>) -> Ext
    decreases coords.len(),
{
    if coords.len() == 0 {
        Ext { c0: 0, c1: 0, c2: 0, c3: 0 }
    } else {
        eadd(recombined(coords.drop_last()), emul(basis(coords.len() - 1), coords.last()))
    }
}

/// `Σ_{i<m} weight_i · chunk_i(ζ)`, the weights taken over all domains.
pub open spec fn recomposed_quotient(
    vz: Seq<Ext>,
    vf: Seq<Vec<u32>>,
    chunks: Seq<Vec<Ext>>,
    m: int,
) -> Ext
    decreases m,
{
    if m <= 0 {
        Ext { c0: 0, c1: 0, c2: 0, c3: 0 }
    } else {
        let i = m - 1;
        eadd(
            recomposed_quotient(vz, vf, chunks, i),
            emul(chunk_weight(vz, vf, i, vz.len() as int), recombined(chunks[i]@)),
        )
    }
}

/// The recomposition's inputs fit together: `k` domains, a `k × k` table of
/// vanishing values at first points, nonzero off the diagonal, at most one
/// chunk per domain, and at most `EXTENSION_DEGREE` coordinates per chunk.
pub open spec fn chunks_well_formed(vz: Seq<Ext>, vf: Seq<Vec<u32>>, chunks: Seq<Vec<Ext>>) -> bool {
    &&& vf.len() == vz.len()
    &&& chunks.len() <= vz.len()
    &&& forall|j: int| 0 <= j < vf.len() ==> (#[trigger] vf[j])@.len() == vz.len()
    &&& forall|i: int| 0 <= i < chunks.len() ==> (#[trigger] chunks[i])@.len() <= EXTENSION_DEGREE
    &&& forall|i: int, j: int|
        0 <= i < vz.len() && 0 <= j < vz.len() && i != j ==> fred(#[trigger] vf[j]@[i] as int) != 0
}

/// Checks the shape of the quotient openings and of the chunk domains'
/// vanishing values before they are recomposed.
pub fn check_quotient_shape(
    vanishing_at_zeta: &Vec<Ext>,
    vanishing_at_firsts: &Vec<Vec<u32>>,
    quotient_chunks: &Vec<Vec<Ext>>,
) -> (r: Result<(), VerificationError>)
    ensures
        r is Ok <==> chunks_well_formed(vanishing_at_zeta@, vanishing_at_firsts@, quotient_chunks@),
        r matches Err(e) ==> e == VerificationError::InvalidProof("quotient chunks have the wrong shape"),
{
    let k = vanishing_at_zeta.len();
    if vanishing_at_firsts.len() != k || quotient_chunks.len() > k {
        return Err(VerificationError::InvalidProof("quotient chunks have the wrong shape"));
    }
    let mut c: usize = 0;
    while c < quotient_chunks.len()
        invariant
            c <= quotient_chunks@.len(),
            forall|i: int| 0 <= i < c ==> (#[trigger] quotient_chunks@[i])@.len() <= EXTENSION_DEGREE,
        decreases quotient_chunks@.len() - c,
    {
        if quotient_chunks[c].len() > EXTENSION_DEGREE {
            return Err(VerificationError::InvalidProof("quotient chunks have the wrong shape"));
        }
        c = c + 1;
    }
    let mut j: usize = 0;
    while j < k
        invariant
            j <= k,
            k == vanishing_at_zeta@.len(),
            vanishing_at_firsts@.len() == k,
            forall|m: int| 0 <= m < j ==> (#[trigger] vanishing_at_firsts@[m])@.len() == k,
            forall|i: int, m: int|
                0 <= i < k && 0 <= m < j && i != m ==> fred(#[trigger] vanishing_at_firsts@[m]@[i] as int) != 0,
        decreases k - j,
    {
        let row = &vanishing_at_firsts[j];
        if row.len() != k {
            return Err(VerificationError::InvalidProof("quotient chunks have the wrong shape"));
        }
        let mut i: usize = 0;
        while i < k
            invariant
                i <= k,
                j < k,
                vanishing_at_firsts@.len() == k,
                row@.len() == k,
                row == vanishing_at_firsts@[j as int],
                forall|t: int| 0 <= t < i && t != j ==> fred(#[trigger] row@[t] as int) != 0,
            decreases k - i,
        {
            if i != j && row[i] % P == 0 {
                return Err(VerificationError::InvalidProof("quotient chunks have the wrong shape"));
            }
            i = i + 1;
        }
        j = j + 1;
    }
    Ok(())
}

/// The weight of chunk `i`.
fn chunk_weight_exec(vanishing_at_zeta: &Vec<Ext>, vanishing_at_firsts: &Vec<Vec<u32>>, i: usize) -> (r: Ext)
    requires
        i < vanishing_at_zeta@.len(),
        vanishing_at_firsts@.len() == vanishing_at_zeta@.len(),
        forall|j: int| 0 <= j < vanishing_at_firsts@.len() ==> (#[trigger] vanishing_at_firsts@[j])@.len() == vanishing_at_zeta@.len(),
        forall|j: int|
            0 <= j < vanishing_at_zeta@.len() && j != i ==> fred(#[trigger] vanishing_at_firsts@[j]@[i as int] as int) != 0,
    ensures
        r == chunk_weight(vanishing_at_zeta@, vanishing_at_firsts@, i as int, vanishing_at_zeta@.len() as int),
{
    let k = vanishing_at_zeta.len();
    let mut w = Ext { c0: 1, c1: 0, c2: 0, c3: 0 };
    let mut j: usize = 0;
    while j < k
        invariant
            j <= k,
            k == vanishing_at_zeta@.len(),
            i < k,
            vanishing_at_firsts@.len() == k,
            forall|m: int| 0 <= m < k ==> (#[trigger] vanishing_at_firsts@[m])@.len() == k,
            forall|m: int| 0 <= m < k && m != i ==> fred(#[trigger] vanishing_at_firsts@[m]@[i as int] as int) != 0,
            w == chunk_weight(vanishing_at_zeta@, vanishing_at_firsts@, i as int, j as int),
        decreases k - j,
    {
        if j != i {
            let inv = fe_try_inverse(vanishing_at_firsts[j][i]);
            match inv {
                Some(v) => {
                    proof {
                        lemma_inverse_unique(vanishing_at_firsts@[j as int]@[i as int] as int, v as int);
                    }
                    let t = ext_mul(vanishing_at_zeta[j], embed_base(v));
                    w = ext_mul(w, t);
                },
                None => {
                    proof {
                        assert(false);
                    }
                },
            }
        }
        j = j + 1;
    }
    w
}

/// Recombines a chunk's opened coordinates with the basis `1, X, X^2, X^3`.
pub fn recombine(coords: &Vec<Ext>) -> (r: Ext)
    requires
        coords@.len() <= EXTENSION_DEGREE,
    ensures
        r == recombined(coords@),
{
    let mut acc = Ext { c0: 0, c1: 0, c2: 0, c3: 0 };
    let mut e: usize = 0;
    while e < coords.len()
        invariant
            e <= coords@.len(),
            coords@.len() <= EXTENSION_DEGREE,
            acc == recombined(coords@.take(e as int)),
        decreases coords@.len() - e,
    {
        let term = ext_mul(basis_element(e), coords[e]);
        acc = ext_add(acc, term);
        proof {
            assert(coords@.take(e + 1).drop_last() == coords@.take(e as int));
        }
        e = e + 1;
    }
    proof {
        assert(coords@.take(coords@.len() as int) == coords@);
    }
    acc
}

/// Recombines a row of a flattened trace, `EXTENSION_DEGREE` coordinates
/// per column, into its challenge-field values; no result when the row is not
/// a whole number of columns.
pub fn recombine_row(flat: &Vec<Ext>) -> (r: Option<Vec<Ext>>)
    ensures
        r is Some <==> flat@.len() % 4 == 0,
        r matches Some(row) ==> row@.len() * 4 == flat@.len() && forall|k: int|
            0 <= k < row@.len() ==> #[trigger] row@[k] == recombined(flat@.subrange(k * 4, k * 4 + 4)),
{
    let len = flat.len();
    if len % 4 != 0 {
        return None;
    }
    let n = len / 4;
    proof {
        vstd::arithmetic::div_mod::lemma_fundamental_div_mod(flat@.len() as int, 4);
    }
    let mut row: Vec<Ext> = Vec::new();
    let mut k: usize = 0;
    while k < n
        invariant
            k <= n,
            len == flat@.len(),
            n * 4 == len,
            row@.len() == k,
            forall|t: int| 0 <= t < k ==> #[trigger] row@[t] == recombined(flat@.subrange(t * 4, t * 4 + 4)),
        decreases n - k,
    {
        assert(k * 4 + 4 <= n * 4) by (nonlinear_arith)
            requires
                k < n,
        ;
        let start: usize = k * 4;
        let mut coords: Vec<Ext> = Vec::new();
        let mut e: usize = 0;
        while e < EXTENSION_DEGREE
            invariant
                e <= 4,
                start == k * 4,
                start + 4 <= flat@.len(),
                coords@ == flat@.subrange(start as int, start + e),
            decreases 4 - e,
        {
            coords.push(flat[start + e]);
            proof {
                assert(flat@.subrange(start as int, start + e + 1) =~= flat@.subrange(
                    start as int,
                    start + e,
                ).push(flat@[start + e]));
            }
            e = e + 1;
        }
        row.push(recombine(&coords));
        k = k + 1;
    }
    Some(row)
}

/// Recomposes `quotient(ζ)` from the opened chunks: each chunk's value at `ζ`
/// times its Lagrange weight, summed.
pub fn recompose_quotient_from_chunks(
    vanishing_at_zeta: &Vec<Ext>,
    vanishing_at_firsts: &Vec<Vec<u32>>,
    quotient_chunks: &Vec<Vec<Ext>>,
) -> (r: Ext)
    requires
        chunks_well_formed(vanishing_at_zeta@, vanishing_at_firsts@, quotient_chunks@),
    ensures
        r == recomposed_quotient(
            vanishing_at_zeta@,
            vanishing_at_firsts@,
            quotient_chunks@,
            quotient_chunks@.len() as int,
        ),
{
    let k = quotient_chunks.len();
    let mut sum = Ext { c0: 0, c1: 0, c2: 0, c3: 0 };
    let mut i: usize = 0;
    while i < k
        invariant
            i <= k,
            k == quotient_chunks@.len(),
            chunks_well_formed(vanishing_at_zeta@, vanishing_at_firsts@, quotient_chunks@),
            sum == recomposed_quotient(
                vanishing_at_zeta@,
                vanishing_at_firsts@,
                quotient_chunks@,
                i as int,
            ),
        decreases k - i,
    {
        let w = chunk_weight_exec(vanishing_at_zeta, vanishing_at_firsts, i);
        let value = recombine(&quotient_chunks[i]);
        let term = ext_mul(w, value);
        sum = ext_add(sum, term);
        i = i + 1;
    }
    sum
}

/// The quotient's value at `ζ` that the opened values claim: the constraints
/// folded by Horner's rule, times the inverse vanishing value.
pub open spec fn claimed_quotient(alpha: Ext, cs: Seq<Ext>, inv_vanishing: Ext) -> Ext {
    emul(verifier_fold(alpha, cs), inv_vanishing)
}

/// Accepts when the folded constraints times the inverse vanishing value
/// equal the recomposed quotient.
pub fn check_constraint_identity(constraints_at_zeta: Ext, inv_vanishing: Ext, quotient_at_zeta: Ext) -> (r:
    Result<(), VerificationError>)
    ensures
        r is Ok <==> emul(constraints_at_zeta, inv_vanishing) == quotient_at_zeta,
        r matches Err(e) ==> e == VerificationError::ConstraintVerificationFailed,
{
    if ext_mul(constraints_at_zeta, inv_vanishing) != quotient_at_zeta {
        Err(VerificationError::ConstraintVerificationFailed)
    } else {
        Ok(())
    }
}

/// Folds constraint values by the verifier's Horner rule.
pub fn fold_at_zeta(constraints: &Vec<Ext>, alpha: Ext) -> (r: Ext)
    ensures
        r == verifier_fold(alpha, constraints@),
{
    let empty: Vec<Ext> = Vec::new();
    let zero = Ext { c0: 0, c1: 0, c2: 0, c3: 0 };
    let mut folder = VerifierFolder {
        main_local: empty.as_slice(),
        main_next: empty.as_slice(),
        aux_local: empty.as_slice(),
        aux_next: empty.as_slice(),
        is_first_row: zero,
        is_last_row: zero,
        is_transition: zero,
        alpha,
        accumulator: zero,
    };
    let mut i: usize = 0;
    while i < constraints.len()
        invariant
            i <= constraints@.len(),
            folder.alpha == alpha,
            folder.accumulator == verifier_fold(alpha, constraints@.take(i as int)),
        decreases constraints@.len() - i,
    {
        folder.assert_zero(constraints[i]);
        proof {
            assert(constraints@.take(i + 1).drop_last() == constraints@.take(i as int));
        }
        i = i + 1;
    }
    proof {
        assert(constraints@.take(constraints@.len() as int) == constraints@);
    }
    folder.accumulator
}

/// The constraint check at `ζ` on given constraint values: accepted exactly
/// when the quotient value that they determine equals the recomposed one.
pub fn check_constraints_at_zeta(
    constraints: &Vec<Ext>,
    alpha: Ext,
    inv_vanishing: Ext,
    vanishing_at_zeta: &Vec<Ext>,
    vanishing_at_firsts: &Vec<Vec<u32>>,
    quotient_chunks: &Vec<Vec<Ext>>,
) -> (r: Result<(), VerificationError>)
    requires
        chunks_well_formed(vanishing_at_zeta@, vanishing_at_firsts@, quotient_chunks@),
    ensures
        r is Ok <==> claimed_quotient(alpha, constraints@, inv_vanishing) == recomposed_quotient(
            vanishing_at_zeta@,
            vanishing_at_firsts@,
            quotient_chunks@,
            quotient_chunks@.len() as int,
        ),
        r matches Err(e) ==> e == VerificationError::ConstraintVerificationFailed,
{
    let folded = fold_at_zeta(constraints, alpha);
    let quotient = recompose_quotient_from_chunks(vanishing_at_zeta, vanishing_at_firsts, quotient_chunks);
    check_constraint_identity(folded, inv_vanishing, quotient)
}

/// The verifier accepts the prover's quotient: when the opened chunks
/// recompose to the value that the prover's power-table folding gives at `ζ`
/// (the folded constraints times the inverse vanishing value), the
/// verifier's Horner folding claims that value too, so the constraint check
/// at `ζ` passes.
pub proof fn lemma_prover_quotient_accepted(
    alpha: Ext,
    constraints: Seq<Ext>,
    inv_vanishing: Ext,
    vanishing_at_zeta: Seq<Ext>,
    vanishing_at_firsts: Seq<Vec<u32>>,
    quotient_chunks: Seq<Vec<Ext>>,
)
    requires
        quotient_at(alpha, constraints, inv_vanishing) == recomposed_quotient(
            vanishing_at_zeta,
            vanishing_at_firsts,
            quotient_chunks,
            quotient_chunks.len() as int,
        ),
    ensures
        claimed_quotient(alpha, constraints, inv_vanishing) == recomposed_quotient(
            vanishing_at_zeta,
            vanishing_at_firsts,
            quotient_chunks,
            quotient_chunks.len() as int,
        ),
{
    lemma_folder_equivalence(alpha, constraints);
}

/// The verifier's decision once the transcript is replayed, the commitment
/// scheme has checked the openings, and the computation has evaluated its
/// constraints on the opened values: the proof's shape first (its auxiliary
/// commitment against the declared width, then its quotient chunks), then the
/// opening check, then the constraint identity at `ζ`.
pub fn verify_opened<Com, OpeningProof, E>(
    proof: &Proof<Com, OpeningProof>,
    aux_width: usize,
    pcs_result: Result<(), E>,
    constraints: &Vec<Ext>,
    alpha: Ext,
    inv_vanishing: Ext,
    vanishing_at_zeta: &Vec<Ext>,
    vanishing_at_firsts: &Vec<Vec<u32>>,
) -> (r: Result<(), VerificationError>)
    ensures
        !shape_fits(aux_width as nat, proof.aux_commit is Some) ==> r == Err::<(), VerificationError>(
            if aux_width > 0 {
                VerificationError::InvalidProof("AIR requires auxiliary trace but proof has none")
            } else {
                VerificationError::InvalidProof("AIR has no auxiliary trace but proof includes one")
            },
        ),
        shape_fits(aux_width as nat, proof.aux_commit is Some) && !chunks_well_formed(
            vanishing_at_zeta@,
            vanishing_at_firsts@,
            proof.quotient_chunks@,
        ) ==> r == Err::<(), VerificationError>(
            VerificationError::InvalidProof("quotient chunks have the wrong shape"),
        ),
        shape_fits(aux_width as nat, proof.aux_commit is Some) && chunks_well_formed(
            vanishing_at_zeta@,
            vanishing_at_firsts@,
            proof.quotient_chunks@,
        ) ==> {
            &&& (r == Err::<(), VerificationError>(VerificationError::PcsVerificationFailed)
                <==> pcs_result is Err)
            &&& pcs_result is Ok ==> (r is Ok <==> claimed_quotient(alpha, constraints@, inv_vanishing)
                == recomposed_quotient(
                vanishing_at_zeta@,
                vanishing_at_firsts@,
                proof.quotient_chunks@,
                proof.quotient_chunks@.len() as int,
            ))
            &&& (pcs_result is Ok && r is Err) ==> r == Err::<(), VerificationError>(
                VerificationError::ConstraintVerificationFailed,
            )
        },
{
    match check_proof_shape(aux_width, proof.has_aux_commit()) {
        Err(e) => {
            return Err(e);
        },
        Ok(()) => {},
    }
    match check_quotient_shape(vanishing_at_zeta, vanishing_at_firsts, &proof.quotient_chunks) {
        Err(e) => {
            return Err(e);
        },
        Ok(()) => {},
    }
    if pcs_result.is_err() {
        return Err(VerificationError::PcsVerificationFailed);
    }
    check_constraints_at_zeta(
        constraints,
        alpha,
        inv_vanishing,
        vanishing_at_zeta,
        vanishing_at_firsts,
        &proof.quotient_chunks,
    )
}

} // verus!
