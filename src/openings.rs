//! Where each commitment is opened, and the opened rows read back from the
//! commitment scheme's answer (per commitment, per matrix, per point).

use crate::field::Ext;
use vstd::prelude::*;

verus! {

/// The rows that go into a proof, as opened at `ζ` and `ζ·g`.
pub struct OpenedRows {
    pub main_local: Vec<Ext>,
    pub main_next: Vec<Ext>,
    pub aux_local: Vec<Ext>,
    pub aux_next: Vec<Ext>,
    pub quotient_chunks: Vec<Vec<Ext>>,
}

/// Position of the quotient commitment among the opened commitments.
pub open spec fn quotient_round(has_aux: bool) -> int {
    if has_aux {
        2
    } else {
        1
    }
}

/// The commitment scheme's answer holds what a proof needs: the main
/// commitment's matrix at two points, the auxiliary one's likewise when
/// present, and each quotient chunk at one point.
pub open spec fn openings_shaped(o: Seq<Vec<Vec<Vec<Ext>>>>, has_aux: bool) -> bool {
    &&& o.len() > quotient_round(has_aux)
    &&& o[0]@.len() >= 1 && o[0]@[0]@.len() >= 2
    &&& has_aux ==> (o[1]@.len() >= 1 && o[1]@[0]@.len() >= 2)
    &&& forall|i: int|
        0 <= i < o[quotient_round(has_aux)]@.len() ==> (#[trigger] o[quotient_round(
            has_aux,
        )]@[i])@.len() >= 1
}

fn copy_row(v: &Vec<Ext>) -> (r: Vec<Ext>)
    ensures
        r@ == v@,
{
    let mut r: Vec<Ext> = Vec::new();
    let mut i: usize = 0;
    while i < v.len()
        invariant
            i <= v@.len(),
            r@ == v@.take(i as int),
        decreases v@.len() - i,
    {
        r.push(v[i]);
        assert(v@.take(i + 1) =~= v@.take(i as int).push(v@[i as int]));
        i = i + 1;
    }
    assert(v@.take(v@.len() as int) =~= v@);
    r
}

/// Reads the opened rows out of the commitment scheme's answer; no result
/// when the answer lacks any of them.
pub fn extract_openings(opened: &Vec<Vec<Vec<Vec<Ext>>>>, has_aux: bool) -> (r: Option<OpenedRows>)
    ensures
        r is Some <==> openings_shaped(opened@, has_aux),
        r matches Some(rows) ==> {
            &&& rows.main_local@ == opened@[0]@[0]@[0]@
            &&& rows.main_next@ == opened@[0]@[0]@[1]@
            &&& has_aux ==> rows.aux_local@ == opened@[1]@[0]@[0]@ && rows.aux_next@
                == opened@[1]@[0]@[1]@
            &&& !has_aux ==> rows.aux_local@.len() == 0 && rows.aux_next@.len() == 0
            &&& rows.quotient_chunks@.len() == opened@[quotient_round(has_aux)]@.len()
            &&& forall|i: int|
                0 <= i < rows.quotient_chunks@.len() ==> (#[trigger] rows.quotient_chunks@[i])@
                    == opened@[quotient_round(has_aux)]@[i]@[0]@
        },
{
    let q: usize = if has_aux {
        2
    } else {
        1
    };
    if opened.len() <= q || opened[0].len() < 1 || opened[0][0].len() < 2 {
        return None;
    }
    if has_aux && (opened[1].len() < 1 || opened[1][0].len() < 2) {
        return None;
    }
    let main_local = copy_row(&opened[0][0][0]);
    let main_next = copy_row(&opened[0][0][1]);
    let (aux_local, aux_next) = if has_aux {
        (copy_row(&opened[1][0][0]), copy_row(&opened[1][0][1]))
    } else {
        (Vec::new(), Vec::new())
    };
    let rounds = &opened[q];
    let mut chunks: Vec<Vec<Ext>> = Vec::new();
    let mut i: usize = 0;
    while i < rounds.len()
        invariant
            i <= rounds@.len(),
            q as int == quotient_round(has_aux),
            rounds == opened@[q as int],
            chunks@.len() == i,
            forall|j: int| 0 <= j < i ==> (#[trigger] rounds@[j])@.len() >= 1,
            forall|j: int| 0 <= j < i ==> (#[trigger] chunks@[j])@ == rounds@[j]@[0]@,
        decreases rounds@.len() - i,
    {
        if rounds[i].len() < 1 {
            return None;
        }
        chunks.push(copy_row(&rounds[i][0]));
        i = i + 1;
    }
    Some(OpenedRows { main_local, main_next, aux_local, aux_next, quotient_chunks: chunks })
}

/// The points to open: the main trace (and the auxiliary trace, when
/// present) at `ζ` and `ζ·g`, every quotient chunk at `ζ` alone.
pub fn opening_points(zeta: Ext, zeta_next: Ext, has_aux: bool, num_chunks: usize) -> (r: Vec<
    Vec<Vec<Ext>>,
>)
    ensures
        r@.len() == quotient_round(has_aux) + 1,
        forall|t: int|
            0 <= t < quotient_round(has_aux) ==> (#[trigger] r@[t])@.len() == 1 && r@[t]@[0]@
                == seq![zeta, zeta_next],
        r@[quotient_round(has_aux)]@.len() == num_chunks,
        forall|i: int|
            0 <= i < num_chunks ==> (#[trigger] r@[quotient_round(has_aux)]@[i])@ == seq![zeta],
{
    let mut rounds: Vec<Vec<Vec<Ext>>> = Vec::new();
    let trace_round = vec![vec![zeta, zeta_next]];
    rounds.push(trace_round);
    if has_aux {
        let aux_round = vec![vec![zeta, zeta_next]];
        rounds.push(aux_round);
    }
    let mut quotient: Vec<Vec<Ext>> = Vec::new();
    let mut i: usize = 0;
    while i < num_chunks
        invariant
            i <= num_chunks,
            quotient@.len() == i,
            forall|j: int| 0 <= j < i ==> (#[trigger] quotient@[j])@ == seq![zeta],
        decreases num_chunks - i,
    {
        let point = vec![zeta];
        quotient.push(point);
        i = i + 1;
    }
    rounds.push(quotient);
    rounds
}

} // verus!
