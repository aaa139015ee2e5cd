//! The prover's quotient engine: constraints evaluated over the quotient
//! domain, folded with a table of powers of `α`, and divided by the
//! vanishing polynomial.

use crate::air::{MultiTraceAir, RowSelectors};
use crate::field::{emul, ext_mul, Ext};
use crate::folder::{alpha_powers, epow, prover_fold, ProverFolder, VerifierView};
use vstd::prelude::*;

verus! {

/// The constraint degree that the quotient domain is sized for.
pub const CONSTRAINT_DEGREE: usize = 2;

/// How many times larger the quotient domain is than the trace domain,
/// `2^CONSTRAINT_DEGREE`, and how many chunks the quotient is split into.
pub const QUOTIENT_DEGREE: usize = 4;

/// The table of powers of `α`, highest first: built low to high, then
/// reversed, so that its last entry is one.
pub fn alpha_power_table(alpha: Ext, n: usize) -> (t: Vec<Ext>)
    ensures
        t@ == alpha_powers(alpha, n as nat),
{
    let mut ascending: Vec<Ext> = Vec::new();
    let mut power = Ext { c0: 1, c1: 0, c2: 0, c3: 0 };
    let mut i: usize = 0;
    while i < n
        invariant
            i <= n,
            ascending@.len() == i,
            power == epow(alpha, i as nat),
            forall|j: int| 0 <= j < i ==> #[trigger] ascending@[j] == epow(alpha, j as nat),
        decreases n - i,
    {
        ascending.push(power);
        power = ext_mul(power, alpha);
        i = i + 1;
    }
    let mut t: Vec<Ext> = Vec::new();
    let mut k: usize = 0;
    while k < n
        invariant
            k <= n,
            ascending@.len() == n,
            t@.len() == k,
            forall|j: int| 0 <= j < n ==> #[trigger] ascending@[j] == epow(alpha, j as nat),
            forall|j: int| 0 <= j < k ==> #[trigger] t@[j] == epow(alpha, (n - 1 - j) as nat),
        decreases n - k,
    {
        t.push(ascending[n - 1 - k]);
        k = k + 1;
    }
    assert(t@ =~= alpha_powers(alpha, n as nat));
    t
}

/// Folds one point's constraint values with the prover's folder.
fn fold_point(table: &[Ext], cs: &Vec<Ext>) -> (r: Ext)
    requires
        cs@.len() <= table@.len(),
    ensures
        r == prover_fold(table@, cs@),
{
    let empty_main: Vec<u32> = Vec::new();
    let empty_aux: Vec<Ext> = Vec::new();
    let mut folder = ProverFolder {
        main: VerifierView::new(empty_main.as_slice(), empty_main.as_slice()),
        aux: VerifierView::new(empty_aux.as_slice(), empty_aux.as_slice()),
        is_first_row: 0,
        is_last_row: 0,
        is_transition: 0,
        alpha_powers: table,
        accumulator: Ext { c0: 0, c1: 0, c2: 0, c3: 0 },
        constraint_index: 0,
    };
    let mut i: usize = 0;
    while i < cs.len()
        invariant
            i <= cs@.len(),
            cs@.len() <= table@.len(),
            folder.alpha_powers@ == table@,
            folder.constraint_index == i,
            folder.accumulator == prover_fold(table@, cs@.take(i as int)),
        decreases cs@.len() - i,
    {
        folder.assert_zero_ext(cs[i]);
        proof {
            assert(cs@.take(i + 1).drop_last() == cs@.take(i as int));
        }
        i = i + 1;
    }
    proof {
        assert(cs@.take(cs@.len() as int) == cs@);
    }
    folder.accumulator
}

/// The quotient's value at a point: the constraints folded against the
/// powers of `α` (highest first), times the inverse of the vanishing
/// polynomial.
pub open spec fn quotient_at(alpha: Ext, cs: Seq<Ext>, inv_vanishing: Ext) -> Ext {
    emul(prover_fold(alpha_powers(alpha, cs.len()), cs), inv_vanishing)
}

/// Quotient values from the constraint values at every point. The number of
/// constraints is taken from the first point, and every point must assert
/// that many; otherwise there is no result.
pub fn quotient_values_from_constraints(
    constraints: &Vec<Vec<Ext>>,
    inv_vanishing: &Vec<Ext>,
    alpha: Ext,
) -> (r: Option<Vec<Ext>>)
    requires
        constraints@.len() == inv_vanishing@.len(),
    ensures
        r is Some <==> forall|i: int|
            0 <= i < constraints@.len() ==> (#[trigger] constraints@[i])@.len()
                == constraints@[0]@.len(),
        r matches Some(v) ==> v@.len() == constraints@.len() && forall|i: int|
            0 <= i < v@.len() ==> #[trigger] v@[i] == quotient_at(
                alpha,
                constraints@[i]@,
                inv_vanishing@[i],
            ),
{
    let n = constraints.len();
    if n == 0 {
        return Some(Vec::new());
    }
    let count = constraints[0].len();
    let table = alpha_power_table(alpha, count);
    let mut values: Vec<Ext> = Vec::new();
    let mut i: usize = 0;
    while i < n
        invariant
            i <= n,
            n == constraints@.len(),
            n == inv_vanishing@.len(),
            count == constraints@[0]@.len(),
            table@.len() == count,
            table@ == alpha_powers(alpha, count as nat),
            values@.len() == i,
            forall|j: int| 0 <= j < i ==> (#[trigger] constraints@[j])@.len() == count,
            forall|j: int|
                0 <= j < i ==> #[trigger] values@[j] == quotient_at(
                    alpha,
                    constraints@[j]@,
                    inv_vanishing@[j],
                ),
        decreases n - i,
    {
        let cs = &constraints[i];
        if cs.len() != count {
            return None;
        }
        let folded = fold_point(table.as_slice(), cs);
        values.push(ext_mul(folded, inv_vanishing[i]));
        i = i + 1;
    }
    Some(values)
}

/// The quotient-domain point that holds the next trace row after point `i`:
/// the domain interleaves `size / trace_size` points per trace row, so it is
/// that many points ahead, wrapping around.
pub fn next_row_index(i: usize, size: usize, trace_size: usize) -> (r: usize)
    requires
        i < size,
        trace_size > 0,
    ensures
        r as int == (i + size / trace_size) % (size as int),
        r < size,
{
    let step = size / trace_size;
    ((i as u128 + step as u128) % size as u128) as usize
}

/// `cs` is what the computation's `eval` returned at point `i` of the
/// quotient domain: on the main rows at `i` and at the next trace row's point
/// (`next_row_index`), on the auxiliary rows at the same points (empty rows
/// when there is no auxiliary trace), with the selectors of point `i`.
pub open spec fn evaluated_at<'a, A: MultiTraceAir>(
    air: &A,
    trace_size: int,
    main_q: Seq<Vec<Ext>>,
    aux_q: Seq<Vec<Ext>>,
    selectors: Seq<RowSelectors>,
    i: int,
    cs: Seq<Ext>,
) -> bool {
    let j = (i + (main_q.len() as int) / trace_size) % (main_q.len() as int);
    exists|m: VerifierView<'a, Ext>, x: VerifierView<'a, Ext>, r: Vec<Ext>|
        {
            &&& m.local_values() == main_q[i]@
            &&& m.next_values() == main_q[j]@
            &&& x.local_values() == (if aux_q.len() == 0 {
                Seq::empty()
            } else {
                aux_q[i]@
            })
            &&& x.next_values() == (if aux_q.len() == 0 {
                Seq::empty()
            } else {
                aux_q[j]@
            })
            &&& r@ == cs
            &&& #[trigger] A::eval.ensures((air, &m, &x, &selectors[i]), r)
        }
}

/// `r` is the quotient engine's answer when `cs[i]` is what the computation
/// evaluated at point `i`: a result exactly when every point asserts as many
/// constraints as the first, and then each value is the point's constraints
/// folded with powers of `α`, times its inverse vanishing value.
pub open spec fn quotient_values_from_evaluations<A: MultiTraceAir>(
    air: &A,
    trace_size: int,
    main_q: Seq<Vec<Ext>>,
    aux_q: Seq<Vec<Ext>>,
    selectors: Seq<RowSelectors>,
    alpha: Ext,
    cs: Seq<Seq<Ext>>,
    r: Option<Vec<Ext>>,
) -> bool {
    &&& cs.len() == main_q.len()
    &&& forall|i: int|
        0 <= i < cs.len() ==> evaluated_at(air, trace_size, main_q, aux_q, selectors, i, #[trigger] cs[i])
    &&& r is Some <==> forall|i: int| 0 <= i < cs.len() ==> (#[trigger] cs[i]).len() == cs[0].len()
    &&& r matches Some(v) ==> v@.len() == cs.len() && forall|i: int|
        0 <= i < v@.len() ==> #[trigger] v@[i] == quotient_at(
            alpha,
            cs[i],
            selectors[i].inv_vanishing,
        )
}

/// Evaluates the computation's constraints at every point of the quotient
/// domain, pairing each row with the row `next_step` points ahead, and returns
/// the quotient values: each point's constraints folded with powers of `α`
/// and multiplied by the point's inverse vanishing value; no result when
/// points assert different numbers of constraints. Main rows come as
/// challenge-field values (base values embedded), auxiliary rows as they
/// were built.
pub fn compute_quotient_values<A: MultiTraceAir>(
    air: &A,
    trace_size: usize,
    main_on_quotient: &Vec<Vec<Ext>>,
    aux_on_quotient: &Vec<Vec<Ext>>,
    selectors: &Vec<RowSelectors>,
    alpha: Ext,
) -> (r: Option<Vec<Ext>>)
    requires
        trace_size > 0,
        selectors@.len() == main_on_quotient@.len(),
        aux_on_quotient@.len() == 0 || aux_on_quotient@.len() == main_on_quotient@.len(),
    ensures
        exists|cs: Seq<Seq<Ext>>|
            #[trigger] quotient_values_from_evaluations(
                air,
                trace_size as int,
                main_on_quotient@,
                aux_on_quotient@,
                selectors@,
                alpha,
                cs,
                r,
            ),
{
    let size = main_on_quotient.len();
    let empty: Vec<Ext> = Vec::new();
    let mut constraints: Vec<Vec<Ext>> = Vec::new();
    let mut inv_vanishing: Vec<Ext> = Vec::new();
    let mut i: usize = 0;
    while i < size
        invariant
            i <= size,
            trace_size > 0,
            size == main_on_quotient@.len(),
            size == selectors@.len(),
            empty@ == Seq::<Ext>::empty(),
            aux_on_quotient@.len() == 0 || aux_on_quotient@.len() == size,
            constraints@.len() == i,
            inv_vanishing@.len() == i,
            forall|k: int|
                0 <= k < i ==> evaluated_at(
                    air,
                    trace_size as int,
                    main_on_quotient@,
                    aux_on_quotient@,
                    selectors@,
                    k,
                    (#[trigger] constraints@[k])@,
                ),
            forall|k: int| 0 <= k < i ==> #[trigger] inv_vanishing@[k] == selectors@[k].inv_vanishing,
        decreases size - i,
    {
        let j = next_row_index(i, size, trace_size);
        let main = VerifierView::new(main_on_quotient[i].as_slice(), main_on_quotient[j].as_slice());
        let aux = if aux_on_quotient.len() == 0 {
            VerifierView::new(empty.as_slice(), empty.as_slice())
        } else {
            VerifierView::new(aux_on_quotient[i].as_slice(), aux_on_quotient[j].as_slice())
        };
        let sel = &selectors[i];
        let cs = air.eval(&main, &aux, sel);
        proof {
            assert(evaluated_at(
                air,
                trace_size as int,
                main_on_quotient@,
                aux_on_quotient@,
                selectors@,
                i as int,
                cs@,
            ));
        }
        constraints.push(cs);
        inv_vanishing.push(sel.inv_vanishing);
        i = i + 1;
    }
    let r = quotient_values_from_constraints(&constraints, &inv_vanishing, alpha);
    let ghost cs = Seq::new(size as nat, |k: int| constraints@[k]@);
    proof {
        assert forall|k: int| 0 <= k < cs.len() implies evaluated_at(
            air,
            trace_size as int,
            main_on_quotient@,
            aux_on_quotient@,
            selectors@,
            k,
            #[trigger] cs[k],
        ) by {
            assert(cs[k] == constraints@[k]@);
        }
        let n = size as int;
        assert((forall|k: int| 0 <= k < n ==> (#[trigger] cs[k]).len() == cs[0].len()) <==> (
        forall|k: int| 0 <= k < n ==> (#[trigger] constraints@[k])@.len() == constraints@[0]@.len()))
            by {
            if forall|k: int| 0 <= k < n ==> (#[trigger] cs[k]).len() == cs[0].len() {
                assert forall|k: int| 0 <= k < n implies (#[trigger] constraints@[k])@.len()
                    == constraints@[0]@.len() by {
                    assert(cs[k] == constraints@[k]@);
                    assert(cs[0] == constraints@[0]@);
                }
            }
            if forall|k: int|
                0 <= k < n ==> (#[trigger] constraints@[k])@.len() == constraints@[0]@.len() {
                assert forall|k: int| 0 <= k < n implies (#[trigger] cs[k]).len() == cs[0].len() by {
                    assert(cs[k] == constraints@[k]@);
                    assert(cs[0] == constraints@[0]@);
                    assert(constraints@[k]@.len() == constraints@[0]@.len());
                }
            }
        }
        if r is Some {
            let v = r->Some_0;
            assert forall|k: int| 0 <= k < v@.len() implies #[trigger] v@[k] == quotient_at(
                alpha,
                cs[k],
                selectors@[k].inv_vanishing,
            ) by {
                assert(cs[k] == constraints@[k]@);
                assert(inv_vanishing@[k] == selectors@[k].inv_vanishing);
            }
        }
        assert(quotient_values_from_evaluations(
            air,
            trace_size as int,
            main_on_quotient@,
            aux_on_quotient@,
            selectors@,
            alpha,
            cs,
            r,
        ));
    }
    r
}

} // verus!
