//! Constraint folders: the prover's power-table accumulator and the
//! verifier's Horner accumulator, over the challenge field.

use crate::field::{eadd, embed, embed_base, emul, ext_add, ext_mul, Ext, P};
use crate::ring::{
    lemma_emul_assoc, lemma_emul_comm, lemma_emul_distrib, lemma_emul_one, lemma_emul_zero,
    lemma_ext_of_canonical,
};
use vstd::prelude::*;

verus! {

/// The prover's accumulation of `cs` against a table of weights:
/// `acc ← acc + table[i]·cs[i]`, from zero.
pub open spec fn prover_fold(table: Seq<Ext>, cs: Seq<Ext>) -> Ext
    decreases cs.len(),
{
    if cs.len() == 0 {
        Ext { c0: 0, c1: 0, c2: 0, c3: 0 }
    } else {
        let k = cs.len() - 1;
        eadd(prover_fold(table, cs.drop_last()), emul(table[k], cs[k]))
    }
}

/// The verifier's Horner accumulation of `cs`: `acc ← acc·α + cs[i]`, from
/// zero.
pub open spec fn verifier_fold(alpha: Ext, cs: Seq<Ext>) -> Ext
    decreases cs.len(),
{
    if cs.len() == 0 {
        Ext { c0: 0, c1: 0, c2: 0, c3: 0 }
    } else {
        eadd(emul(verifier_fold(alpha, cs.drop_last()), alpha), cs.last())
    }
}

/// `α^e`, by repeated multiplication from one.
pub open spec fn epow(alpha: Ext, e: nat) -> Ext
    decreases e,
{
    if e == 0 {
        Ext { c0: 1, c1: 0, c2: 0, c3: 0 }
    } else {
        emul(epow(alpha, (e - 1) as nat), alpha)
    }
}

/// The powers of `α`, highest first: entry `i` of `n` is `α^(n-1-i)`.
pub open spec fn alpha_powers(alpha: Ext, n: nat) -> Seq<Ext> {
    Seq::new(n, |i: int| epow(alpha, (n - 1 - i) as nat))
}

/// Horner's rule on a prefix, scaled by the powers that remain, is the
/// prover's fold of that prefix against the full table.
proof fn lemma_fold_prefix(alpha: Ext, cs: Seq<Ext>, n: nat)
    requires
        cs.len() <= n,
    ensures
        prover_fold(alpha_powers(alpha, n), cs) == emul(
            verifier_fold(alpha, cs),
            epow(alpha, (n - cs.len()) as nat),
        ),
    decreases cs.len(),
{
    let zero = Ext { c0: 0, c1: 0, c2: 0, c3: 0 };
    if cs.len() == 0 {
        lemma_emul_zero(epow(alpha, n));
    } else {
        let k = cs.len() - 1;
        let pre = cs.drop_last();
        let c = cs[k];
        lemma_fold_prefix(alpha, pre, n);
        let h = verifier_fold(alpha, pre);
        let pw = epow(alpha, (n - 1 - k) as nat);
        assert(epow(alpha, (n - pre.len()) as nat) == emul(pw, alpha));
        assert(alpha_powers(alpha, n)[k] == pw);
        lemma_emul_distrib(emul(h, alpha), c, pw);
        lemma_emul_assoc(h, alpha, pw);
        lemma_emul_comm(alpha, pw);
        lemma_emul_comm(c, pw);
    }
}

/// Folder equivalence: for the same `α` and the same sequence of asserted
/// constraint values, the prover's accumulation against the powers of `α`
/// (highest first) and the verifier's Horner accumulation give the same
/// challenge-field value.
pub proof fn lemma_folder_equivalence(alpha: Ext, cs: Seq<Ext>)
    ensures
        prover_fold(alpha_powers(alpha, cs.len()), cs) == verifier_fold(alpha, cs),
{
    lemma_fold_prefix(alpha, cs, cs.len());
    let h = verifier_fold(alpha, cs);
    if cs.len() > 0 {
        let k = cs.len() - 1;
        let m = emul(verifier_fold(alpha, cs.drop_last()), alpha);
        let l = cs.last();
        lemma_ext_of_canonical(m.c0 + l.c0, m.c1 + l.c1, m.c2 + l.c2, m.c3 + l.c3);
    }
    assert(h.c0 < P && h.c1 < P && h.c2 < P && h.c3 < P);
    assert(epow(alpha, 0) == Ext { c0: 1, c1: 0, c2: 0, c3: 0 });
    lemma_emul_one(h);
}

/// A pair of rows, the local row and the next one, as opened at one point.
#[derive(Clone, Copy)]
pub struct VerifierView<'a, EF> {
    local: &'a [EF],
    next: &'a [EF],
}

impl<'a, EF: Copy> VerifierView<'a, EF> {
    /// The local row.
    pub closed spec fn local_values(&self) -> Seq<EF> {
        self.local@
    }

    /// The next row.
    pub closed spec fn next_values(&self) -> Seq<EF> {
        self.next@
    }

    pub fn new(local: &'a [EF], next: &'a [EF]) -> (r: Self)
        ensures
            r.local_values() == local@,
            r.next_values() == next@,
    {
        VerifierView { local, next }
    }

    pub fn get_local(&self, col: usize) -> (r: EF)
        requires
            col < self.local_values().len(),
        ensures
            r == self.local_values()[col as int],
    {
        self.local[col]
    }

    pub fn get_next(&self, col: usize) -> (r: EF)
        requires
            col < self.next_values().len(),
        ensures
            r == self.next_values()[col as int],
    {
        self.next[col]
    }

    /// The number of columns, taken from the local row.
    pub fn width(&self) -> (r: usize)
        ensures
            r == self.local_values().len(),
    {
        self.local.len()
    }

    /// Always two: the local row and the next one.
    pub fn height(&self) -> (r: usize)
        ensures
            r == 2,
    {
        2
    }

    /// Row 0 is the local row, row 1 the next one; there is no other.
    pub fn row_slice(&self, r: usize) -> (out: Option<&'a [EF]>)
        ensures
            r == 0 ==> (out matches Some(s) && s@ == self.local_values()),
            r == 1 ==> (out matches Some(s) && s@ == self.next_values()),
            r > 1 ==> out is None,
    {
        if r == 0 {
            Some(self.local)
        } else if r == 1 {
            Some(self.next)
        } else {
            None
        }
    }
}

/// Access to the auxiliary trace's rows from within constraint evaluation.
pub trait AuxBuilder {
    /// The auxiliary rows at this point, local then next.
    spec fn aux_rows(&self) -> (Seq<Ext>, Seq<Ext>);

    /// The auxiliary rows (empty when the computation has none).
    fn aux(&self) -> (r: VerifierView<'_, Ext>)
        ensures
            r.local_values() == self.aux_rows().0,
            r.next_values() == self.aux_rows().1,
    ;
}

/// Folds constraints at one point of the quotient domain against a table of
/// powers of `α`, taken in the order in which constraints are asserted.
pub struct ProverFolder<'a> {
    /// Main trace rows at this point and `next_step` points ahead.
    pub main: VerifierView<'a, u32>,
    /// Auxiliary trace rows, empty when there is no auxiliary trace.
    pub aux: VerifierView<'a, Ext>,
    /// One on the first row, zero elsewhere.
    pub is_first_row: u32,
    /// One on the last row, zero elsewhere.
    pub is_last_row: u32,
    /// One on every row but the last.
    pub is_transition: u32,
    /// Powers of `α`, highest first.
    pub alpha_powers: &'a [Ext],
    /// Running combination of the constraints asserted so far.
    pub accumulator: Ext,
    /// How many constraints have been asserted.
    pub constraint_index: usize,
}

impl<'a> ProverFolder<'a> {
    pub fn is_first_row(&self) -> (r: u32)
        ensures
            r == self.is_first_row,
    {
        self.is_first_row
    }

    pub fn is_last_row(&self) -> (r: u32)
        ensures
            r == self.is_last_row,
    {
        self.is_last_row
    }

    /// The transition selector; only windows of two rows exist.
    pub fn is_transition_window(&self, size: usize) -> (r: u32)
        requires
            size == 2,
        ensures
            r == self.is_transition,
    {
        self.is_transition
    }

    /// The main trace rows.
    pub fn main(&self) -> (r: VerifierView<'a, u32>)
        ensures
            r == self.main,
    {
        self.main
    }

    /// Adds `x` times the next power of `α` to the accumulator.
    pub fn assert_zero(&mut self, x: u32)
        requires
            old(self).constraint_index < old(self).alpha_powers@.len(),
        ensures
            final(self).accumulator == eadd(
                old(self).accumulator,
                emul(old(self).alpha_powers@[old(self).constraint_index as int], embed(x)),
            ),
            final(self).constraint_index == old(self).constraint_index + 1,
            final(self).alpha_powers == old(self).alpha_powers,
            final(self).main == old(self).main,
            final(self).aux == old(self).aux,
            final(self).is_first_row == old(self).is_first_row,
            final(self).is_last_row == old(self).is_last_row,
            final(self).is_transition == old(self).is_transition,
    {
        let e = embed_base(x);
        self.assert_zero_ext(e)
    }

    /// Adds the challenge-field value `x` times the next power of `α` to the
    /// accumulator.
    pub fn assert_zero_ext(&mut self, x: Ext)
        requires
            old(self).constraint_index < old(self).alpha_powers@.len(),
        ensures
            final(self).accumulator == eadd(
                old(self).accumulator,
                emul(old(self).alpha_powers@[old(self).constraint_index as int], x),
            ),
            final(self).constraint_index == old(self).constraint_index + 1,
            final(self).alpha_powers == old(self).alpha_powers,
            final(self).main == old(self).main,
            final(self).aux == old(self).aux,
            final(self).is_first_row == old(self).is_first_row,
            final(self).is_last_row == old(self).is_last_row,
            final(self).is_transition == old(self).is_transition,
    {
        let alpha = self.alpha_powers[self.constraint_index];
        let term = ext_mul(alpha, x);
        self.accumulator = ext_add(self.accumulator, term);
        self.constraint_index = self.constraint_index + 1;
    }
}

impl<'a> AuxBuilder for ProverFolder<'a> {
    open spec fn aux_rows(&self) -> (Seq<Ext>, Seq<Ext>) {
        (self.aux.local_values(), self.aux.next_values())
    }

    fn aux(&self) -> (r: VerifierView<'_, Ext>) {
        self.aux
    }
}

/// Folds constraints at the out-of-domain point by Horner's rule.
pub struct VerifierFolder<'a> {
    /// Opened main values at `ζ`.
    pub main_local: &'a [Ext],
    /// Opened main values at `ζ·g`.
    pub main_next: &'a [Ext],
    /// Opened auxiliary values at `ζ`.
    pub aux_local: &'a [Ext],
    /// Opened auxiliary values at `ζ·g`.
    pub aux_next: &'a [Ext],
    /// First-row selector at `ζ`.
    pub is_first_row: Ext,
    /// Last-row selector at `ζ`.
    pub is_last_row: Ext,
    /// Transition selector at `ζ`.
    pub is_transition: Ext,
    /// Randomness combining the constraints.
    pub alpha: Ext,
    /// Running combination of the constraints asserted so far.
    pub accumulator: Ext,
}

impl<'a> VerifierFolder<'a> {
    pub fn is_first_row(&self) -> (r: Ext)
        ensures
            r == self.is_first_row,
    {
        self.is_first_row
    }

    pub fn is_last_row(&self) -> (r: Ext)
        ensures
            r == self.is_last_row,
    {
        self.is_last_row
    }

    /// The transition selector; only windows of two rows exist.
    pub fn is_transition_window(&self, size: usize) -> (r: Ext)
        requires
            size == 2,
        ensures
            r == self.is_transition,
    {
        self.is_transition
    }

    /// The opened main rows.
    pub fn main(&self) -> (r: VerifierView<'a, Ext>)
        ensures
            r.local_values() == self.main_local@,
            r.next_values() == self.main_next@,
    {
        VerifierView::new(self.main_local, self.main_next)
    }

    /// `accumulator ← accumulator·α + x`.
    pub fn assert_zero(&mut self, x: Ext)
        ensures
            final(self).accumulator == eadd(emul(old(self).accumulator, old(self).alpha), x),
            final(self).alpha == old(self).alpha,
            final(self).main_local == old(self).main_local,
            final(self).main_next == old(self).main_next,
            final(self).aux_local == old(self).aux_local,
            final(self).aux_next == old(self).aux_next,
            final(self).is_first_row == old(self).is_first_row,
            final(self).is_last_row == old(self).is_last_row,
            final(self).is_transition == old(self).is_transition,
    {
        let scaled = ext_mul(self.accumulator, self.alpha);
        self.accumulator = ext_add(scaled, x);
    }

    /// The same as [`VerifierFolder::assert_zero`]: every value at `ζ` is
    /// already in the challenge field.
    pub fn assert_zero_ext(&mut self, x: Ext)
        ensures
            final(self).accumulator == eadd(emul(old(self).accumulator, old(self).alpha), x),
            final(self).alpha == old(self).alpha,
            final(self).main_local == old(self).main_local,
            final(self).main_next == old(self).main_next,
            final(self).aux_local == old(self).aux_local,
            final(self).aux_next == old(self).aux_next,
            final(self).is_first_row == old(self).is_first_row,
            final(self).is_last_row == old(self).is_last_row,
            final(self).is_transition == old(self).is_transition,
    {
        self.assert_zero(x)
    }
}

impl<'a> AuxBuilder for VerifierFolder<'a> {
    open spec fn aux_rows(&self) -> (Seq<Ext>, Seq<Ext>) {
        (self.aux_local@, self.aux_next@)
    }

    fn aux(&self) -> (r: VerifierView<'_, Ext>) {
        VerifierView::new(self.aux_local, self.aux_next)
    }
}

} // verus!
