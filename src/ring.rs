//! Ring laws of the challenge field's multiplication, proved on unreduced
//! integer coordinates and carried through reduction modulo the prime.

use vstd::arithmetic::mul::{
    lemma_mul_is_associative, lemma_mul_is_distributive_add, lemma_mul_is_distributive_add_other_way,
};
use crate::field::{eadd, emul, ext_of, fred, Ext, P};
use vstd::arithmetic::div_mod::{lemma_add_mod_noop, lemma_fundamental_div_mod, lemma_mod_multiples_vanish, lemma_small_mod};
use vstd::prelude::*;

verus! {

/// Integer coordinates in the basis `1, X, X^2, X^3`.
pub type Coords = (int, int, int, int);

/// Product of polynomials in `X`, reduced by `X^4 = 11`, without reduction
/// modulo the prime.
pub open spec fn mi(a: Coords, b: Coords) -> Coords {
    (
        a.0 * b.0 + 11 * (a.1 * b.3 + a.2 * b.2 + a.3 * b.1),
        a.0 * b.1 + a.1 * b.0 + 11 * (a.2 * b.3 + a.3 * b.2),
        a.0 * b.2 + a.1 * b.1 + a.2 * b.0 + 11 * (a.3 * b.3),
        a.0 * b.3 + a.1 * b.2 + a.2 * b.1 + a.3 * b.0,
    )
}

/// Multiplication by `X`.
pub open spec fn sh(b: Coords) -> Coords {
    (11 * b.3, b.0, b.1, b.2)
}

pub open spec fn sc(s: int, b: Coords) -> Coords {
    (s * b.0, s * b.1, s * b.2, s * b.3)
}

pub open spec fn ad(x: Coords, y: Coords) -> Coords {
    (x.0 + y.0, x.1 + y.1, x.2 + y.2, x.3 + y.3)
}

/// `a·b = a0·b + a1·(X·b) + a2·(X²·b) + a3·(X³·b)`.
proof fn lemma_mi_by_shifts(a: Coords, b: Coords)
    ensures
        mi(a, b) == ad(ad(sc(a.0, b), sc(a.1, sh(b))), ad(sc(a.2, sh(sh(b))), sc(a.3, sh(sh(sh(b)))))),
{
    let (a0, a1, a2, a3) = a;
    let (b0, b1, b2, b3) = b;
    assert(a1 * (11 * b3) == 11 * (a1 * b3)) by (nonlinear_arith);
    assert(a2 * (11 * b2) == 11 * (a2 * b2)) by (nonlinear_arith);
    assert(a3 * (11 * b1) == 11 * (a3 * b1)) by (nonlinear_arith);
    assert(a2 * (11 * b3) == 11 * (a2 * b3)) by (nonlinear_arith);
    assert(a3 * (11 * b2) == 11 * (a3 * b2)) by (nonlinear_arith);
    assert(a3 * (11 * b3) == 11 * (a3 * b3)) by (nonlinear_arith);
}

/// Multiplication by `X` commutes with the product: `(X·a)·b = X·(a·b)`.
proof fn lemma_sh_left(a: Coords, b: Coords)
    ensures
        mi(sh(a), b) == sh(mi(a, b)),
{
    let (a0, a1, a2, a3) = a;
    let (b0, b1, b2, b3) = b;
    assert((11 * a3) * b0 == 11 * (a3 * b0)) by (nonlinear_arith);
    assert((11 * a3) * b1 == 11 * (a3 * b1)) by (nonlinear_arith);
    assert((11 * a3) * b2 == 11 * (a3 * b2)) by (nonlinear_arith);
    assert((11 * a3) * b3 == 11 * (a3 * b3)) by (nonlinear_arith);
}

/// The product is additive and homogeneous in its first argument.
proof fn lemma_linear_left(s: int, x: Coords, y: Coords, c: Coords)
    ensures
        mi(ad(x, y), c) == ad(mi(x, c), mi(y, c)),
        mi(sc(s, x), c) == sc(s, mi(x, c)),
{
    let (x0, x1, x2, x3) = x;
    let (y0, y1, y2, y3) = y;
    let (c0, c1, c2, c3) = c;
    lemma_mul_is_distributive_add_other_way(c0, x0, y0);
    lemma_mul_is_associative(s, x0, c0);
    lemma_mul_is_distributive_add_other_way(c1, x0, y0);
    lemma_mul_is_associative(s, x0, c1);
    lemma_mul_is_distributive_add_other_way(c2, x0, y0);
    lemma_mul_is_associative(s, x0, c2);
    lemma_mul_is_distributive_add_other_way(c3, x0, y0);
    lemma_mul_is_associative(s, x0, c3);
    lemma_mul_is_distributive_add_other_way(c0, x1, y1);
    lemma_mul_is_associative(s, x1, c0);
    lemma_mul_is_distributive_add_other_way(c1, x1, y1);
    lemma_mul_is_associative(s, x1, c1);
    lemma_mul_is_distributive_add_other_way(c2, x1, y1);
    lemma_mul_is_associative(s, x1, c2);
    lemma_mul_is_distributive_add_other_way(c3, x1, y1);
    lemma_mul_is_associative(s, x1, c3);
    lemma_mul_is_distributive_add_other_way(c0, x2, y2);
    lemma_mul_is_associative(s, x2, c0);
    lemma_mul_is_distributive_add_other_way(c1, x2, y2);
    lemma_mul_is_associative(s, x2, c1);
    lemma_mul_is_distributive_add_other_way(c2, x2, y2);
    lemma_mul_is_associative(s, x2, c2);
    lemma_mul_is_distributive_add_other_way(c3, x2, y2);
    lemma_mul_is_associative(s, x2, c3);
    lemma_mul_is_distributive_add_other_way(c0, x3, y3);
    lemma_mul_is_associative(s, x3, c0);
    lemma_mul_is_distributive_add_other_way(c1, x3, y3);
    lemma_mul_is_associative(s, x3, c1);
    lemma_mul_is_distributive_add_other_way(c2, x3, y3);
    lemma_mul_is_associative(s, x3, c2);
    lemma_mul_is_distributive_add_other_way(c3, x3, y3);
    lemma_mul_is_associative(s, x3, c3);
    assert(mi(ad(x, y), c) == ad(mi(x, c), mi(y, c)));
    lemma_scale_terms(s, x0 * c0, x1 * c3, x2 * c2, x3 * c1);
    lemma_scale_terms(s, x0 * c1 + x1 * c0, x2 * c3, x3 * c2, 0);
    lemma_scale_terms(s, x0 * c2 + x1 * c1 + x2 * c0, x3 * c3, 0, 0);
    lemma_mul_is_distributive_add(s, x0 * c1, x1 * c0);
    lemma_mul_is_distributive_add(s, x0 * c2 + x1 * c1, x2 * c0);
    lemma_mul_is_distributive_add(s, x0 * c2, x1 * c1);
    lemma_mul_is_distributive_add(s, x0 * c3 + x1 * c2 + x2 * c1, x3 * c0);
    lemma_mul_is_distributive_add(s, x0 * c3 + x1 * c2, x2 * c1);
    lemma_mul_is_distributive_add(s, x0 * c3, x1 * c2);
    assert(mi(sc(s, x), c) == sc(s, mi(x, c)));
}

proof fn lemma_scale_terms(s: int, p: int, q: int, r: int, t: int)
    ensures
        s * (p + 11 * (q + r + t)) == s * p + 11 * (s * q + s * r + s * t),
{
    assert(s * (p + 11 * (q + r + t)) == s * p + 11 * (s * q + s * r + s * t)) by (nonlinear_arith);
}

/// Associativity over the integers.
pub proof fn lemma_mi_assoc(a: Coords, b: Coords, c: Coords)
    ensures
        mi(mi(a, b), c) == mi(a, mi(b, c)),
{
    let s1 = sh(b);
    let s2 = sh(s1);
    let s3 = sh(s2);
    lemma_mi_by_shifts(a, b);
    lemma_mi_by_shifts(a, mi(b, c));
    lemma_sh_left(b, c);
    lemma_sh_left(s1, c);
    lemma_sh_left(s2, c);
    let t0 = sc(a.0, b);
    let t1 = sc(a.1, s1);
    let t2 = sc(a.2, s2);
    let t3 = sc(a.3, s3);
    lemma_linear_left(a.0, b, b, c);
    lemma_linear_left(a.1, s1, s1, c);
    lemma_linear_left(a.2, s2, s2, c);
    lemma_linear_left(a.3, s3, s3, c);
    lemma_linear_left(0, t0, t1, c);
    lemma_linear_left(0, t2, t3, c);
    lemma_linear_left(0, ad(t0, t1), ad(t2, t3), c);
}

/// Commutativity over the integers.
proof fn lemma_mi_comm(a: Coords, b: Coords)
    ensures
        mi(a, b) == mi(b, a),
{
    let (a0, a1, a2, a3) = a;
    let (b0, b1, b2, b3) = b;
    assert(a0 * b0 == b0 * a0 && a1 * b3 == b3 * a1 && a2 * b2 == b2 * a2 && a3 * b1 == b1 * a3)
        by (nonlinear_arith);
    assert(a0 * b1 == b1 * a0 && a1 * b0 == b0 * a1 && a2 * b3 == b3 * a2 && a3 * b2 == b2 * a3)
        by (nonlinear_arith);
    assert(a0 * b2 == b2 * a0 && a1 * b1 == b1 * a1 && a2 * b0 == b0 * a2 && a3 * b3 == b3 * a3)
        by (nonlinear_arith);
    assert(a0 * b3 == b3 * a0 && a1 * b2 == b2 * a1 && a2 * b1 == b1 * a2 && a3 * b0 == b0 * a3)
        by (nonlinear_arith);
}

/// The integer coordinates of a value.
pub open spec fn cv(x: Ext) -> Coords {
    (x.c0 as int, x.c1 as int, x.c2 as int, x.c3 as int)
}

/// The canonical value with the given integer coordinates.
pub open spec fn red(u: Coords) -> Ext {
    ext_of(u.0, u.1, u.2, u.3)
}

proof fn lemma_fred_range(x: int)
    ensures
        0 <= fred(x) < P,
{
}

/// Reducing a coordinate changes it by a multiple of the prime.
proof fn lemma_reduce_coord(x: int) -> (q: int)
    ensures
        fred(x) == x + P * q,
{
    lemma_fundamental_div_mod(x, P as int);
    let q = -(x / (P as int));
    let d = x / (P as int);
    assert(P * q == -((P as int) * d)) by (nonlinear_arith)
        requires
            q == -d,
    ;
    q
}

proof fn lemma_cv_red(u: Coords) -> (q: Coords)
    ensures
        cv(red(u)) == ad(u, sc(P as int, q)),
{
    lemma_fred_range(u.0);
    lemma_fred_range(u.1);
    lemma_fred_range(u.2);
    lemma_fred_range(u.3);
    let q0 = lemma_reduce_coord(u.0);
    let q1 = lemma_reduce_coord(u.1);
    let q2 = lemma_reduce_coord(u.2);
    let q3 = lemma_reduce_coord(u.3);
    (q0, q1, q2, q3)
}

/// Adding a multiple of the prime to each coordinate does not change the
/// reduced value.
proof fn lemma_red_multiple(u: Coords, q: Coords)
    ensures
        red(ad(u, sc(P as int, q))) == red(u),
{
    let p = P as int;
    lemma_mod_multiples_vanish(q.0, u.0, p);
    lemma_mod_multiples_vanish(q.1, u.1, p);
    lemma_mod_multiples_vanish(q.2, u.2, p);
    lemma_mod_multiples_vanish(q.3, u.3, p);
    assert(u.0 + p * q.0 == p * q.0 + u.0);
    assert(u.1 + p * q.1 == p * q.1 + u.1);
    assert(u.2 + p * q.2 == p * q.2 + u.2);
    assert(u.3 + p * q.3 == p * q.3 + u.3);
}

/// The product respects reduction of its first argument.
proof fn lemma_red_left(u: Coords, v: Coords)
    ensures
        red(mi(cv(red(u)), v)) == red(mi(u, v)),
{
    let q = lemma_cv_red(u);
    lemma_linear_left(P as int, q, q, v);
    lemma_linear_left(0, u, sc(P as int, q), v);
    lemma_red_multiple(mi(u, v), mi(q, v));
}

/// The product respects reduction of its second argument.
proof fn lemma_red_right(u: Coords, v: Coords)
    ensures
        red(mi(u, cv(red(v)))) == red(mi(u, v)),
{
    lemma_mi_comm(u, cv(red(v)));
    lemma_mi_comm(u, v);
    lemma_red_left(v, u);
}

/// The sum respects reduction of both arguments.
proof fn lemma_red_add(u: Coords, v: Coords)
    ensures
        red(ad(cv(red(u)), cv(red(v)))) == red(ad(u, v)),
{
    let p = P as int;
    lemma_fred_range(u.0);
    lemma_fred_range(u.1);
    lemma_fred_range(u.2);
    lemma_fred_range(u.3);
    lemma_fred_range(v.0);
    lemma_fred_range(v.1);
    lemma_fred_range(v.2);
    lemma_fred_range(v.3);
    lemma_add_mod_noop(u.0, v.0, p);
    lemma_add_mod_noop(u.1, v.1, p);
    lemma_add_mod_noop(u.2, v.2, p);
    lemma_add_mod_noop(u.3, v.3, p);
}

/// Associativity of the challenge field's product.
pub proof fn lemma_emul_assoc(a: Ext, b: Ext, c: Ext)
    ensures
        emul(emul(a, b), c) == emul(a, emul(b, c)),
{
    lemma_red_left(mi(cv(a), cv(b)), cv(c));
    lemma_mi_assoc(cv(a), cv(b), cv(c));
    lemma_red_right(cv(a), mi(cv(b), cv(c)));
}

/// Commutativity of the challenge field's product.
pub proof fn lemma_emul_comm(a: Ext, b: Ext)
    ensures
        emul(a, b) == emul(b, a),
{
    lemma_mi_comm(cv(a), cv(b));
}

/// The product distributes over the sum on the right.
pub proof fn lemma_emul_distrib(x: Ext, y: Ext, z: Ext)
    ensures
        emul(eadd(x, y), z) == eadd(emul(x, z), emul(y, z)),
{
    lemma_red_left(ad(cv(x), cv(y)), cv(z));
    lemma_linear_left(0, cv(x), cv(y), cv(z));
    lemma_red_add(mi(cv(x), cv(z)), mi(cv(y), cv(z)));
}

/// One is the unit on canonical values.
pub proof fn lemma_emul_one(h: Ext)
    requires
        h.c0 < P && h.c1 < P && h.c2 < P && h.c3 < P,
    ensures
        emul(h, Ext { c0: 1, c1: 0, c2: 0, c3: 0 }) == h,
{
    lemma_small_mod(h.c0 as nat, P as nat);
    lemma_small_mod(h.c1 as nat, P as nat);
    lemma_small_mod(h.c2 as nat, P as nat);
    lemma_small_mod(h.c3 as nat, P as nat);
}

/// Zero annihilates.
pub proof fn lemma_emul_zero(x: Ext)
    ensures
        emul(Ext { c0: 0, c1: 0, c2: 0, c3: 0 }, x) == (Ext { c0: 0, c1: 0, c2: 0, c3: 0 }),
{
    let z = Ext { c0: 0, c1: 0, c2: 0, c3: 0 };
    assert(mi(cv(z), cv(x)) == (0int, 0int, 0int, 0int));
    lemma_small_mod(0, P as nat);
}

/// Values built from coordinates are canonical.
pub proof fn lemma_ext_of_canonical(c0: int, c1: int, c2: int, c3: int)
    ensures
        ext_of(c0, c1, c2, c3).c0 < P,
        ext_of(c0, c1, c2, c3).c1 < P,
        ext_of(c0, c1, c2, c3).c2 < P,
        ext_of(c0, c1, c2, c3).c3 < P,
{
    lemma_fred_range(c0);
    lemma_fred_range(c1);
    lemma_fred_range(c2);
    lemma_fred_range(c3);
}

} // verus!
