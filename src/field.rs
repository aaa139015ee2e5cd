//! BabyBear values as canonical `u32` residues, and values of its degree-four
//! extension as four such coordinates.
//!
//! Arithmetic is delegated to `p3_baby_bear::BabyBear` and to
//! `BinomialExtensionField<BabyBear, 4>`; each wrapper states its result as
//! integer arithmetic modulo the field order.

use p3_baby_bear::BabyBear;
use p3_field::extension::BinomialExtensionField;
use p3_field::{BasedVectorSpace, Field, PrimeField32};
use vstd::prelude::*;

verus! {

/// Order of the BabyBear field, `15 * 2^27 + 1`.
pub const P: u32 = 0x7800_0001;

/// Coordinates per challenge-field value: challenges live in the degree-four
/// extension `F[X] / (X^4 - W)`.
pub const EXTENSION_DEGREE: usize = 4;

/// The constant of the extension's defining relation `X^4 = W`.
pub const W: u32 = 11;

/// The residue of `x` modulo the field order.
pub open spec fn fred(x: int) -> int {
    x % (P as int)
}

/// Relies on `Field::try_inverse` for `p3_baby_bear::BabyBear`: no inverse of
/// zero, and otherwise a canonical value whose product with `a` is one.
#[verifier::external_body]
pub(crate) fn fe_try_inverse(a: u32) -> (r: Option<u32>)
    ensures
        r is None <==> fred(a as int) == 0,
        r matches Some(v) ==> v < P && fred(a as int * v as int) == 1,
{
    BabyBear::new(a).try_inverse().map(|v| v.as_canonical_u32())
}

/// A value of the challenge field: its four coordinates in the basis
/// `1, X, X^2, X^3`.
#[derive(Clone, Copy, Debug, PartialEq, Eq, Structural)]
pub struct Ext {
    pub c0: u32,
    pub c1: u32,
    pub c2: u32,
    pub c3: u32,
}

/// The canonical value with the given integer coordinates.
pub open spec fn ext_of(c0: int, c1: int, c2: int, c3: int) -> Ext {
    Ext { c0: fred(c0) as u32, c1: fred(c1) as u32, c2: fred(c2) as u32, c3: fred(c3) as u32 }
}

/// A base-field value as a challenge-field value.
pub open spec fn embed(x: u32) -> Ext {
    ext_of(x as int, 0, 0, 0)
}

/// The basis element `X^e`.
pub open spec fn basis(e: int) -> Ext {
    Ext {
        c0: if e == 0 { 1 } else { 0 },
        c1: if e == 1 { 1 } else { 0 },
        c2: if e == 2 { 1 } else { 0 },
        c3: if e == 3 { 1 } else { 0 },
    }
}

/// Coordinate-wise sum.
pub open spec fn eadd(a: Ext, b: Ext) -> Ext {
    ext_of(a.c0 + b.c0, a.c1 + b.c1, a.c2 + b.c2, a.c3 + b.c3)
}

/// Product of polynomials in `X`, reduced by `X^4 = W`.
pub open spec fn emul(a: Ext, b: Ext) -> Ext {
    let (a0, a1, a2, a3) = (a.c0 as int, a.c1 as int, a.c2 as int, a.c3 as int);
    let (b0, b1, b2, b3) = (b.c0 as int, b.c1 as int, b.c2 as int, b.c3 as int);
    let w = W as int;
    ext_of(
        a0 * b0 + w * (a1 * b3 + a2 * b2 + a3 * b1),
        a0 * b1 + a1 * b0 + w * (a2 * b3 + a3 * b2),
        a0 * b2 + a1 * b1 + a2 * b0 + w * (a3 * b3),
        a0 * b3 + a1 * b2 + a2 * b1 + a3 * b0,
    )
}

/// Relies on `Add` for `BinomialExtensionField<BabyBear, 4>`: coordinates add
/// modulo the field order.
#[verifier::external_body]
pub(crate) fn ext_add(a: Ext, b: Ext) -> (r: Ext)
    ensures
        r == eadd(a, b),
{
    let c = [a.c0, a.c1, a.c2, a.c3, b.c0, b.c1, b.c2, b.c3];
    let x = <BinomialExtensionField<BabyBear, 4> as BasedVectorSpace<BabyBear>>::from_basis_coefficients_fn(|i| BabyBear::new(c[i]));
    let y = <BinomialExtensionField<BabyBear, 4> as BasedVectorSpace<BabyBear>>::from_basis_coefficients_fn(|i| BabyBear::new(c[i + 4]));
    let s: Vec<BabyBear> = BasedVectorSpace::<BabyBear>::as_basis_coefficients_slice(&(x + y)).to_vec();
    Ext { c0: s[0].as_canonical_u32(), c1: s[1].as_canonical_u32(), c2: s[2].as_canonical_u32(), c3: s[3].as_canonical_u32() }
}

/// Relies on `Mul` for `BinomialExtensionField<BabyBear, 4>`: the product of
/// polynomials in `X`, reduced by `X^4 = 11`, modulo the field order.
#[verifier::external_body]
pub(crate) fn ext_mul(a: Ext, b: Ext) -> (r: Ext)
    ensures
        r == emul(a, b),
{
    let c = [a.c0, a.c1, a.c2, a.c3, b.c0, b.c1, b.c2, b.c3];
    let x = <BinomialExtensionField<BabyBear, 4> as BasedVectorSpace<BabyBear>>::from_basis_coefficients_fn(|i| BabyBear::new(c[i]));
    let y = <BinomialExtensionField<BabyBear, 4> as BasedVectorSpace<BabyBear>>::from_basis_coefficients_fn(|i| BabyBear::new(c[i + 4]));
    let s: Vec<BabyBear> = BasedVectorSpace::<BabyBear>::as_basis_coefficients_slice(&(x * y)).to_vec();
    Ext { c0: s[0].as_canonical_u32(), c1: s[1].as_canonical_u32(), c2: s[2].as_canonical_u32(), c3: s[3].as_canonical_u32() }
}

/// A base-field value as a challenge-field value.
pub fn embed_base(x: u32) -> (r: Ext)
    ensures
        r == embed(x),
{
    Ext { c0: x % P, c1: 0, c2: 0, c3: 0 }
}

/// The basis element `X^e`.
pub fn basis_element(e: usize) -> (r: Ext)
    requires
        e < EXTENSION_DEGREE,
    ensures
        r == basis(e as int),
{
    Ext {
        c0: if e == 0 { 1 } else { 0 },
        c1: if e == 1 { 1 } else { 0 },
        c2: if e == 2 { 1 } else { 0 },
        c3: if e == 3 { 1 } else { 0 },
    }
}

} // verus!
