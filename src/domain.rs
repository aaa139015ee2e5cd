//! Sizes of the trace and quotient domains, and the prover's checks of the
//! traces it is handed.

use crate::protocol::VerificationError;
use crate::quotient::QUOTIENT_DEGREE;
use p3_util::log2_strict_usize;
use vstd::arithmetic::power2::{lemma_pow2_adds, lemma_pow2_pos, lemma_pow2_unfold, lemma2_to64, pow2};
use vstd::prelude::*;

verus! {

/// `n` is a power of two.
pub open spec fn is_power_of_two(n: nat) -> bool {
    exists|k: nat| #[trigger] pow2(k) == n
}

/// Every row of `rows` has `width` entries.
pub open spec fn rows_have_width<T>(rows: Seq<Vec<T>>, width: nat) -> bool {
    forall|i: int| 0 <= i < rows.len() ==> (#[trigger] rows[i])@.len() == width
}

/// Relies on `p3_util::log2_strict_usize`: for a power of two, the exponent
/// of two that gives it (it panics on any other input).
#[verifier::external_body]
fn log2_strict(n: usize) -> (r: usize)
    requires
        is_power_of_two(n as nat),
    ensures
        pow2(r as nat) == n,
{
    log2_strict_usize(n)
}

proof fn lemma_pow2_monotone(a: nat, b: nat)
    requires
        a <= b,
    ensures
        pow2(a) <= pow2(b),
{
    lemma_pow2_adds(a, (b - a) as nat);
    lemma_pow2_pos((b - a) as nat);
    assert(pow2(a) * pow2((b - a) as nat) >= pow2(a)) by (nonlinear_arith)
        requires
            pow2((b - a) as nat) >= 1,
    ;
}

/// The base-two logarithm of a trace height, as the proof records it.
pub fn trace_log_degree(height: usize) -> (r: u8)
    requires
        is_power_of_two(height as nat),
    ensures
        pow2(r as nat) == height,
{
    let k = log2_strict(height);
    proof {
        if k >= 64 {
            lemma_pow2_monotone(64, k as nat);
            lemma2_to64();
        }
    }
    k as u8
}

/// Whether `n` is a power of two.
pub fn height_is_power_of_two(n: usize) -> (r: bool)
    ensures
        r == is_power_of_two(n as nat),
{
    let mut h: usize = 1;
    let ghost mut k: nat = 0;
    proof {
        lemma2_to64();
    }
    while h < n
        invariant
            h >= 1,
            h as nat == pow2(k),
            forall|j: nat| j < k ==> #[trigger] pow2(j) < n,
        decreases usize::MAX - h,
    {
        if h > usize::MAX / 2 {
            proof {
                lemma_pow2_unfold(k + 1);
                assert forall|j: nat| #[trigger] pow2(j) != n by {
                    if j > k {
                        lemma_pow2_monotone(k + 1, j);
                    }
                }
            }
            return false;
        }
        proof {
            lemma_pow2_unfold(k + 1);
        }
        h = h * 2;
        proof {
            k = k + 1;
        }
    }
    if h == n {
        true
    } else {
        proof {
            assert forall|j: nat| #[trigger] pow2(j) != n by {
                if j >= k {
                    lemma_pow2_monotone(k, j);
                }
            }
        }
        false
    }
}

/// The verifier's trace height `2^log_degree` and quotient domain size,
/// `QUOTIENT_DEGREE` times larger; a log degree whose quotient domain does not
/// fit a `usize` marks the proof invalid.
pub fn verifier_domain_sizes(log_degree: u8) -> (r: Result<(usize, usize), VerificationError>)
    ensures
        match r {
            Ok((h, q)) => h as nat == pow2(log_degree as nat) && q == h * QUOTIENT_DEGREE,
            Err(e) => pow2(log_degree as nat) * QUOTIENT_DEGREE > usize::MAX && e
                == VerificationError::InvalidProof("log degree too large"),
        },
{
    let mut h: usize = 1;
    let mut k: u8 = 0;
    proof {
        lemma2_to64();
    }
    while k < log_degree
        invariant
            k <= log_degree,
            h as nat == pow2(k as nat),
            h <= usize::MAX / 4,
        decreases log_degree - k,
    {
        proof {
            lemma_pow2_unfold(k as nat + 1);
        }
        if h > usize::MAX / 8 {
            proof {
                lemma_pow2_monotone(k as nat + 1, log_degree as nat);
            }
            return Err(VerificationError::InvalidProof("log degree too large"));
        }
        h = h * 2;
        k = k + 1;
    }
    Ok((h, h * QUOTIENT_DEGREE))
}

/// The prover's quotient domain size, when it fits a `usize`.
pub fn quotient_domain_size(height: usize) -> (r: Option<usize>)
    ensures
        match r {
            Some(q) => q == height * QUOTIENT_DEGREE,
            None => height * QUOTIENT_DEGREE > usize::MAX,
        },
{
    height.checked_mul(QUOTIENT_DEGREE)
}

/// Whether every row of a trace has the given width.
pub fn trace_has_width<T>(rows: &Vec<Vec<T>>, width: usize) -> (r: bool)
    ensures
        r == rows_have_width(rows@, width as nat),
{
    let mut i: usize = 0;
    while i < rows.len()
        invariant
            i <= rows@.len(),
            rows_have_width(rows@.take(i as int), width as nat),
        decreases rows@.len() - i,
    {
        if rows[i].len() != width {
            assert(!rows_have_width(rows@, width as nat)) by {
                assert(rows@[i as int]@.len() != width);
            }
            return false;
        }
        assert(rows_have_width(rows@.take(i + 1), width as nat)) by {
            assert forall|j: int| 0 <= j < i + 1 implies (#[trigger] rows@.take(i + 1)[j])@.len()
                == width by {
                if j < i {
                    assert(rows@.take(i + 1)[j] == rows@.take(i as int)[j]);
                }
            }
        }
        i = i + 1;
    }
    assert(rows@.take(rows@.len() as int) =~= rows@);
    true
}

/// Whether an auxiliary trace has the declared width and the main trace's
/// height.
pub fn aux_trace_fits<T>(aux: &Vec<Vec<T>>, aux_width: usize, height: usize) -> (r: bool)
    ensures
        r == (aux@.len() == height && rows_have_width(aux@, aux_width as nat)),
{
    aux.len() == height && trace_has_width(aux, aux_width)
}

} // verus!
