use p3_baby_bear::BabyBear;
use p3_field::extension::BinomialExtensionField;
use p3_field::{BasedVectorSpace, PrimeCharacteristicRing, PrimeField32};
use uni_stark_mt::{
    check_constraint_identity, check_constraints_at_zeta, check_quotient_shape,
    compute_quotient_values, next_row_index, quotient_values_from_constraints, recombine,
    recombine_row, recompose_quotient_from_chunks, verify_opened, AuxTraceBuilder, Ext,
    MultiTraceAir, Proof, RowSelectors, VerificationError, VerifierView, P, QUOTIENT_DEGREE,
};

type EF = BinomialExtensionField<BabyBear, 4>;

const PP: u64 = P as u64;

fn e(x: u32) -> Ext {
    Ext { c0: x, c1: 0, c2: 0, c3: 0 }
}

fn ef(x: Ext) -> EF {
    let c = [x.c0, x.c1, x.c2, x.c3];
    <EF as BasedVectorSpace<BabyBear>>::from_basis_coefficients_fn(|i| BabyBear::new(c[i]))
}

fn ex(x: EF) -> Ext {
    let c = BasedVectorSpace::<BabyBear>::as_basis_coefficients_slice(&x);
    Ext {
        c0: c[0].as_canonical_u32(),
        c1: c[1].as_canonical_u32(),
        c2: c[2].as_canonical_u32(),
        c3: c[3].as_canonical_u32(),
    }
}

fn add(a: u64, b: u64) -> u64 {
    (a + b) % PP
}

fn sub(a: u64, b: u64) -> u64 {
    (a + PP - b % PP) % PP
}

fn mul(a: u64, b: u64) -> u64 {
    (a % PP) * (b % PP) % PP
}

fn pow(mut b: u64, mut e: u64) -> u64 {
    let mut r = 1;
    b %= PP;
    while e > 0 {
        if e & 1 == 1 {
            r = mul(r, b);
        }
        b = mul(b, b);
        e >>= 1;
    }
    r
}

fn inv(a: u64) -> u64 {
    pow(a, PP - 2)
}

fn eval_poly(coeffs: &[u64], x: u64) -> u64 {
    coeffs.iter().rev().fold(0, |acc, &c| add(mul(acc, x), c))
}

/// Lagrange interpolation through `points` evaluated at `x`.
fn interpolate(points: &[(u64, u64)], x: u64) -> u64 {
    let mut total = 0;
    for (i, &(xi, yi)) in points.iter().enumerate() {
        let mut term = yi;
        for (j, &(xj, _)) in points.iter().enumerate() {
            if i != j {
                term = mul(term, mul(sub(x, xj), inv(sub(xi, xj))));
            }
        }
        total = add(total, term);
    }
    total
}

/// Splits a polynomial of degree below `n` on the coset `shift·<w>` of size
/// `n` into `k` chunks on the cosets `shift·w^i·<w^k>`, and checks that the
/// recomposition at `zeta` equals the direct evaluation.
fn recomposition_matches(coeffs: &[u64], log_n: u32, k: usize, zeta: u64) {
    let n = 1usize << log_n;
    assert!(coeffs.len() <= n);
    let shift = 31u64;
    let w = pow(31, (PP - 1) >> log_n);
    let m = n / k;
    let firsts: Vec<u64> = (0..k).map(|i| mul(shift, pow(w, i as u64))).collect();
    let vanishing = |j: usize, x: u64| sub(pow(mul(x, inv(firsts[j])), m as u64), 1);
    let mut vz = Vec::new();
    let mut vf = Vec::new();
    let mut chunks = Vec::new();
    for j in 0..k {
        vz.push(e(vanishing(j, zeta) as u32));
        vf.push((0..k).map(|i| vanishing(j, firsts[i]) as u32).collect::<Vec<u32>>());
        let points: Vec<(u64, u64)> = (0..m)
            .map(|t| {
                let x = mul(firsts[j], pow(w, (t * k) as u64));
                (x, eval_poly(coeffs, x))
            })
            .collect();
        chunks.push(vec![e(interpolate(&points, zeta) as u32)]);
    }
    let recomposed = recompose_quotient_from_chunks(&vz, &vf, &chunks);
    assert_eq!(recomposed, e(eval_poly(coeffs, zeta) as u32));
}

#[test]
fn recomposition_equals_direct_evaluation() {
    let coeffs: Vec<u64> = (1..=16).map(|i| (i * 7_919 + 3) % PP).collect();
    recomposition_matches(&coeffs, 4, 2, 123_456_789);
    recomposition_matches(&coeffs, 4, 4, 987_654_321);
    recomposition_matches(&coeffs[..8], 3, 4, 42);
    recomposition_matches(&coeffs[..8], 3, 2, PP - 5);
}

#[test]
fn single_chunk_recomposes_to_itself() {
    assert_eq!(recompose_quotient_from_chunks(&vec![e(77)], &vec![vec![5]], &vec![vec![e(1234)]]), e(1234));
}

#[test]
fn chunk_coordinates_recombine_with_the_basis() {
    let coords = vec![e(1), e(2), e(3), e(4)];
    assert_eq!(recombine(&coords), Ext { c0: 1, c1: 2, c2: 3, c3: 4 });
    assert_eq!(
        recompose_quotient_from_chunks(&vec![e(77)], &vec![vec![5]], &vec![coords.clone()]),
        Ext { c0: 1, c1: 2, c2: 3, c3: 4 }
    );
    // coordinates that are themselves extension values: Σ X^e · c_e
    let c: Vec<Ext> = vec![Ext { c0: 1, c1: 1, c2: 0, c3: 0 }, Ext { c0: 0, c1: 0, c2: 0, c3: 2 }];
    let expected = ef(c[0]) + EF::from_basis_coefficients_fn(|i| BabyBear::from_bool(i == 1)) * ef(c[1]);
    assert_eq!(recombine(&c), ex(expected));
    assert_eq!(recombine(&c), Ext { c0: 23, c1: 1, c2: 0, c3: 0 });
}

#[test]
fn flattened_rows_recombine() {
    let flat = vec![e(1), e(2), e(3), e(4), e(5), e(0), e(0), e(6)];
    assert_eq!(
        recombine_row(&flat),
        Some(vec![Ext { c0: 1, c1: 2, c2: 3, c3: 4 }, Ext { c0: 5, c1: 0, c2: 0, c3: 6 }])
    );
    assert_eq!(recombine_row(&vec![]), Some(vec![]));
    assert_eq!(recombine_row(&vec![e(1), e(2)]), None);
}

#[test]
fn two_chunk_weights() {
    // weight_0 = vz[1]/vf[1][0], weight_1 = vz[0]/vf[0][1]
    let vz = vec![e(6), e(10)];
    let vf = vec![vec![1u32, 3], vec![5u32, 1]];
    let chunks = vec![vec![e(7)], vec![e(11)]];
    let expected = add(mul(mul(10, inv(5)), 7), mul(mul(6, inv(3)), 11));
    assert_eq!(recompose_quotient_from_chunks(&vz, &vf, &chunks), e(expected as u32));
    assert_eq!(expected, 14 + 22);
}

#[test]
fn recomposition_with_fewer_chunks_or_no_coordinate() {
    let vz = vec![e(6), e(10)];
    let vf = vec![vec![1u32, 3], vec![5u32, 1]];
    assert_eq!(recompose_quotient_from_chunks(&vz, &vf, &vec![vec![e(7)]]), e(14));
    assert_eq!(recompose_quotient_from_chunks(&vz, &vf, &vec![vec![], vec![e(11)]]), e(22));
    assert_eq!(recompose_quotient_from_chunks(&vz, &vf, &vec![]), e(0));
}

#[test]
fn quotient_shape_check() {
    let vz = vec![e(6), e(10)];
    let vf = vec![vec![1u32, 3], vec![5u32, 1]];
    let err = Err(VerificationError::InvalidProof("quotient chunks have the wrong shape"));
    assert_eq!(check_quotient_shape(&vz, &vf, &vec![vec![e(7)], vec![e(11)]]), Ok(()));
    assert_eq!(check_quotient_shape(&vz, &vf, &vec![vec![e(1), e(2), e(3), e(4)]]), Ok(()));
    assert_eq!(check_quotient_shape(&vz, &vf, &vec![vec![e(7)], vec![e(1)], vec![e(2)]]), err);
    assert_eq!(check_quotient_shape(&vz, &vf, &vec![vec![e(1); 5]]), err);
    assert_eq!(check_quotient_shape(&vz, &vec![vec![1u32, P], vec![5, 1]], &vec![]), err);
    assert_eq!(check_quotient_shape(&vz, &vec![vec![1u32, 3]], &vec![]), err);
    assert_eq!(check_quotient_shape(&vz, &vec![vec![1u32, 3], vec![5]], &vec![]), err);
}

#[test]
fn quotient_values_fold_and_divide() {
    // one point: constraints [1, 2, 5], α = 3 → 20; times 4 → 80
    let cs = vec![vec![e(1), e(2), e(5)], vec![e(0), e(0), e(1)]];
    let inv_van = vec![e(4), e(9)];
    let values = quotient_values_from_constraints(&cs, &inv_van, e(3)).unwrap();
    assert_eq!(values, vec![e(80), e(9)]);
}

#[test]
fn quotient_values_need_a_constant_constraint_count() {
    let cs = vec![vec![e(1), e(2)], vec![e(3)]];
    assert_eq!(quotient_values_from_constraints(&cs, &vec![e(1), e(1)], e(3)), None);
    assert_eq!(quotient_values_from_constraints(&vec![], &vec![], e(3)), Some(vec![]));
}

#[test]
fn constraint_identity() {
    assert_eq!(check_constraint_identity(e(20), e(4), e(80)), Ok(()));
    assert_eq!(
        check_constraint_identity(e(20), e(4), e(81)),
        Err(VerificationError::ConstraintVerificationFailed)
    );
    assert_eq!(check_constraint_identity(e(P - 1), e(P - 1), e(1)), Ok(()));
    // X · X^3 = 11
    let x = Ext { c0: 0, c1: 1, c2: 0, c3: 0 };
    let x3 = Ext { c0: 0, c1: 0, c2: 0, c3: 1 };
    assert_eq!(check_constraint_identity(x, x3, e(11)), Ok(()));
}

/// Two columns `(a, b)` with the Fibonacci step `a' = b`, `b' = a + b`, the
/// first row `(0, 1)`.
struct Fib;

impl AuxTraceBuilder for Fib {
    fn aux_width(&self) -> usize {
        0
    }

    fn num_challenges(&self) -> usize {
        0
    }

    fn build_aux_trace(&self, _main: &Vec<Vec<u32>>, _challenges: &Vec<Ext>) -> Vec<Vec<Ext>> {
        panic!("no auxiliary trace")
    }
}

impl MultiTraceAir for Fib {
    fn width(&self) -> usize {
        2
    }

    fn eval(&self, main: &VerifierView<Ext>, _aux: &VerifierView<Ext>, s: &RowSelectors) -> Vec<Ext> {
        let (a, b) = (ef(main.get_local(0)), ef(main.get_local(1)));
        let (na, nb) = (ef(main.get_next(0)), ef(main.get_next(1)));
        let first = ef(s.is_first_row);
        let tr = ef(s.is_transition);
        vec![
            ex(first * a),
            ex(first * (b - EF::ONE)),
            ex(tr * (b - na)),
            ex(tr * (a + b - nb)),
        ]
    }
}

#[test]
fn next_row_wraps_around_the_quotient_domain() {
    assert_eq!(next_row_index(0, 32, 8), 4);
    assert_eq!(next_row_index(29, 32, 8), 1);
    assert_eq!(next_row_index(3, 4, 1), 3);
}

#[test]
fn quotient_engine_pairs_rows_next_step_apart() {
    // trace of two rows on a quotient domain of eight points: next is four ahead
    let rows: Vec<Vec<Ext>> = (0..8u32).map(|i| vec![e(i), e(i + 1)]).collect();
    let sel: Vec<RowSelectors> = (0..8)
        .map(|_| RowSelectors { is_first_row: e(0), is_last_row: e(0), is_transition: e(1), inv_vanishing: e(1) })
        .collect();
    let values = compute_quotient_values(&Fib, 2, &rows, &vec![], &sel, e(1)).unwrap();
    assert_eq!(values.len(), 8);
    assert_eq!(QUOTIENT_DEGREE, 4);
    for i in 0..8usize {
        let j = (i + 4) % 8;
        let (a, b) = (i as u64, i as u64 + 1);
        let (na, nb) = (j as u64, j as u64 + 1);
        let expected = add(sub(b, na), sub(add(a, b), nb));
        assert_eq!(values[i], e(expected as u32));
    }
}

fn sel() -> RowSelectors {
    RowSelectors { is_first_row: e(3), is_last_row: e(0), is_transition: e(5), inv_vanishing: e(7) }
}

fn fib_proof(main_local: Vec<u32>, quotient: Ext) -> Proof<u8, ()> {
    let main_next = vec![main_local[1], (main_local[0] + main_local[1]) % P];
    Proof {
        main_commit: 0,
        aux_commit: None,
        quotient_commit: 1,
        main_local: main_local.into_iter().map(e).collect(),
        main_next: main_next.into_iter().map(e).collect(),
        aux_local: vec![],
        aux_next: vec![],
        quotient_chunks: vec![vec![quotient]],
        opening_proof: (),
        log_degree: 3,
    }
}

fn decide(proof: &Proof<u8, ()>, pcs: Result<(), &str>) -> Result<(), VerificationError> {
    let s = sel();
    let cs = Fib.eval(
        &VerifierView::new(&proof.main_local, &proof.main_next),
        &VerifierView::new(&proof.aux_local, &proof.aux_next),
        &s,
    );
    verify_opened(proof, Fib.aux_width(), pcs, &cs, e(11), s.inv_vanishing, &vec![e(1)], &vec![vec![1]])
}

// constraints: first·a = 6, first·(b-1) = 24, transition ones vanish;
// folded with α = 11: (6·11 + 24)·11·11 = 10890; times 7
fn honest_quotient() -> Ext {
    e(mul(10_890, 7) as u32)
}

#[test]
fn corrupted_opening_fails_the_constraint_check() {
    let p = fib_proof(vec![2, 9], honest_quotient());
    let s = sel();
    let cs = Fib.eval(&VerifierView::new(&p.main_local, &p.main_next), &VerifierView::new(&[], &[]), &s);
    assert_eq!(
        check_constraints_at_zeta(&cs, e(11), s.inv_vanishing, &vec![e(1)], &vec![vec![1]], &p.quotient_chunks),
        Ok(())
    );
    let mut bad = p.main_local.clone();
    bad[0] = e(3);
    let cs = Fib.eval(&VerifierView::new(&bad, &p.main_next), &VerifierView::new(&[], &[]), &s);
    assert_eq!(
        check_constraints_at_zeta(&cs, e(11), s.inv_vanishing, &vec![e(1)], &vec![vec![1]], &p.quotient_chunks),
        Err(VerificationError::ConstraintVerificationFailed)
    );
}

#[test]
fn verifier_decision_on_opened_values() {
    let quotient = honest_quotient();
    let good = fib_proof(vec![2, 9], quotient);
    assert_eq!(decide(&good, Ok(())), Ok(()));
    assert_eq!(decide(&good, Err("bad opening")), Err(VerificationError::PcsVerificationFailed));
    let mut flipped = quotient;
    flipped.c2 ^= 1;
    let flipped_chunk = fib_proof(vec![2, 9], flipped);
    assert_eq!(decide(&flipped_chunk, Ok(())), Err(VerificationError::ConstraintVerificationFailed));
    let mut flipped_value = fib_proof(vec![2, 9], quotient);
    flipped_value.main_local[0].c0 ^= 1;
    assert_eq!(decide(&flipped_value, Ok(())), Err(VerificationError::ConstraintVerificationFailed));
}

#[test]
fn verifier_decision_checks_shape_first() {
    let quotient = honest_quotient();
    let mut with_aux = fib_proof(vec![2, 9], quotient);
    with_aux.aux_commit = Some(5);
    assert_eq!(
        decide(&with_aux, Err("bad opening")),
        Err(VerificationError::InvalidProof("AIR has no auxiliary trace but proof includes one"))
    );
    let mut five_coords = fib_proof(vec![2, 9], quotient);
    five_coords.quotient_chunks = vec![vec![quotient; 5]];
    assert_eq!(
        decide(&five_coords, Err("bad opening")),
        Err(VerificationError::InvalidProof("quotient chunks have the wrong shape"))
    );
    let no_aux = fib_proof(vec![2, 9], quotient);
    assert_eq!(
        verify_opened(&no_aux, 1, Ok::<(), ()>(()), &vec![], e(11), e(7), &vec![e(1)], &vec![vec![1]]),
        Err(VerificationError::InvalidProof("AIR requires auxiliary trace but proof has none"))
    );
}
