use p3_baby_bear::BabyBear;
use p3_field::extension::BinomialExtensionField;
use p3_field::{BasedVectorSpace, PrimeCharacteristicRing, PrimeField32};
use uni_stark_mt::{
    alpha_power_table, fold_at_zeta, AuxBuilder, Ext, ProverFolder, VerifierFolder, VerifierView, P,
};

type EF = BinomialExtensionField<BabyBear, 4>;

fn e(x: u32) -> Ext {
    Ext { c0: x, c1: 0, c2: 0, c3: 0 }
}

fn ef(x: Ext) -> EF {
    let c = [x.c0, x.c1, x.c2, x.c3];
    <EF as BasedVectorSpace<BabyBear>>::from_basis_coefficients_fn(|i| BabyBear::new(c[i]))
}

fn ex(x: EF) -> Ext {
    let c = BasedVectorSpace::<BabyBear>::as_basis_coefficients_slice(&x);
    Ext {
        c0: c[0].as_canonical_u32(),
        c1: c[1].as_canonical_u32(),
        c2: c[2].as_canonical_u32(),
        c3: c[3].as_canonical_u32(),
    }
}

fn prover_accumulate(alpha: Ext, cs: &[Ext]) -> Ext {
    let table = alpha_power_table(alpha, cs.len());
    let empty: Vec<u32> = Vec::new();
    let empty_aux: Vec<Ext> = Vec::new();
    let mut folder = ProverFolder {
        main: VerifierView::new(&empty, &empty),
        aux: VerifierView::new(&empty_aux, &empty_aux),
        is_first_row: 1,
        is_last_row: 0,
        is_transition: 1,
        alpha_powers: &table,
        accumulator: e(0),
        constraint_index: 0,
    };
    for &c in cs {
        folder.assert_zero_ext(c);
    }
    assert_eq!(folder.constraint_index, cs.len());
    folder.accumulator
}

fn verifier_accumulate(alpha: Ext, cs: &[Ext]) -> Ext {
    let empty: Vec<Ext> = Vec::new();
    let mut folder = VerifierFolder {
        main_local: &empty,
        main_next: &empty,
        aux_local: &empty,
        aux_next: &empty,
        is_first_row: e(0),
        is_last_row: e(0),
        is_transition: e(0),
        alpha,
        accumulator: e(0),
    };
    for &c in cs {
        folder.assert_zero_ext(c);
    }
    folder.accumulator
}

#[test]
fn power_table_is_high_to_low() {
    assert_eq!(alpha_power_table(e(2), 4), vec![e(8), e(4), e(2), e(1)]);
    assert_eq!(alpha_power_table(e(7), 1), vec![e(1)]);
    assert!(alpha_power_table(e(5), 0).is_empty());
}

#[test]
fn power_table_reduces_modulo_the_prime() {
    assert_eq!(alpha_power_table(e(P - 1), 3), vec![e(1), e(P - 1), e(1)]);
}

#[test]
fn power_table_in_the_extension() {
    // X^4 = 11
    let x = Ext { c0: 0, c1: 1, c2: 0, c3: 0 };
    let t = alpha_power_table(x, 5);
    assert_eq!(t[0], e(11));
    assert_eq!(t[1], Ext { c0: 0, c1: 0, c2: 0, c3: 1 });
    assert_eq!(t[4], e(1));
}

#[test]
fn folders_agree_on_small_values() {
    // ((1)·3 + 2)·3 + 5 = 20 = 9·1 + 3·2 + 1·5
    let cs = [e(1), e(2), e(5)];
    assert_eq!(prover_accumulate(e(3), &cs), e(20));
    assert_eq!(verifier_accumulate(e(3), &cs), e(20));
    assert_eq!(fold_at_zeta(&cs.to_vec(), e(3)), e(20));
}

#[test]
fn folders_agree_in_the_extension() {
    let alpha = Ext { c0: 5, c1: 123_456, c2: P - 3, c3: 77 };
    let cs = [
        Ext { c0: 1, c1: 2, c2: 3, c3: 4 },
        e(P - 1),
        Ext { c0: 0, c1: 0, c2: 9, c3: 0 },
        Ext { c0: 999, c1: 1, c2: 0, c3: P - 7 },
    ];
    let a = prover_accumulate(alpha, &cs);
    let b = verifier_accumulate(alpha, &cs);
    assert_eq!(a, b);
    let n = cs.len();
    let expected = cs
        .iter()
        .enumerate()
        .fold(EF::ZERO, |acc, (i, &c)| acc + ef(alpha).exp_u64((n - 1 - i) as u64) * ef(c));
    assert_eq!(a, ex(expected));
}

#[test]
fn folders_on_no_constraints_give_zero() {
    assert_eq!(prover_accumulate(e(9), &[]), e(0));
    assert_eq!(verifier_accumulate(e(9), &[]), e(0));
}

#[test]
fn folder_product_wraps_modulo_the_prime() {
    // (P-1)·(P-1) = 1 modulo P
    assert_eq!(verifier_accumulate(e(P - 1), &[e(P - 1), e(0)]), e(1));
}

#[test]
fn base_assertion_embeds_its_value() {
    let table = alpha_power_table(Ext { c0: 2, c1: 1, c2: 0, c3: 0 }, 2);
    let empty: Vec<u32> = Vec::new();
    let empty_aux: Vec<Ext> = Vec::new();
    let mut folder = ProverFolder {
        main: VerifierView::new(&empty, &empty),
        aux: VerifierView::new(&empty_aux, &empty_aux),
        is_first_row: 0,
        is_last_row: 0,
        is_transition: 0,
        alpha_powers: &table,
        accumulator: e(0),
        constraint_index: 0,
    };
    folder.assert_zero(3);
    folder.assert_zero(P + 4);
    // (2 + X)·3 + 4
    assert_eq!(folder.accumulator, Ext { c0: 10, c1: 3, c2: 0, c3: 0 });
}

#[test]
fn view_reads_rows() {
    let local = vec![1u32, 2, 3];
    let next = vec![4u32, 5, 6];
    let v = VerifierView::new(&local, &next);
    assert_eq!(v.get_local(0), 1);
    assert_eq!(v.get_local(2), 3);
    assert_eq!(v.get_next(1), 5);
    assert_eq!(v.width(), 3);
    assert_eq!(v.height(), 2);
    assert_eq!(v.row_slice(0), Some(&local[..]));
    assert_eq!(v.row_slice(1), Some(&next[..]));
    assert_eq!(v.row_slice(2), None);
}

#[test]
fn folders_expose_selectors_and_rows() {
    let local = vec![7u32];
    let next = vec![8u32];
    let aux_local = vec![e(9)];
    let aux_next = vec![e(10)];
    let table = alpha_power_table(e(2), 2);
    let prover = ProverFolder {
        main: VerifierView::new(&local, &next),
        aux: VerifierView::new(&aux_local, &aux_next),
        is_first_row: 1,
        is_last_row: 0,
        is_transition: 1,
        alpha_powers: &table,
        accumulator: e(0),
        constraint_index: 0,
    };
    assert_eq!(prover.is_first_row(), 1);
    assert_eq!(prover.is_last_row(), 0);
    assert_eq!(prover.is_transition_window(2), 1);
    assert_eq!(prover.main().get_next(0), 8);
    assert_eq!(prover.aux().get_local(0), e(9));

    let main_local = vec![e(7)];
    let main_next = vec![e(8)];
    let verifier = VerifierFolder {
        main_local: &main_local,
        main_next: &main_next,
        aux_local: &aux_local,
        aux_next: &aux_next,
        is_first_row: e(0),
        is_last_row: e(1),
        is_transition: e(0),
        alpha: e(2),
        accumulator: e(0),
    };
    assert_eq!(verifier.is_first_row(), e(0));
    assert_eq!(verifier.is_last_row(), e(1));
    assert_eq!(verifier.is_transition_window(2), e(0));
    assert_eq!(verifier.main().get_local(0), e(7));
    assert_eq!(verifier.aux().get_next(0), e(10));
}
