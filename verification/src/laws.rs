//! What the prepared pairing does, stated over the raw limbs of its inputs.

use crate::curve::{ate_loop_count_spec, fq12_mul_by_034_result, fq_limbs_of, fq_mont_mul, montgomery_r};
use crate::encoding::{fq_modulus, fq_value4, PodG1, PodPreparedG2};
use crate::pairing::{
    all_g1_acceptable, apply_lines, lemma_loop_index_total, loop_index, g1_acceptable, g1_is_identity, g1_x, g1_y, line_eval,
    pairing_prepared_spec,
};
use crate::PreparedPairingError;
use vstd::prelude::*;

verus! {

/// The eight limbs of a G1 encoding are all zero.
pub open spec fn limbs8_all_zero(l: Seq<u64>) -> bool {
    forall|i: int| 0 <= i < 8 ==> l[i] == 0
}

/// `y^2 = x^3 + 3` for `x` in limbs `0..4` and `y` in limbs `4..8`, both in
/// Montgomery form (standing for `x * R^-1`, `y * R^-1`), multiplied
/// through by `R^3`.
pub open spec fn limbs8_on_bn254_curve(l: Seq<u64>) -> bool {
    let x = fq_value4(l[0], l[1], l[2], l[3]);
    let y = fq_value4(l[4], l[5], l[6], l[7]);
    let r = montgomery_r();
    (y * y * r) % fq_modulus() == (x * x * x + 3 * r * r * r) % fq_modulus()
}

proof fn lemma_acceptable_iff_zero_or_on_curve(l: Seq<u64>)
    requires
        l.len() == 8,
    ensures
        g1_acceptable(l) <==> (limbs8_all_zero(l) || limbs8_on_bn254_curve(l)),
{
    assert(g1_x(l)[0] == l[0] && g1_x(l)[1] == l[1] && g1_x(l)[2] == l[2] && g1_x(l)[3] == l[3]);
    assert(g1_y(l)[0] == l[4] && g1_y(l)[1] == l[5] && g1_y(l)[2] == l[6] && g1_y(l)[3] == l[7]);
    if limbs8_all_zero(l) {
        assert(l[0] == 0 && l[1] == 0 && l[2] == 0 && l[3] == 0);
        assert(l[4] == 0 && l[5] == 0 && l[6] == 0 && l[7] == 0);
    }
    if g1_is_identity(l) {
        assert forall|i: int| 0 <= i < 8 implies l[i] == 0 by {
            if i < 4 {
                assert(g1_x(l)[i] == l[i]);
            } else {
                assert(g1_y(l)[i - 4] == l[i]);
            }
        }
    }
}

/// Validation: the pairing refuses its input with `InvalidG1` exactly when
/// some G1 input, at any position, is neither all-zero limbs nor a point of
/// `y^2 = x^3 + 3`; one such point is enough, whatever the others are and
/// whatever the prepared G2 points hold.
pub proof fn law_invalid_g1_exactly_when_some_point_is_off_curve(
    g1s: Seq<PodG1>,
    preps: Seq<PodPreparedG2>,
)
    requires
        g1s.len() == preps.len(),
    ensures
        (pairing_prepared_spec(g1s, preps) == Err::<Seq<u64>, PreparedPairingError>(
            PreparedPairingError::InvalidG1,
        )) <==> (exists|j: int|
            0 <= j < g1s.len() && !limbs8_all_zero(#[trigger] g1s[j].0@) && !limbs8_on_bn254_curve(
                g1s[j].0@,
            )),
{
    if exists|j: int|
        0 <= j < g1s.len() && !limbs8_all_zero(#[trigger] g1s[j].0@) && !limbs8_on_bn254_curve(
            g1s[j].0@,
        ) {
        let j = choose|j: int|
            0 <= j < g1s.len() && !limbs8_all_zero(#[trigger] g1s[j].0@) && !limbs8_on_bn254_curve(
                g1s[j].0@,
            );
        lemma_acceptable_iff_zero_or_on_curve(g1s[j].0@);
        assert(!all_g1_acceptable(g1s));
    } else {
        assert forall|j: int| 0 <= j < g1s.len() implies #[trigger] g1_acceptable(g1s[j].0@) by {
            lemma_acceptable_iff_zero_or_on_curve(g1s[j].0@);
        }
        assert(all_g1_acceptable(g1s));
    }
}

/// One line: at the identity (all-zero limbs) it leaves `f` as it is; at any
/// other G1 point `(x, y)` (limbs `0..4` and `4..8`) it multiplies `f` by the
/// sparse element built from the coefficient `(c0, c1, c2)` (limbs `0..8`,
/// `8..16`, `16..24`) with `c0` scaled by `y` and `c1` scaled by `x`, each
/// `Fq` coefficient by a Montgomery product, whatever the values of `x` and
/// `y`.
pub proof fn law_line_scales_c0_by_y_and_c1_by_x(f: Seq<u64>, coeff: Seq<u64>, p: Seq<u64>)
    requires
        coeff.len() == 24,
        p.len() == 8,
    ensures
        limbs8_all_zero(p) ==> line_eval(f, coeff, p) == f,
        !limbs8_all_zero(p) ==> line_eval(f, coeff, p) == {
            let x = fq_value4(p[0], p[1], p[2], p[3]);
            let y = fq_value4(p[4], p[5], p[6], p[7]);
            fq12_mul_by_034_result(
                f,
                fq_limbs_of(fq_mont_mul(fq_value4(coeff[0], coeff[1], coeff[2], coeff[3]), y))
                    + fq_limbs_of(fq_mont_mul(fq_value4(coeff[4], coeff[5], coeff[6], coeff[7]), y)),
                fq_limbs_of(fq_mont_mul(fq_value4(coeff[8], coeff[9], coeff[10], coeff[11]), x))
                    + fq_limbs_of(
                    fq_mont_mul(fq_value4(coeff[12], coeff[13], coeff[14], coeff[15]), x),
                ),
                coeff.subrange(16, 24),
            )
        },
{
    assert(g1_x(p)[0] == p[0] && g1_x(p)[1] == p[1] && g1_x(p)[2] == p[2] && g1_x(p)[3] == p[3]);
    assert(g1_y(p)[0] == p[4] && g1_y(p)[1] == p[5] && g1_y(p)[2] == p[6] && g1_y(p)[3] == p[7]);
    let c0 = coeff.subrange(0, 8);
    let c1 = coeff.subrange(8, 16);
    assert(c0[0] == coeff[0] && c0[1] == coeff[1] && c0[2] == coeff[2] && c0[3] == coeff[3]);
    assert(c0[4] == coeff[4] && c0[5] == coeff[5] && c0[6] == coeff[6] && c0[7] == coeff[7]);
    assert(c1[0] == coeff[8] && c1[1] == coeff[9] && c1[2] == coeff[10] && c1[3] == coeff[11]);
    assert(c1[4] == coeff[12] && c1[5] == coeff[13] && c1[6] == coeff[14] && c1[7] == coeff[15]);
    if limbs8_all_zero(p) {
        assert(p[0] == 0 && p[1] == 0 && p[2] == 0 && p[3] == 0);
        assert(p[4] == 0 && p[5] == 0 && p[6] == 0 && p[7] == 0);
    } else {
        if g1_is_identity(p) {
            assert forall|i: int| 0 <= i < 8 implies p[i] == 0 by {
                if i < 4 {
                    assert(g1_x(p)[i] == p[i]);
                } else {
                    assert(g1_y(p)[i - 4] == p[i]);
                }
            }
        }
    }
}

/// The coordinates of a G1 encoding are its two halves: `x` is limbs `0..4`
/// and `y` is limbs `4..8`, each read as it stands whatever the other holds.
pub proof fn law_g1_coordinates_are_the_limb_halves(p: PodG1)
    ensures
        g1_x(p.0@) == seq![p.0[0], p.0[1], p.0[2], p.0[3]],
        g1_y(p.0@) == seq![p.0[4], p.0[5], p.0[6], p.0[7]],
{
    assert(g1_x(p.0@) =~= seq![p.0[0], p.0[1], p.0[2], p.0[3]]);
    assert(g1_y(p.0@) =~= seq![p.0[4], p.0[5], p.0[6], p.0[7]]);
}

/// The lines of the pairs are multiplied in input order: after the first
/// `k` pairs, pair `k` contributes its own line, from coefficient `idx` of its
/// own prepared G2 point, evaluated at its own G1 point; no pairs leave `f`
/// unchanged.
pub proof fn law_lines_follow_the_pairs_in_order(
    f: Seq<u64>,
    g1s: Seq<PodG1>,
    preps: Seq<PodPreparedG2>,
    idx: int,
    k: int,
)
    requires
        0 <= k < g1s.len(),
        g1s.len() == preps.len(),
    ensures
        apply_lines(f, g1s, preps, idx, 0) == f,
        apply_lines(f, g1s, preps, idx, k + 1) == line_eval(
            apply_lines(f, g1s, preps, idx, k),
            preps[k].0@[idx]@,
            g1s[k].0@,
        ),
{
}

/// The Miller loop's 64 steps take 85 coefficients (one per step, one more
/// per nonzero digit of `ATE_LOOP_COUNT` below the top, of which there are
/// 21), so the two closing lines take coefficients 85 and 86: all 87
/// coefficients of a prepared G2 point are used, each once.
pub proof fn law_miller_loop_uses_all_87_coefficients()
    ensures
        loop_index(ate_loop_count_spec(), 64) == 85,
        loop_index(ate_loop_count_spec(), 64) + 2 == 87,
{
    lemma_loop_index_total();
}

} // verus!
