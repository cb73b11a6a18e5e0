//! Preparing G2 points and the prepared multi-pairing.

use crate::curve::{
    ate_loop_count, ate_loop_count_spec, final_exponentiation, final_exponentiation_result,
    fq12_cyclotomic_inverse, fq12_mul_by_014, fq12_mul_by_034, fq12_mul_by_034_result, fq12_one,
    fq12_one_limbs, fq12_square, fq12_square_result, fq2_mul_by_fp, fq2_scaled, g1_curve_equation,
    g1_on_curve, g2_line_coeffs_result, g2_prepare, twist_type, x_is_negative,
    Twist,
};
use crate::encoding::{fq_group_value, fq_modulus, limbs_reduced, PodG1, PodG2, PodGt, PodPreparedG2};
use crate::PreparedPairingError;
use crate::Version;
use vstd::prelude::*;

verus! {

// ---------------------------------------------------------------------------
// The mathematical model
// ---------------------------------------------------------------------------

/// Four limbs that encode zero in `Fq`.
pub open spec fn fq_limbs_zero(x: Seq<u64>) -> bool {
    x[0] == 0 && x[1] == 0 && x[2] == 0 && x[3] == 0
}

/// The `x` coordinate of a G1 encoding.
pub open spec fn g1_x(p: Seq<u64>) -> Seq<u64> {
    p.subrange(0, 4)
}

/// The `y` coordinate of a G1 encoding.
pub open spec fn g1_y(p: Seq<u64>) -> Seq<u64> {
    p.subrange(4, 8)
}

/// A G1 encoding with both coordinates zero stands for the identity.
pub open spec fn g1_is_identity(p: Seq<u64>) -> bool {
    fq_limbs_zero(g1_x(p)) && fq_limbs_zero(g1_y(p))
}

/// A G1 input is accepted when it is the identity or lies on the curve.
pub open spec fn g1_acceptable(p: Seq<u64>) -> bool {
    g1_is_identity(p) || g1_curve_equation(g1_x(p), g1_y(p))
}

/// Every G1 input is accepted.
pub open spec fn all_g1_acceptable(g1s: Seq<PodG1>) -> bool {
    forall|j: int| 0 <= j < g1s.len() ==> #[trigger] g1_acceptable(g1s[j].0@)
}

/// Every G1 input is the identity.
pub open spec fn all_g1_identity(g1s: Seq<PodG1>) -> bool {
    forall|j: int| 0 <= j < g1s.len() ==> #[trigger] g1_is_identity(g1s[j].0@)
}

/// Every G1 input is reduced.
pub open spec fn all_g1_wf(g1s: Seq<PodG1>) -> bool {
    forall|j: int| 0 <= j < g1s.len() ==> (#[trigger] g1s[j]).wf()
}

/// Every prepared G2 input is reduced.
pub open spec fn all_prepared_wf(preps: Seq<PodPreparedG2>) -> bool {
    forall|j: int| 0 <= j < preps.len() ==> (#[trigger] preps[j]).wf()
}

/// Evaluating the line with coefficients `coeff = (c0, c1, c2)` at the G1
/// point `p` and multiplying it into `f` (D-type twist: `c0` is scaled by
/// `y`, `c1` by `x`, then `f * (c0 + c1 w^3 + c2 w^4)`). The identity leaves
/// `f` as it is.
pub open spec fn line_eval(f: Seq<u64>, coeff: Seq<u64>, p: Seq<u64>) -> Seq<u64> {
    if g1_is_identity(p) {
        f
    } else {
        fq12_mul_by_034_result(
            f,
            fq2_scaled(coeff.subrange(0, 8), g1_y(p)),
            fq2_scaled(coeff.subrange(8, 16), g1_x(p)),
            coeff.subrange(16, 24),
        )
    }
}

/// Multiplying into `f` the lines of the first `k` pairs, all taken from
/// coefficient `idx` of their prepared G2 point.
pub open spec fn apply_lines(
    f: Seq<u64>,
    g1s: Seq<PodG1>,
    preps: Seq<PodPreparedG2>,
    idx: int,
    k: int,
) -> Seq<u64>
    decreases k,
{
    if k <= 0 {
        f
    } else {
        line_eval(apply_lines(f, g1s, preps, idx, k - 1), preps[k - 1].0@[idx]@, g1s[k - 1].0@)
    }
}

/// Whether a loop digit calls for an addition step.
pub open spec fn digit_adds(d: i8) -> bool {
    d == 1 || d == -1
}

/// The coefficient index reached after the first `m` Miller-loop steps:
/// each step uses one coefficient, and one more when its digit is nonzero.
pub open spec fn loop_index(lc: Seq<i8>, m: int) -> int
    decreases m,
{
    if m <= 0 {
        0
    } else {
        loop_index(lc, m - 1) + 1 + if digit_adds(lc[lc.len() - m - 1]) { 1int } else { 0int }
    }
}

/// The Miller accumulator after the first `m` steps. Step `m` handles the
/// digit position `i = lc.len() - m`: it squares (except in the first step),
/// multiplies in the doubling lines, and, when digit `i - 1` is nonzero, the
/// addition lines too.
pub open spec fn miller_acc(g1s: Seq<PodG1>, preps: Seq<PodPreparedG2>, lc: Seq<i8>, m: int) -> Seq<u64>
    decreases m,
{
    if m <= 0 {
        fq12_one_limbs()
    } else {
        let prev = miller_acc(g1s, preps, lc, m - 1);
        let idx = loop_index(lc, m - 1);
        let sq = if m == 1 { prev } else { fq12_square_result(prev) };
        let dbl = apply_lines(sq, g1s, preps, idx, g1s.len() as int);
        if digit_adds(lc[lc.len() - m - 1]) {
            apply_lines(dbl, g1s, preps, idx + 1, g1s.len() as int)
        } else {
            dbl
        }
    }
}

/// The Miller-loop output: all steps, then the two closing lines.
pub open spec fn miller_output(g1s: Seq<PodG1>, preps: Seq<PodPreparedG2>) -> Seq<u64> {
    let lc = ate_loop_count_spec();
    let steps = lc.len() - 1;
    let f = miller_acc(g1s, preps, lc, steps);
    let idx = loop_index(lc, steps);
    apply_lines(
        apply_lines(f, g1s, preps, idx, g1s.len() as int),
        g1s,
        preps,
        idx + 1,
        g1s.len() as int,
    )
}

/// What the prepared pairing yields: the unit for no pairs, a refusal when
/// some G1 input is invalid, and otherwise the final exponentiation of the
/// Miller-loop output.
pub open spec fn pairing_prepared_spec(g1s: Seq<PodG1>, preps: Seq<PodPreparedG2>) -> Result<
    Seq<u64>,
    PreparedPairingError,
> {
    if g1s.len() == 0 {
        Ok(fq12_one_limbs())
    } else if !all_g1_acceptable(g1s) {
        Err(PreparedPairingError::InvalidG1)
    } else {
        match final_exponentiation_result(miller_output(g1s, preps)) {
            Some(g) => Ok(g),
            None => Err(PreparedPairingError::FinalExponentiationFailed),
        }
    }
}

// ---------------------------------------------------------------------------
// Lemmas on the coefficient index
// ---------------------------------------------------------------------------

proof fn lemma_loop_index_monotonic(lc: Seq<i8>, a: int, b: int)
    requires
        0 <= a <= b,
    ensures
        loop_index(lc, a) <= loop_index(lc, b),
    decreases b - a,
{
    if a < b {
        lemma_loop_index_monotonic(lc, a, b - 1);
    }
}

/// The loop consumes 85 coefficients; the two closing lines take the last two.
pub proof fn lemma_loop_index_total()
    ensures
        loop_index(ate_loop_count_spec(), 64) == 85,
{
    let lc = ate_loop_count_spec();
    assert(loop_index(lc, 0) == 0);
    assert(loop_index(lc, 1) == 2);
    assert(loop_index(lc, 2) == 3);
    assert(loop_index(lc, 3) == 5);
    assert(loop_index(lc, 4) == 6);
    assert(loop_index(lc, 5) == 7);
    assert(loop_index(lc, 6) == 8);
    assert(loop_index(lc, 7) == 10);
    assert(loop_index(lc, 8) == 11);
    assert(loop_index(lc, 9) == 13);
    assert(loop_index(lc, 10) == 14);
    assert(loop_index(lc, 11) == 15);
    assert(loop_index(lc, 12) == 16);
    assert(loop_index(lc, 13) == 18);
    assert(loop_index(lc, 14) == 19);
    assert(loop_index(lc, 15) == 21);
    assert(loop_index(lc, 16) == 22);
    assert(loop_index(lc, 17) == 24);
    assert(loop_index(lc, 18) == 25);
    assert(loop_index(lc, 19) == 26);
    assert(loop_index(lc, 20) == 28);
    assert(loop_index(lc, 21) == 29);
    assert(loop_index(lc, 22) == 30);
    assert(loop_index(lc, 23) == 31);
    assert(loop_index(lc, 24) == 32);
    assert(loop_index(lc, 25) == 33);
    assert(loop_index(lc, 26) == 35);
    assert(loop_index(lc, 27) == 36);
    assert(loop_index(lc, 28) == 37);
    assert(loop_index(lc, 29) == 39);
    assert(loop_index(lc, 30) == 40);
    assert(loop_index(lc, 31) == 42);
    assert(loop_index(lc, 32) == 43);
    assert(loop_index(lc, 33) == 44);
    assert(loop_index(lc, 34) == 46);
    assert(loop_index(lc, 35) == 47);
    assert(loop_index(lc, 36) == 48);
    assert(loop_index(lc, 37) == 49);
    assert(loop_index(lc, 38) == 50);
    assert(loop_index(lc, 39) == 52);
    assert(loop_index(lc, 40) == 53);
    assert(loop_index(lc, 41) == 55);
    assert(loop_index(lc, 42) == 56);
    assert(loop_index(lc, 43) == 57);
    assert(loop_index(lc, 44) == 58);
    assert(loop_index(lc, 45) == 60);
    assert(loop_index(lc, 46) == 61);
    assert(loop_index(lc, 47) == 63);
    assert(loop_index(lc, 48) == 64);
    assert(loop_index(lc, 49) == 65);
    assert(loop_index(lc, 50) == 67);
    assert(loop_index(lc, 51) == 68);
    assert(loop_index(lc, 52) == 69);
    assert(loop_index(lc, 53) == 70);
    assert(loop_index(lc, 54) == 72);
    assert(loop_index(lc, 55) == 73);
    assert(loop_index(lc, 56) == 74);
    assert(loop_index(lc, 57) == 76);
    assert(loop_index(lc, 58) == 77);
    assert(loop_index(lc, 59) == 79);
    assert(loop_index(lc, 60) == 80);
    assert(loop_index(lc, 61) == 82);
    assert(loop_index(lc, 62) == 83);
    assert(loop_index(lc, 63) == 84);
    assert(loop_index(lc, 64) == 85);
}

/// Whole base-field coefficients cut out of a reduced encoding are reduced.
proof fn lemma_subrange_reduced(s: Seq<u64>, g: int, h: int)
    requires
        limbs_reduced(s),
        0 <= g <= h <= s.len() / 4,
    ensures
        limbs_reduced(s.subrange(4 * g, 4 * h)),
{
    let sub = s.subrange(4 * g, 4 * h);
    assert(sub.len() == 4 * (h - g));
    assert(sub.len() / 4 == h - g);
    assert forall|k: int| 0 <= k < sub.len() / 4 implies #[trigger] fq_group_value(sub, k)
        < fq_modulus() by {
        assert(fq_group_value(sub, k) == fq_group_value(s, k + g));
    }
}

/// With only identity G1 points, no line changes the accumulator.
proof fn lemma_apply_lines_all_identity(
    f: Seq<u64>,
    g1s: Seq<PodG1>,
    preps: Seq<PodPreparedG2>,
    idx: int,
    k: int,
)
    requires
        all_g1_identity(g1s),
        k <= g1s.len(),
    ensures
        apply_lines(f, g1s, preps, idx, k) == f,
    decreases k,
{
    if k > 0 {
        lemma_apply_lines_all_identity(f, g1s, preps, idx, k - 1);
        assert(g1_is_identity(g1s[k - 1].0@));
    }
}

// ---------------------------------------------------------------------------
// Laws
// ---------------------------------------------------------------------------

/// Lines over the input with an identity pair inserted at position `j` equal
/// lines over the input without it, counting up to the same pairs.
proof fn lemma_apply_lines_insert_identity(
    f: Seq<u64>,
    g1s: Seq<PodG1>,
    preps: Seq<PodPreparedG2>,
    p: PodG1,
    q: PodPreparedG2,
    j: int,
    idx: int,
    k: int,
)
    requires
        g1s.len() == preps.len(),
        0 <= j <= g1s.len(),
        0 <= k <= g1s.len() + 1,
        g1_is_identity(p.0@),
    ensures
        apply_lines(f, g1s.insert(j, p), preps.insert(j, q), idx, k) == apply_lines(
            f,
            g1s,
            preps,
            idx,
            if k <= j { k } else { k - 1 },
        ),
    decreases k,
{
    g1s.insert_ensures(j, p);
    preps.insert_ensures(j, q);
    if k > 0 {
        lemma_apply_lines_insert_identity(f, g1s, preps, p, q, j, idx, k - 1);
        if k - 1 < j {
            assert(g1s.insert(j, p)[k - 1] == g1s[k - 1]);
            assert(preps.insert(j, q)[k - 1] == preps[k - 1]);
        } else if k - 1 == j {
            assert(g1s.insert(j, p)[k - 1] == p);
        } else {
            assert(g1s.insert(j, p)[(k - 2) + 1] == g1s[k - 2]);
            assert(preps.insert(j, q)[(k - 2) + 1] == preps[k - 2]);
        }
    }
}

proof fn lemma_miller_acc_insert_identity(
    g1s: Seq<PodG1>,
    preps: Seq<PodPreparedG2>,
    p: PodG1,
    q: PodPreparedG2,
    j: int,
    lc: Seq<i8>,
    m: int,
)
    requires
        g1s.len() == preps.len(),
        0 <= j <= g1s.len(),
        g1_is_identity(p.0@),
    ensures
        miller_acc(g1s.insert(j, p), preps.insert(j, q), lc, m) == miller_acc(g1s, preps, lc, m),
    decreases m,
{
    g1s.insert_ensures(j, p);
    if m > 0 {
        lemma_miller_acc_insert_identity(g1s, preps, p, q, j, lc, m - 1);
        let prev = miller_acc(g1s, preps, lc, m - 1);
        let idx = loop_index(lc, m - 1);
        let sq = if m == 1 { prev } else { fq12_square_result(prev) };
        lemma_apply_lines_insert_identity(sq, g1s, preps, p, q, j, idx, g1s.len() + 1int);
        let dbl = apply_lines(sq, g1s, preps, idx, g1s.len() as int);
        lemma_apply_lines_insert_identity(dbl, g1s, preps, p, q, j, idx + 1, g1s.len() + 1int);
    }
}

/// A pair whose G1 point is the identity (all limbs zero) changes nothing:
/// inserting it, with any prepared G2 point, at any position of a nonempty
/// input leaves the prepared pairing's result as it was, whether a value or
/// a refusal. (For the empty input, `alt_bn128_pairing_prepared` ensures that
/// inputs made only of identity G1 points give one, as the empty input does.)
pub proof fn law_identity_pair_is_ignored(
    g1s: Seq<PodG1>,
    preps: Seq<PodPreparedG2>,
    p: PodG1,
    q: PodPreparedG2,
    j: int,
)
    requires
        g1s.len() == preps.len(),
        g1s.len() > 0,
        0 <= j <= g1s.len(),
        g1_is_identity(p.0@),
    ensures
        pairing_prepared_spec(g1s.insert(j, p), preps.insert(j, q)) == pairing_prepared_spec(
            g1s,
            preps,
        ),
{
    g1s.insert_ensures(j, p);
    preps.insert_ensures(j, q);
    let g1s2 = g1s.insert(j, p);
    let preps2 = preps.insert(j, q);
    let lc = ate_loop_count_spec();
    let steps = lc.len() - 1;
    lemma_miller_acc_insert_identity(g1s, preps, p, q, j, lc, steps);
    let f = miller_acc(g1s, preps, lc, steps);
    let idx = loop_index(lc, steps);
    lemma_apply_lines_insert_identity(f, g1s, preps, p, q, j, idx, g1s.len() + 1int);
    let f1 = apply_lines(f, g1s, preps, idx, g1s.len() as int);
    lemma_apply_lines_insert_identity(f1, g1s, preps, p, q, j, idx + 1, g1s.len() + 1int);
    assert(miller_output(g1s2, preps2) == miller_output(g1s, preps));
    assert(g1_acceptable(p.0@));
    assert(all_g1_acceptable(g1s2) == all_g1_acceptable(g1s)) by {
        if all_g1_acceptable(g1s) {
            assert forall|t: int| 0 <= t < g1s2.len() implies #[trigger] g1_acceptable(
                g1s2[t].0@,
            ) by {
                if t < j {
                    assert(g1s2[t] == g1s[t]);
                } else if t > j {
                    assert(g1s2[(t - 1) + 1] == g1s[t - 1]);
                }
            }
        }
        if all_g1_acceptable(g1s2) {
            assert forall|t: int| 0 <= t < g1s.len() implies #[trigger] g1_acceptable(g1s[t].0@) by {
                if t < j {
                    assert(g1s2[t] == g1s[t]);
                } else {
                    assert(g1s2[t + 1] == g1s[t]);
                }
            }
        }
    }
}

/// The identity is encoded by all-zero limbs and by nothing else.
pub proof fn law_identity_encoding_is_all_zero(p: PodG1)
    ensures
        g1_is_identity(p.0@) <==> (forall|i: int| 0 <= i < 8 ==> p.0@[i] == 0),
{
    if g1_is_identity(p.0@) {
        assert forall|i: int| 0 <= i < 8 implies p.0@[i] == 0 by {
            if i < 4 {
                assert(g1_x(p.0@)[i] == p.0@[i]);
            } else {
                assert(g1_y(p.0@)[i - 4] == p.0@[i]);
            }
        }
    }
}

// ---------------------------------------------------------------------------
// Executable code
// ---------------------------------------------------------------------------

/// Whether four limbs encode zero in `Fq` (`Fq::is_zero` compares with the
/// all-zero encoding).
fn fq_is_zero(x: &[u64; 4]) -> (r: bool)
    ensures
        r == fq_limbs_zero(x@),
{
    x[0] == 0 && x[1] == 0 && x[2] == 0 && x[3] == 0
}

/// Splits a G1 encoding into its coordinates.
fn pod_g1_xy(p: &PodG1) -> (r: ([u64; 4], [u64; 4]))
    ensures
        r.0@ == g1_x(p.0@),
        r.1@ == g1_y(p.0@),
        r.0@ == seq![p.0[0], p.0[1], p.0[2], p.0[3]],
        r.1@ == seq![p.0[4], p.0[5], p.0[6], p.0[7]],
{
    let x = [p.0[0], p.0[1], p.0[2], p.0[3]];
    let y = [p.0[4], p.0[5], p.0[6], p.0[7]];
    assert(x@ =~= g1_x(p.0@));
    assert(y@ =~= g1_y(p.0@));
    (x, y)
}

/// Multiplies into `f` the line with coefficients `coeffs` evaluated at `p`.
fn ell(f: &mut PodGt, coeffs: &[u64; 24], p: &PodG1)
    requires
        limbs_reduced(old(f).0@),
        limbs_reduced(coeffs@),
        p.wf(),
    ensures
        final(f).0@ == line_eval(old(f).0@, coeffs@, p.0@),
        limbs_reduced(final(f).0@),
{
    let (x, y) = pod_g1_xy(p);
    if fq_is_zero(&x) && fq_is_zero(&y) {
        return;
    }
    proof {
        lemma_subrange_reduced(p.0@, 0, 1);
        lemma_subrange_reduced(p.0@, 1, 2);
        lemma_subrange_reduced(coeffs@, 0, 2);
        lemma_subrange_reduced(coeffs@, 2, 4);
        lemma_subrange_reduced(coeffs@, 4, 6);
    }
    let c0 = [coeffs[0], coeffs[1], coeffs[2], coeffs[3], coeffs[4], coeffs[5], coeffs[6], coeffs[7]];
    let c1 = [coeffs[8], coeffs[9], coeffs[10], coeffs[11], coeffs[12], coeffs[13], coeffs[14], coeffs[15]];
    let c2 = [coeffs[16], coeffs[17], coeffs[18], coeffs[19], coeffs[20], coeffs[21], coeffs[22], coeffs[23]];
    assert(c0@ =~= coeffs@.subrange(0, 8));
    assert(c1@ =~= coeffs@.subrange(8, 16));
    assert(c2@ =~= coeffs@.subrange(16, 24));
    match twist_type() {
        Twist::M => {
            let c2 = fq2_mul_by_fp(&c2, &y);
            let c1 = fq2_mul_by_fp(&c1, &x);
            *f = fq12_mul_by_014(f, &c0, &c1, &c2);
        },
        Twist::D => {
            let c0 = fq2_mul_by_fp(&c0, &y);
            let c1 = fq2_mul_by_fp(&c1, &x);
            *f = fq12_mul_by_034(f, &c0, &c1, &c2);
        },
    }
}

/// Multiplies into `f` the lines of every pair, each from coefficient `idx`
/// of its prepared G2 point.
fn ell_all(f: &mut PodGt, g1s: &[PodG1], g2_preps: &[PodPreparedG2], idx: usize)
    requires
        g1s@.len() == g2_preps@.len(),
        idx < 87,
        limbs_reduced(old(f).0@),
        all_g1_wf(g1s@),
        all_prepared_wf(g2_preps@),
    ensures
        final(f).0@ == apply_lines(old(f).0@, g1s@, g2_preps@, idx as int, g1s@.len() as int),
        limbs_reduced(final(f).0@),
{
    let ghost start = f.0@;
    let n = g1s.len();
    let mut j: usize = 0;
    while j < n
        invariant
            n == g1s@.len(),
            g1s@.len() == g2_preps@.len(),
            idx < 87,
            j <= n,
            all_g1_wf(g1s@),
            all_prepared_wf(g2_preps@),
            limbs_reduced(f.0@),
            f.0@ == apply_lines(start, g1s@, g2_preps@, idx as int, j as int),
        decreases n - j,
    {
        assert(g1s@[j as int].wf());
        assert(g2_preps@[j as int].wf());
        assert(limbs_reduced(g2_preps@[j as int].0@[idx as int]@));
        ell(f, &g2_preps[j].0[idx], &g1s[j]);
        j = j + 1;
    }
}

/// Computes the line coefficients of a finite G2 point with reduced
/// coordinates.
///
/// The point at infinity has no coefficients; it is refused by `requires`.
pub fn prepare_g2(g2: &PodG2) -> (r: PodPreparedG2)
    requires
        g2.wf(),
        !g2.infinity,
    ensures
        g2_line_coeffs_result(g2.x@, g2.y@).len() == 87,
        forall|k: int| 0 <= k < 87 ==> (#[trigger] r.0@[k])@ == g2_line_coeffs_result(g2.x@, g2.y@)[k],
        r.wf(),
{
    let (infinity, coeffs) = g2_prepare(g2);
    assert(!infinity);
    assert(coeffs.len() == 87);
    let mut out = [[0u64; 24]; 87];
    let mut k: usize = 0;
    while k < 87
        invariant
            !g2.infinity,
            coeffs@.len() == 87,
            coeffs@.len() == g2_line_coeffs_result(g2.x@, g2.y@).len(),
            forall|t: int|
                0 <= t < coeffs@.len() ==> (#[trigger] coeffs@[t])@ == g2_line_coeffs_result(g2.x@, g2.y@)[t],
            forall|t: int| 0 <= t < coeffs@.len() ==> limbs_reduced((#[trigger] coeffs@[t])@),
            k <= 87,
            forall|t: int| 0 <= t < k ==> (#[trigger] out@[t])@ == g2_line_coeffs_result(g2.x@, g2.y@)[t],
            forall|t: int| 0 <= t < k ==> limbs_reduced((#[trigger] out@[t])@),
        decreases 87 - k,
    {
        out[k] = coeffs[k];
        k = k + 1;
    }
    PodPreparedG2(out)
}

/// Whether one G1 input is accepted: the identity, or reduced coordinates
/// on the curve.
fn g1_check(p: &PodG1) -> (r: bool)
    requires
        p.wf(),
    ensures
        r == g1_acceptable(p.0@),
{
    let (x, y) = pod_g1_xy(p);
    if fq_is_zero(&x) && fq_is_zero(&y) {
        return true;
    }
    proof {
        lemma_subrange_reduced(p.0@, 0, 1);
        lemma_subrange_reduced(p.0@, 1, 2);
    }
    g1_on_curve(&x, &y)
}

/// The BN254 multi-pairing of `g1s[j]` with the G2 points whose prepared
/// coefficients are `g2_preps[j]`. The G1 limbs must be reduced, and so
/// must the prepared coefficients whenever every G1 input is accepted (they
/// are not read otherwise).
///
/// No pairs give the unit of `Fq12`, and so do inputs whose G1 points are
/// all the identity. A G1 input that is neither all-zero nor on the curve
/// gives `InvalidG1`. Otherwise the result is the final exponentiation of the
/// Miller-loop output, or `FinalExponentiationFailed` when that output
/// cannot be inverted.
pub fn alt_bn128_pairing_prepared(
    _version: Version,
    g1s: &[PodG1],
    g2_preps: &[PodPreparedG2],
) -> (r: Result<PodGt, PreparedPairingError>)
    requires
        g1s@.len() == g2_preps@.len(),
        all_g1_wf(g1s@),
        all_g1_acceptable(g1s@) ==> all_prepared_wf(g2_preps@),
    ensures
        match r {
            Ok(gt) => pairing_prepared_spec(g1s@, g2_preps@) == Ok::<Seq<u64>, PreparedPairingError>(gt.0@),
            Err(e) => pairing_prepared_spec(g1s@, g2_preps@) == Err::<Seq<u64>, PreparedPairingError>(e),
        },
        all_g1_identity(g1s@) ==> (r is Ok && r.unwrap().0@ == fq12_one_limbs()),
        r is Ok ==> r.unwrap().wf(),
{
    let n = g1s.len();
    if n == 0 {
        return Ok(fq12_one());
    }
    let mut j: usize = 0;
    while j < n
        invariant
            n == g1s@.len(),
            j <= n,
            all_g1_wf(g1s@),
            forall|t: int| 0 <= t < j ==> #[trigger] g1_acceptable(g1s@[t].0@),
        decreases n - j,
    {
        assert(g1s@[j as int].wf());
        if !g1_check(&g1s[j]) {
            return Err(PreparedPairingError::InvalidG1);
        }
        j = j + 1;
    }
    assert(all_g1_acceptable(g1s@));
    let f = miller_loop(g1s, g2_preps);
    match final_exponentiation(&f) {
        Some(gt) => Ok(gt),
        None => Err(PreparedPairingError::FinalExponentiationFailed),
    }
}

/// The Miller loop over all pairs, with the two closing lines.
fn miller_loop(g1s: &[PodG1], g2_preps: &[PodPreparedG2]) -> (f: PodGt)
    requires
        g1s@.len() == g2_preps@.len(),
        all_g1_wf(g1s@),
        all_prepared_wf(g2_preps@),
    ensures
        f.0@ == miller_output(g1s@, g2_preps@),
        limbs_reduced(f.0@),
        all_g1_identity(g1s@) ==> f.0@ == fq12_one_limbs(),
{
    let n = g1s.len();
    let loop_count = ate_loop_count();
    let len = loop_count.len();
    let ghost lc = ate_loop_count_spec();
    proof {
        lemma_loop_index_total();
    }
    let mut f = fq12_one();
    let mut idx: usize = 0;
    let mut i: usize = len - 1;
    while i >= 1
        invariant
            loop_count@ == lc,
            lc == ate_loop_count_spec(),
            len == 65,
            g1s@.len() == g2_preps@.len(),
            n == g1s@.len(),
            all_g1_wf(g1s@),
            all_prepared_wf(g2_preps@),
            i <= 64,
            idx == loop_index(lc, 64 - i),
            loop_index(lc, 64) == 85,
            f.0@ == miller_acc(g1s@, g2_preps@, lc, 64 - i),
            limbs_reduced(f.0@),
            all_g1_identity(g1s@) ==> f.0@ == fq12_one_limbs(),
        decreases i,
    {
        let ghost m = 64 - i + 1;
        proof {
            lemma_loop_index_monotonic(lc, m, 64);
        }
        if i != len - 1 {
            f = fq12_square(&f);
        }
        let ghost before = f.0@;
        ell_all(&mut f, g1s, g2_preps, idx);
        proof {
            if all_g1_identity(g1s@) {
                lemma_apply_lines_all_identity(before, g1s@, g2_preps@, idx as int, n as int);
            }
        }
        idx = idx + 1;
        let bit = loop_count[i - 1];
        if bit == 1 || bit == -1 {
            let ghost before = f.0@;
            ell_all(&mut f, g1s, g2_preps, idx);
            proof {
                if all_g1_identity(g1s@) {
                    lemma_apply_lines_all_identity(before, g1s@, g2_preps@, idx as int, n as int);
                }
            }
            idx = idx + 1;
        }
        i = i - 1;
    }

    if x_is_negative() {
        f = fq12_cyclotomic_inverse(&f);
    }
    let ghost before = f.0@;
    ell_all(&mut f, g1s, g2_preps, idx);
    proof {
        if all_g1_identity(g1s@) {
            lemma_apply_lines_all_identity(before, g1s@, g2_preps@, idx as int, n as int);
        }
    }
    idx = idx + 1;
    let ghost before = f.0@;
    ell_all(&mut f, g1s, g2_preps, idx);
    proof {
        if all_g1_identity(g1s@) {
            lemma_apply_lines_all_identity(before, g1s@, g2_preps@, idx as int, n as int);
        }
    }
    assert(idx + 1 == 87);
    f
}

} // verus!
