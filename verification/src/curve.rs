//! The BN254 arithmetic that this library takes from arkworks.
//!
//! Every item here is trusted: its contract restates what the arkworks
//! source shows. Field elements cross the boundary as Montgomery-form `u64`
//! limbs, coefficient by coefficient in tower order (`Fq2 = c0, c1`;
//! `Fq6 = c0, c1, c2`; `Fq12 = c0, c1`), which is the order of arkworks'
//! `to_base_prime_field_elements` and `from_base_prime_field_elems`.

use crate::encoding::{fq_group_value, fq_modulus, limb_base, limbs_reduced, PodG2, PodGt};
use ark_bn254::{Bn254, Fq, Fq12, Fq2, G1Affine, G2Affine};
use ark_ec::bn::{BnConfig, G2Prepared, TwistType};
use ark_ec::pairing::{MillerLoopOutput, Pairing};
use ark_ff::{BigInt, CyclotomicMultSubgroup, Field, One};
use vstd::prelude::*;

verus! {

/// Which side of the sextic twist the line coefficients are laid out for.
#[derive(Clone, Copy, Debug, PartialEq, Eq)]
pub enum Twist {
    M,
    D,
}

/// Montgomery form of one in `Fq`: the limbs of `2^256 mod p`.
pub open spec fn fq_one_limbs() -> Seq<u64> {
    seq![0xd35d438dc58f0d9du64, 0x0a78eb28f5c70b3du64, 0x666ea36f7879462cu64, 0x0e0a77c19a07df2fu64]
}

/// The `Fq12` unit: one in the first base-field coefficient, zero elsewhere.
pub open spec fn fq12_one_limbs() -> Seq<u64> {
    Seq::new(48, |i: int| if i < 4 { fq_one_limbs()[i] } else { 0u64 })
}

/// Digit `i` of `ATE_LOOP_COUNT`: `1` at positions 3, 5, 14, 23, 33, 38, 49,
/// 61, 63, 64; `-1` at positions 7, 10, 17, 19, 25, 30, 35, 44, 47, 51, 55,
/// 57; `0` elsewhere.
pub open spec fn ate_digit(i: int) -> i8 {
    if i == 3 || i == 5 || i == 14 || i == 23 || i == 33 || i == 38 || i == 49 || i == 61 || i == 63
        || i == 64 {
        1
    } else if i == 7 || i == 10 || i == 17 || i == 19 || i == 25 || i == 30 || i == 35 || i == 44
        || i == 47 || i == 51 || i == 55 || i == 57 {
        -1i8
    } else {
        0
    }
}

/// The 65 signed binary digits of `|6x + 2|` for BN254, least significant first.
pub open spec fn ate_loop_count_spec() -> Seq<i8> {
    Seq::new(65, |i: int| ate_digit(i))
}

/// `f^2` in `Fq12`, as computed by `Fq12::square_in_place`.
pub uninterp spec fn fq12_square_result(f: Seq<u64>) -> Seq<u64>;

/// `R^-1 mod p` for the Montgomery radix `R = 2^256`: the value below times
/// `2^256` is `q * p + 1` with
/// `q = 111032442853175714102588374283752698368366046808579839647964533820976443843465`.
pub open spec fn montgomery_r_inv() -> int {
    20988524275117001072002809824448087578619730785600314334253784976379291040311int
}

/// `R = 2^256`, the Montgomery radix.
pub open spec fn montgomery_r() -> int {
    115792089237316195423570985008687907853269984665640564039457584007913129639936int
}

/// The Montgomery product of two reduced `Fq` encodings: `a * b * R^-1 mod p`,
/// the encoding of the product of the elements they stand for.
pub open spec fn fq_mont_mul(a: int, b: int) -> int {
    (a * b * montgomery_r_inv()) % fq_modulus()
}

/// The four limbs of `v`, least significant first.
pub open spec fn fq_limbs_of(v: int) -> Seq<u64> {
    let w = limb_base();
    seq![(v % w) as u64, ((v / w) % w) as u64, ((v / (w * w)) % w) as u64, ((v / (w * w * w)) % w) as u64]
}

/// `c * s` for `c` in `Fq2` and `s` in `Fq`: each of `c`'s two coefficients
/// is multiplied by `s`.
pub open spec fn fq2_scaled(c: Seq<u64>, s: Seq<u64>) -> Seq<u64> {
    fq_limbs_of(fq_mont_mul(fq_group_value(c, 0), fq_group_value(s, 0))) + fq_limbs_of(
        fq_mont_mul(fq_group_value(c, 1), fq_group_value(s, 0)),
    )
}

/// The BN254 G1 curve equation `y^2 = x^3 + 3` for the Montgomery encodings
/// `x`, `y` (which stand for `x * R^-1`, `y * R^-1`), multiplied through by
/// `R^3`: `y^2 * R = x^3 + 3 * R^3 (mod p)`.
pub open spec fn g1_curve_equation(x: Seq<u64>, y: Seq<u64>) -> bool {
    let xv = fq_group_value(x, 0);
    let yv = fq_group_value(y, 0);
    let r = montgomery_r();
    (yv * yv * r) % fq_modulus() == (xv * xv * xv + 3 * r * r * r) % fq_modulus()
}

/// The G1 generator `(1, 2)` in Montgomery limbs (`R mod p`, `2R mod p`)
/// satisfies `g1_curve_equation`.
pub proof fn g1_generator_satisfies_curve_equation()
    ensures
        g1_curve_equation(
            fq_one_limbs(),
            seq![0xa6ba871b8b1e1b3au64, 0x14f1d651eb8e167bu64, 0xccdd46def0f28c58u64, 0x1c14ef83340fbe5eu64],
        ),
{
    let xv = fq_group_value(fq_one_limbs(), 0);
    let yv = fq_group_value(
        seq![0xa6ba871b8b1e1b3au64, 0x14f1d651eb8e167bu64, 0xccdd46def0f28c58u64, 0x1c14ef83340fbe5eu64],
        0,
    );
    assert(xv == 6350874878119819312338956282401532409788428879151445726012394534686998597021int);
    assert(yv == 12701749756239638624677912564803064819576857758302891452024789069373997194042int);
    assert(yv * yv * montgomery_r() == 18681252669039572179939220905440940601964630866647462087482434146613174040616167752148314156055423339364700947538899713993415876480764172196547725436140059938295232164108221103915166190436837281914816324393583572213434612505903104int) by (nonlinear_arith)
        requires
            yv == 12701749756239638624677912564803064819576857758302891452024789069373997194042int,
            montgomery_r() == 115792089237316195423570985008687907853269984665640564039457584007913129639936int,
    ;
    assert(xv * xv * xv + 3 * montgomery_r() * montgomery_r() * montgomery_r() == 4657810430623527527684034134514400318506234064966990443003607281161907215740195374783185900142688367496052581131903760415584279379690391857784948767043939436031006745784955383320964725645106747909328195639715046750936891643359013829int)
        by (nonlinear_arith)
        requires
            xv == 6350874878119819312338956282401532409788428879151445726012394534686998597021int,
            montgomery_r() == 115792089237316195423570985008687907853269984665640564039457584007913129639936int,
    ;
    assert(18681252669039572179939220905440940601964630866647462087482434146613174040616167752148314156055423339364700947538899713993415876480764172196547725436140059938295232164108221103915166190436837281914816324393583572213434612505903104int == 853483433020303527406317416432486685712908035558873939309685516800163218868710063695734832030073602732530686449867568981317228440902720920716419562049886int * fq_modulus() + 15910660420960042299299799463737773658981857039445333385465697209357218531566int);
    assert(4657810430623527527684034134514400318506234064966990443003607281161907215740195374783185900142688367496052581131903760415584279379690391857784948767043939436031006745784955383320964725645106747909328195639715046750936891643359013829int == 212799650382905788884462320853979004933492034695633665230892747304577802116056878933817765123608847332713534786171432520431436062248281554941116886286398961int * fq_modulus() + 15910660420960042299299799463737773658981857039445333385465697209357218531566int);
    vstd::arithmetic::div_mod::lemma_fundamental_div_mod_converse(18681252669039572179939220905440940601964630866647462087482434146613174040616167752148314156055423339364700947538899713993415876480764172196547725436140059938295232164108221103915166190436837281914816324393583572213434612505903104int, fq_modulus(), 853483433020303527406317416432486685712908035558873939309685516800163218868710063695734832030073602732530686449867568981317228440902720920716419562049886int, 15910660420960042299299799463737773658981857039445333385465697209357218531566int);
    vstd::arithmetic::div_mod::lemma_fundamental_div_mod_converse(4657810430623527527684034134514400318506234064966990443003607281161907215740195374783185900142688367496052581131903760415584279379690391857784948767043939436031006745784955383320964725645106747909328195639715046750936891643359013829int, fq_modulus(), 212799650382905788884462320853979004933492034695633665230892747304577802116056878933817765123608847332713534786171432520431436062248281554941116886286398961int, 15910660420960042299299799463737773658981857039445333385465697209357218531566int);
}

/// `f * (c0 + c3 w^3 + c4 w^4)`, as computed by `Fq12::mul_by_034`.
pub uninterp spec fn fq12_mul_by_034_result(f: Seq<u64>, c0: Seq<u64>, c3: Seq<u64>, c4: Seq<u64>) -> Seq<u64>;

/// `f * (c0 + c1 w + c4 w^4)`, as computed by `Fq12::mul_by_014`.
pub uninterp spec fn fq12_mul_by_014_result(f: Seq<u64>, c0: Seq<u64>, c1: Seq<u64>, c4: Seq<u64>) -> Seq<u64>;

/// What `Fq12::cyclotomic_inverse_in_place` leaves in `f`.
pub uninterp spec fn fq12_cyclotomic_inverse_result(f: Seq<u64>) -> Seq<u64>;

/// What `Bn254::final_exponentiation` returns for the Miller-loop output `f`.
pub uninterp spec fn final_exponentiation_result(f: Seq<u64>) -> Option<Seq<u64>>;

/// The line coefficients that `G2Prepared::from` computes for the finite
/// affine point `(x, y)`, each as 24 limbs (`c0`, `c1`, `c2` in turn).
pub uninterp spec fn g2_line_coeffs_result(x: Seq<u64>, y: Seq<u64>) -> Seq<Seq<u64>>;

/// `Fq12::one()`. Its first base-field coefficient is `Fq::one()`, whose
/// Montgomery limbs are `R = 2^256 mod p`; the others are zero.
#[verifier::external_body]
pub(crate) fn fq12_one() -> (r: PodGt)
    ensures
        r.0@ == fq12_one_limbs(),
        limbs_reduced(r.0@),
{
    let one = Fq12::one();
    PodGt(one.to_base_prime_field_elements().flat_map(|e| e.0 .0).collect::<Vec<u64>>().try_into().unwrap())
}

/// `<ark_bn254::Config as BnConfig>::ATE_LOOP_COUNT`, the constant of the
/// arkworks BN254 configuration.
#[verifier::external_body]
pub(crate) fn ate_loop_count() -> (r: Vec<i8>)
    ensures
        r@ == ate_loop_count_spec(),
{
    <ark_bn254::Config as BnConfig>::ATE_LOOP_COUNT.to_vec()
}

/// `<ark_bn254::Config as BnConfig>::X_IS_NEGATIVE`, which is `false` for BN254.
#[verifier::external_body]
pub(crate) fn x_is_negative() -> (r: bool)
    ensures
        !r,
{
    <ark_bn254::Config as BnConfig>::X_IS_NEGATIVE
}

/// `<ark_bn254::Config as BnConfig>::TWIST_TYPE`, which is `TwistType::D` for BN254.
#[verifier::external_body]
pub(crate) fn twist_type() -> (r: Twist)
    ensures
        r == Twist::D,
{
    match <ark_bn254::Config as BnConfig>::TWIST_TYPE {
        TwistType::M => Twist::M,
        TwistType::D => Twist::D,
    }
}

/// `Fq12::square_in_place`: the result is named by `fq12_square_result`.
/// Field arithmetic on reduced inputs gives reduced outputs (every arkworks
/// operation ends in a conditional subtraction of `p`); unreduced inputs can
/// overflow the Montgomery product and are left out. The square of one is one.
#[verifier::external_body]
pub(crate) fn fq12_square(f: &PodGt) -> (r: PodGt)
    requires
        limbs_reduced(f.0@),
    ensures
        r.0@ == fq12_square_result(f.0@),
        limbs_reduced(r.0@),
        f.0@ == fq12_one_limbs() ==> r.0@ == fq12_one_limbs(),
{
    let fq = |c: &[u64]| Fq::new_unchecked(BigInt(c.try_into().unwrap()));
    let mut x = Fq12::from_base_prime_field_elems(f.0.chunks(4).map(fq)).unwrap();
    x.square_in_place();
    PodGt(x.to_base_prime_field_elements().flat_map(|e| e.0 .0).collect::<Vec<u64>>().try_into().unwrap())
}

/// `Fq2::mul_assign_by_fp`: both coefficients of `c` are multiplied by `s`
/// with the Montgomery product, which on reduced inputs gives the reduced
/// `a * b * R^-1 mod p`. Unreduced inputs can overflow it and are left out.
#[verifier::external_body]
pub(crate) fn fq2_mul_by_fp(c: &[u64; 8], s: &[u64; 4]) -> (r: [u64; 8])
    requires
        limbs_reduced(c@),
        limbs_reduced(s@),
    ensures
        r@ == fq2_scaled(c@, s@),
        limbs_reduced(r@),
{
    let fq = |c: &[u64]| Fq::new_unchecked(BigInt(c.try_into().unwrap()));
    let mut x = Fq2::new(fq(&c[..4]), fq(&c[4..]));
    x.mul_assign_by_fp(&fq(s));
    x.to_base_prime_field_elements().flat_map(|e| e.0 .0).collect::<Vec<u64>>().try_into().unwrap()
}

/// `Fq12::mul_by_034`: the result is named by `fq12_mul_by_034_result`.
/// Reduced inputs give a reduced output; unreduced inputs are left out.
#[verifier::external_body]
pub(crate) fn fq12_mul_by_034(f: &PodGt, c0: &[u64; 8], c3: &[u64; 8], c4: &[u64; 8]) -> (r: PodGt)
    requires
        limbs_reduced(f.0@),
        limbs_reduced(c0@),
        limbs_reduced(c3@),
        limbs_reduced(c4@),
    ensures
        r.0@ == fq12_mul_by_034_result(f.0@, c0@, c3@, c4@),
        limbs_reduced(r.0@),
{
    let fq = |c: &[u64]| Fq::new_unchecked(BigInt(c.try_into().unwrap()));
    let fq2 = |c: &[u64; 8]| Fq2::new(fq(&c[..4]), fq(&c[4..]));
    let mut x = Fq12::from_base_prime_field_elems(f.0.chunks(4).map(fq)).unwrap();
    x.mul_by_034(&fq2(c0), &fq2(c3), &fq2(c4));
    PodGt(x.to_base_prime_field_elements().flat_map(|e| e.0 .0).collect::<Vec<u64>>().try_into().unwrap())
}

/// `Fq12::mul_by_014`: the result is named by `fq12_mul_by_014_result`.
/// Reduced inputs give a reduced output; unreduced inputs are left out.
#[verifier::external_body]
pub(crate) fn fq12_mul_by_014(f: &PodGt, c0: &[u64; 8], c1: &[u64; 8], c4: &[u64; 8]) -> (r: PodGt)
    requires
        limbs_reduced(f.0@),
        limbs_reduced(c0@),
        limbs_reduced(c1@),
        limbs_reduced(c4@),
    ensures
        r.0@ == fq12_mul_by_014_result(f.0@, c0@, c1@, c4@),
        limbs_reduced(r.0@),
{
    let fq = |c: &[u64]| Fq::new_unchecked(BigInt(c.try_into().unwrap()));
    let fq2 = |c: &[u64; 8]| Fq2::new(fq(&c[..4]), fq(&c[4..]));
    let mut x = Fq12::from_base_prime_field_elems(f.0.chunks(4).map(fq)).unwrap();
    x.mul_by_014(&fq2(c0), &fq2(c1), &fq2(c4));
    PodGt(x.to_base_prime_field_elements().flat_map(|e| e.0 .0).collect::<Vec<u64>>().try_into().unwrap())
}

/// `Fq12::cyclotomic_inverse_in_place`: what it leaves in `f` is named by
/// `fq12_cyclotomic_inverse_result`. It negates coefficients, which keeps
/// reduced inputs reduced.
#[verifier::external_body]
pub(crate) fn fq12_cyclotomic_inverse(f: &PodGt) -> (r: PodGt)
    requires
        limbs_reduced(f.0@),
    ensures
        r.0@ == fq12_cyclotomic_inverse_result(f.0@),
        limbs_reduced(r.0@),
{
    let fq = |c: &[u64]| Fq::new_unchecked(BigInt(c.try_into().unwrap()));
    let mut x = Fq12::from_base_prime_field_elems(f.0.chunks(4).map(fq)).unwrap();
    x.cyclotomic_inverse_in_place();
    PodGt(x.to_base_prime_field_elements().flat_map(|e| e.0 .0).collect::<Vec<u64>>().try_into().unwrap())
}

/// `Bn254::final_exponentiation(MillerLoopOutput(f))`: whether it succeeds,
/// and the target-group element it gives, are named by
/// `final_exponentiation_result`. Reduced inputs give a reduced output;
/// unreduced ones can overflow the Montgomery product and are left out. One
/// is invertible and every power, conjugate and Frobenius image of one is
/// one, so one maps to `Some(one)`.
#[verifier::external_body]
pub(crate) fn final_exponentiation(f: &PodGt) -> (r: Option<PodGt>)
    requires
        limbs_reduced(f.0@),
    ensures
        match r {
            Some(g) => final_exponentiation_result(f.0@) == Some(g.0@) && limbs_reduced(g.0@),
            None => final_exponentiation_result(f.0@) is None,
        },
        f.0@ == fq12_one_limbs() ==> r.is_some() && r.unwrap().0@ == fq12_one_limbs(),
{
    let fq = |c: &[u64]| Fq::new_unchecked(BigInt(c.try_into().unwrap()));
    let x = Fq12::from_base_prime_field_elems(f.0.chunks(4).map(fq)).unwrap();
    Bn254::final_exponentiation(MillerLoopOutput(x)).map(|g| {
        PodGt(g.0.to_base_prime_field_elements().flat_map(|e| e.0 .0).collect::<Vec<u64>>().try_into().unwrap())
    })
}

/// `G1Affine::new_unchecked(x, y).is_on_curve()`: compares `y^2` with
/// `x^3 + 3` in `Fq`. On reduced inputs every intermediate is the reduced
/// encoding of the field value, so the answer is `g1_curve_equation`.
#[verifier::external_body]
pub(crate) fn g1_on_curve(x: &[u64; 4], y: &[u64; 4]) -> (r: bool)
    requires
        limbs_reduced(x@),
        limbs_reduced(y@),
    ensures
        r == g1_curve_equation(x@, y@),
{
    G1Affine::new_unchecked(Fq::new_unchecked(BigInt(*x)), Fq::new_unchecked(BigInt(*y))).is_on_curve()
}

/// `G2Prepared::from(G2Affine { x, y, infinity })`, returning its
/// `infinity` flag and its `ell_coeffs` as limbs.
///
/// The source shows that the flag is the input's, that a point at infinity
/// gets no coefficients, and that a finite point gets one coefficient per
/// digit of `ATE_LOOP_COUNT` below the top (64), one more per nonzero such
/// digit (21), and two final ones: 87 in all. The coefficients themselves are
/// named by `g2_line_coeffs_result`. They are computed by field arithmetic
/// from the reduced coordinates, so they are reduced too; unreduced
/// coordinates can overflow the Montgomery product and are left out.
#[verifier::external_body]
pub(crate) fn g2_prepare(g2: &PodG2) -> (r: (bool, Vec<[u64; 24]>))
    requires
        g2.wf(),
    ensures
        r.0 == g2.infinity,
        g2.infinity ==> r.1@.len() == 0,
        !g2.infinity ==> r.1@.len() == 87,
        !g2.infinity ==> r.1@.len() == g2_line_coeffs_result(g2.x@, g2.y@).len(),
        !g2.infinity ==> forall|k: int|
            0 <= k < r.1@.len() ==> (#[trigger] r.1@[k])@ == g2_line_coeffs_result(g2.x@, g2.y@)[k],
        forall|k: int| 0 <= k < r.1@.len() ==> limbs_reduced((#[trigger] r.1@[k])@),
{
    let fq = |c: &[u64]| Fq::new_unchecked(BigInt(c.try_into().unwrap()));
    let fq2 = |c: &[u64; 8]| Fq2::new(fq(&c[..4]), fq(&c[4..]));
    let prep = G2Prepared::<ark_bn254::Config>::from(G2Affine { x: fq2(&g2.x), y: fq2(&g2.y), infinity: g2.infinity });
    let limbs = |e: Fq2| [e.c0.0 .0, e.c1.0 .0];
    (prep.infinity, prep.ell_coeffs.iter().map(|c| [limbs(c.0), limbs(c.1), limbs(c.2)].concat().concat().try_into().unwrap()).collect())
}

} // verus!
