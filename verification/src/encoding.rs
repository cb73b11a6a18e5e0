//! Plain-limb encodings of BN254 group and field elements.

use vstd::prelude::*;

verus! {

/// Limbs of one base-field element `Fq`.
pub const FQ_LIMBS: usize = 4;
/// Limbs of one `Fq2` element.
pub(crate) const FQ2_LIMBS: usize = 8;
/// Limbs of one line coefficient, a triple of `Fq2` elements.
pub const ELL_COEFF_LIMBS: usize = 24;
/// Limbs of one `Fq12` element.
pub(crate) const FQ12_LIMBS: usize = 48;

/// Number of line coefficients that a prepared G2 point holds.
pub const ELL_COEFFS_PER_PREPARED_G2: usize = 87;

/// An affine G1 point: `x` in limbs `0..4`, `y` in limbs `4..8`.
/// All limbs zero stands for the point at infinity.
#[derive(Clone, Copy, Debug, PartialEq, Eq)]
pub struct PodG1(pub [u64; FQ2_LIMBS]);

/// The line coefficients of a prepared G2 point, one `[c0, c1, c2]` triple of
/// `Fq2` elements (24 limbs) per Miller-loop step.
#[derive(Clone, Copy, Debug)]
pub struct PodPreparedG2(pub [[u64; ELL_COEFF_LIMBS]; ELL_COEFFS_PER_PREPARED_G2]);

/// An element of the target group `Fq12`, as its 12 base-field
/// coefficients in tower order.
#[derive(Clone, Copy, Debug, PartialEq, Eq)]
pub struct PodGt(pub [u64; FQ12_LIMBS]);

/// An affine G2 point: `x` and `y` are `Fq2` elements (8 limbs each),
/// `infinity` marks the point at infinity. Well formed (`wf`) when both
/// coordinates are reduced, as every arkworks `G2Affine` is.
#[derive(Clone, Copy, Debug, PartialEq, Eq)]
pub struct PodG2 {
    pub x: [u64; FQ2_LIMBS],
    pub y: [u64; FQ2_LIMBS],
    pub infinity: bool,
}

/// `2^64`, the weight of one limb.
pub open spec fn limb_base() -> int {
    18446744073709551616int
}

/// The BN254 base-field modulus `p`.
pub open spec fn fq_modulus() -> int {
    21888242871839275222246405745257275088696311157297823662689037894645226208583int
}

/// The integer held by the four limbs `a, b, c, d`, least significant first.
pub open spec fn fq_value4(a: u64, b: u64, c: u64, d: u64) -> int {
    a + b * 18446744073709551616int + c * 340282366920938463463374607431768211456int + d
        * 6277101735386680763835789423207666416102355444464034512896int
}

/// The integer held by limbs `4k .. 4k + 4` of `s`: the `k`-th base-field
/// coefficient of an encoding.
pub open spec fn fq_group_value(s: Seq<u64>, k: int) -> int {
    fq_value4(s[4 * k], s[4 * k + 1], s[4 * k + 2], s[4 * k + 3])
}

/// Every base-field coefficient of the encoding `s` is below `p`.
pub open spec fn limbs_reduced(s: Seq<u64>) -> bool {
    &&& s.len() % 4 == 0
    &&& forall|k: int| 0 <= k < s.len() / 4 ==> #[trigger] fq_group_value(s, k) < fq_modulus()
}

/// Whether four limbs hold an integer below `p`, compared limb by limb from
/// the top.
fn fq_limbs_below_modulus(a: u64, b: u64, c: u64, d: u64) -> (r: bool)
    ensures
        r == (fq_value4(a, b, c, d) < fq_modulus()),
{
    let p0: u64 = 0x3c208c16d87cfd47;
    let p1: u64 = 0x97816a916871ca8d;
    let p2: u64 = 0xb85045b68181585d;
    let p3: u64 = 0x30644e72e131a029;
    assert(fq_modulus() == fq_value4(p0, p1, p2, p3));
    if d != p3 {
        d < p3
    } else if c != p2 {
        c < p2
    } else if b != p1 {
        b < p1
    } else {
        a < p0
    }
}

/// Whether every base-field coefficient of `s` is below `p`.
fn slice_reduced(s: &[u64]) -> (r: bool)
    requires
        s@.len() % 4 == 0,
    ensures
        r == limbs_reduced(s@),
{
    let n = s.len();
    let groups = n / 4;
    let mut k: usize = 0;
    while k < groups
        invariant
            n == s@.len(),
            groups == s@.len() / 4,
            s@.len() % 4 == 0,
            k <= groups,
            forall|t: int| 0 <= t < k ==> #[trigger] fq_group_value(s@, t) < fq_modulus(),
        decreases groups - k,
    {
        assert(4 * k + 3 < n) by (nonlinear_arith)
            requires
                k < groups,
                groups == n / 4,
                n % 4 == 0,
        ;
        if !fq_limbs_below_modulus(s[4 * k], s[4 * k + 1], s[4 * k + 2], s[4 * k + 3]) {
            assert(!(fq_group_value(s@, k as int) < fq_modulus()));
            return false;
        }
        k = k + 1;
    }
    true
}

impl PodG1 {
    /// Both coordinates are reduced.
    pub open spec fn wf(&self) -> bool {
        limbs_reduced(self.0@)
    }

    /// Whether both coordinates are reduced.
    pub fn is_reduced(&self) -> (r: bool)
        ensures
            r == self.wf(),
    {
        slice_reduced(self.0.as_slice())
    }
}

impl PodG2 {
    /// Both coordinates are reduced.
    pub open spec fn wf(&self) -> bool {
        limbs_reduced(self.x@) && limbs_reduced(self.y@)
    }

    /// Whether both coordinates are reduced.
    pub fn is_reduced(&self) -> (r: bool)
        ensures
            r == self.wf(),
    {
        slice_reduced(self.x.as_slice()) && slice_reduced(self.y.as_slice())
    }
}

impl PodPreparedG2 {
    /// Every coefficient of every line is reduced.
    pub open spec fn wf(&self) -> bool {
        forall|k: int| 0 <= k < self.0@.len() ==> limbs_reduced(#[trigger] self.0@[k]@)
    }

    /// Whether every coefficient of every line is reduced.
    pub fn is_reduced(&self) -> (r: bool)
        ensures
            r == self.wf(),
    {
        let mut k: usize = 0;
        while k < ELL_COEFFS_PER_PREPARED_G2
            invariant
                k <= ELL_COEFFS_PER_PREPARED_G2,
                self.0@.len() == ELL_COEFFS_PER_PREPARED_G2,
                forall|t: int| 0 <= t < k ==> limbs_reduced(#[trigger] self.0@[t]@),
            decreases ELL_COEFFS_PER_PREPARED_G2 - k,
        {
            if !slice_reduced(self.0[k].as_slice()) {
                return false;
            }
            k = k + 1;
        }
        true
    }
}

impl PodGt {
    /// Every base-field coefficient is reduced.
    pub open spec fn wf(&self) -> bool {
        limbs_reduced(self.0@)
    }
}

} // verus!
