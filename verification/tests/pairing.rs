use ark_bn254::{Bn254, Fq, Fq12, Fq2, G1Affine, G2Affine};
use ark_ec::bn::G2Prepared;
use ark_ec::pairing::{Pairing, PairingOutput};
use ark_ec::{AffineRepr, CurveGroup, PrimeGroup};
use ark_ff::{BigInt, Field, One, UniformRand, Zero};
use ark_std::test_rng;
use bn254_prepared_syscall::{
    alt_bn128_pairing_prepared, prepare_g2, PodG1, PodG2, PodGt, PodPreparedG2,
    PreparedPairingError, Version, ELL_COEFFS_PER_PREPARED_G2, ELL_COEFF_LIMBS,
};

type EllCoeff = ark_ec::bn::g2::EllCoeff<ark_bn254::Config>;

fn fq_from_limbs(c: &[u64]) -> Fq {
    Fq::new_unchecked(BigInt(c.try_into().unwrap()))
}

fn pod_g1_from_affine(g: &G1Affine) -> PodG1 {
    let mut limbs = [0u64; 8];
    if !g.is_zero() {
        let (x, y) = g.xy().unwrap();
        limbs[0..4].copy_from_slice(&x.0 .0);
        limbs[4..8].copy_from_slice(&y.0 .0);
    }
    PodG1(limbs)
}

fn fq2_limbs(e: &Fq2) -> [u64; 8] {
    let mut limbs = [0u64; 8];
    limbs[0..4].copy_from_slice(&e.c0.0 .0);
    limbs[4..8].copy_from_slice(&e.c1.0 .0);
    limbs
}

fn pod_g2_from_affine(g: &G2Affine) -> PodG2 {
    PodG2 { x: fq2_limbs(&g.x), y: fq2_limbs(&g.y), infinity: g.infinity }
}

fn fq12_from_pod(p: &PodGt) -> Fq12 {
    Fq12::from_base_prime_field_elems(p.0.chunks(4).map(fq_from_limbs)).unwrap()
}

fn pod_from_fq12(f: &Fq12) -> PodGt {
    let limbs: Vec<u64> = f.to_base_prime_field_elements().flat_map(|e| e.0 .0).collect();
    PodGt(limbs.try_into().unwrap())
}

fn coeff_limbs(c: &EllCoeff) -> [u64; 24] {
    let mut limbs = [0u64; 24];
    limbs[0..8].copy_from_slice(&fq2_limbs(&c.0));
    limbs[8..16].copy_from_slice(&fq2_limbs(&c.1));
    limbs[16..24].copy_from_slice(&fq2_limbs(&c.2));
    limbs
}

fn random_pairs(n: usize) -> (Vec<G1Affine>, Vec<G2Affine>) {
    let mut rng = test_rng();
    let g1g = ark_bn254::G1Projective::generator();
    let g2g = ark_bn254::G2Projective::generator();
    let g1s: Vec<G1Affine> =
        (0..n).map(|_| (g1g * ark_bn254::Fr::rand(&mut rng)).into_affine()).collect();
    let g2s: Vec<G2Affine> =
        (0..n).map(|_| (g2g * ark_bn254::Fr::rand(&mut rng)).into_affine()).collect();
    (g1s, g2s)
}

fn prepare(g2: &G2Affine) -> PodPreparedG2 {
    prepare_g2(&pod_g2_from_affine(g2))
}

#[test]
fn empty_returns_one() {
    let result = alt_bn128_pairing_prepared(Version::V0, &[], &[]).unwrap();
    assert_eq!(fq12_from_pod(&result), Fq12::one());
}

#[test]
fn matches_ark_multi_pairing() {
    let (g1s, g2s) = random_pairs(4);
    let pod_g1s: Vec<PodG1> = g1s.iter().map(pod_g1_from_affine).collect();
    let pod_g2s: Vec<PodPreparedG2> = g2s.iter().map(prepare).collect();

    let our = fq12_from_pod(&alt_bn128_pairing_prepared(Version::V0, &pod_g1s, &pod_g2s).unwrap());

    let expected: PairingOutput<Bn254> =
        Bn254::multi_pairing(g1s.iter().copied(), g2s.iter().copied());
    assert_eq!(our, expected.0);
}

#[test]
fn bilinearity_returns_gt_identity() {
    let mut rng = test_rng();
    let a = ark_bn254::Fr::rand(&mut rng);
    let p = ark_bn254::G1Projective::generator() * ark_bn254::Fr::rand(&mut rng);
    let q = ark_bn254::G2Projective::generator() * ark_bn254::Fr::rand(&mut rng);
    let ap = (p * a).into_affine();
    let p = p.into_affine();
    let q_neg_a = -((q * a).into_affine());
    let q = q.into_affine();

    let pod_g1s = vec![pod_g1_from_affine(&ap), pod_g1_from_affine(&p)];
    let pod_g2s = vec![prepare(&q), prepare(&q_neg_a)];
    let result =
        fq12_from_pod(&alt_bn128_pairing_prepared(Version::V0, &pod_g1s, &pod_g2s).unwrap());
    assert_eq!(result, Fq12::one());
}

#[test]
fn ark_layout_matches_pods() {
    assert_eq!(core::mem::size_of::<Fq12>(), core::mem::size_of::<PodGt>());
    assert_eq!(core::mem::align_of::<Fq12>(), core::mem::align_of::<PodGt>());
    assert_eq!(core::mem::size_of::<EllCoeff>(), ELL_COEFF_LIMBS * 8);
    assert_eq!(core::mem::align_of::<EllCoeff>(), 8);

    let f: Fq12 = Fq12::one() + Fq12::one();
    let pod = pod_from_fq12(&f);
    let back: Fq12 = fq12_from_pod(&pod);
    assert_eq!(back, f);

    let one = alt_bn128_pairing_prepared(Version::V0, &[], &[]).unwrap();
    assert_eq!(one, pod_from_fq12(&Fq12::one()));
}

#[test]
fn rejects_g1_off_curve() {
    let mut limbs = [0u64; 8];
    limbs[0] = 1;
    limbs[4] = 1;
    let g2 = ark_bn254::G2Projective::generator().into_affine();
    let pod_g2 = prepare(&g2);
    assert_eq!(
        alt_bn128_pairing_prepared(Version::V0, &[PodG1(limbs)], &[pod_g2]),
        Err(PreparedPairingError::InvalidG1)
    );
}

#[test]
fn empty_result_has_montgomery_one_limbs() {
    let result = alt_bn128_pairing_prepared(Version::V0, &[], &[]).unwrap();
    let mut expected = [0u64; 48];
    expected[0..4].copy_from_slice(&[
        0xd35d438dc58f0d9d,
        0x0a78eb28f5c70b3d,
        0x666ea36f7879462c,
        0x0e0a77c19a07df2f,
    ]);
    assert_eq!(result, PodGt(expected));
}

#[test]
fn prepare_g2_matches_ark_coefficients() {
    let (_, g2s) = random_pairs(3);
    for g2 in &g2s {
        let ours = prepare(g2);
        let theirs: G2Prepared<ark_bn254::Config> = (*g2).into();
        assert!(!theirs.infinity);
        assert_eq!(theirs.ell_coeffs.len(), ELL_COEFFS_PER_PREPARED_G2);
        for (k, c) in theirs.ell_coeffs.iter().enumerate() {
            assert_eq!(ours.0[k], coeff_limbs(c));
        }
    }
}

#[test]
fn prepare_g2_of_generator_is_not_all_zero() {
    let g2 = ark_bn254::G2Projective::generator().into_affine();
    let ours = prepare(&g2);
    assert!(ours.0.iter().any(|c| c.iter().any(|&l| l != 0)));
}

#[test]
fn identity_pair_is_ignored() {
    let (g1s, g2s) = random_pairs(2);
    let pod_g1s: Vec<PodG1> = g1s.iter().map(pod_g1_from_affine).collect();
    let pod_g2s: Vec<PodPreparedG2> = g2s.iter().map(prepare).collect();
    let base = alt_bn128_pairing_prepared(Version::V0, &pod_g1s, &pod_g2s).unwrap();

    let (_, extra) = random_pairs(3);
    let mut more_g1s = pod_g1s.clone();
    more_g1s.push(PodG1([0u64; 8]));
    let mut more_g2s = pod_g2s.clone();
    more_g2s.push(prepare(&extra[2]));
    let extended = alt_bn128_pairing_prepared(Version::V0, &more_g1s, &more_g2s).unwrap();
    assert_eq!(base, extended);
}

#[test]
fn only_identity_pairs_give_one() {
    let g2 = ark_bn254::G2Projective::generator().into_affine();
    let result =
        alt_bn128_pairing_prepared(Version::V0, &[PodG1([0u64; 8])], &[prepare(&g2)]).unwrap();
    assert_eq!(fq12_from_pod(&result), Fq12::one());
}

#[test]
fn single_pair_matches_ark_pairing() {
    let (g1s, g2s) = random_pairs(1);
    let result = alt_bn128_pairing_prepared(
        Version::V0,
        &[pod_g1_from_affine(&g1s[0])],
        &[prepare(&g2s[0])],
    )
    .unwrap();
    assert_eq!(fq12_from_pod(&result), Bn254::pairing(g1s[0], g2s[0]).0);
    assert_ne!(fq12_from_pod(&result), Fq12::one());
}

#[test]
fn zero_coefficients_fail_final_exponentiation() {
    let g1 = ark_bn254::G1Projective::generator().into_affine();
    let zero_prep = PodPreparedG2([[0u64; 24]; 87]);
    assert_eq!(
        alt_bn128_pairing_prepared(Version::V0, &[pod_g1_from_affine(&g1)], &[zero_prep]),
        Err(PreparedPairingError::FinalExponentiationFailed)
    );
}

#[test]
fn off_curve_point_after_valid_ones_is_rejected() {
    let (g1s, g2s) = random_pairs(3);
    let mut pod_g1s: Vec<PodG1> = g1s.iter().map(pod_g1_from_affine).collect();
    let pod_g2s: Vec<PodPreparedG2> = g2s.iter().map(prepare).collect();
    pod_g1s[2].0[4] ^= 1;
    assert_eq!(
        alt_bn128_pairing_prepared(Version::V0, &pod_g1s, &pod_g2s),
        Err(PreparedPairingError::InvalidG1)
    );
}

#[test]
fn valid_g1_check_accepts_generator() {
    let g1 = ark_bn254::G1Projective::generator().into_affine();
    let g2 = ark_bn254::G2Projective::generator().into_affine();
    assert!(alt_bn128_pairing_prepared(Version::V0, &[pod_g1_from_affine(&g1)], &[prepare(&g2)]).is_ok());
}

#[test]
fn identity_pair_inserted_anywhere_is_ignored() {
    let (g1s, g2s) = random_pairs(3);
    let pod_g1s: Vec<PodG1> = g1s.iter().map(pod_g1_from_affine).collect();
    let pod_g2s: Vec<PodPreparedG2> = g2s.iter().map(prepare).collect();
    let base = alt_bn128_pairing_prepared(Version::V0, &pod_g1s, &pod_g2s).unwrap();
    let g2 = ark_bn254::G2Projective::generator().into_affine();
    for j in 0..=pod_g1s.len() {
        let mut more_g1s = pod_g1s.clone();
        more_g1s.insert(j, PodG1([0u64; 8]));
        let mut more_g2s = pod_g2s.clone();
        more_g2s.insert(j, prepare(&g2));
        assert_eq!(alt_bn128_pairing_prepared(Version::V0, &more_g1s, &more_g2s).unwrap(), base);
    }
}

#[test]
fn reduction_checks() {
    let p: [u64; 4] = [0x3c208c16d87cfd47, 0x97816a916871ca8d, 0xb85045b68181585d, 0x30644e72e131a029];
    let mut p_minus_one = p;
    p_minus_one[0] -= 1;
    let mut limbs = [0u64; 8];
    limbs[0..4].copy_from_slice(&p_minus_one);
    assert!(PodG1(limbs).is_reduced());
    limbs[4..8].copy_from_slice(&p);
    assert!(!PodG1(limbs).is_reduced());
    assert!(!PodG1([u64::MAX; 8]).is_reduced());

    let (g1s, g2s) = random_pairs(1);
    assert!(pod_g1_from_affine(&g1s[0]).is_reduced());
    let pod_g2 = pod_g2_from_affine(&g2s[0]);
    assert!(pod_g2.is_reduced());
    assert!(!PodG2 { x: [u64::MAX; 8], ..pod_g2 }.is_reduced());
    let prep = prepare(&g2s[0]);
    assert!(prep.is_reduced());
    let mut bad = prep;
    bad.0[86][23] = u64::MAX;
    assert!(!bad.is_reduced());
}
