//! Prepared-G2 pairing for BN254 (`alt_bn128`).
//!
//! A G2 point is turned once into its table of Miller-loop line coefficients
//! ([`prepare_g2`]); the pairing check then runs the optimal-ate Miller loop
//! over G1 points and those tables, followed by the final exponentiation
//! ([`alt_bn128_pairing_prepared`]). Field elements travel as plain `u64`
//! limbs in Montgomery form.

pub use crate::pairing::{alt_bn128_pairing_prepared, prepare_g2};
pub use crate::encoding::{
    PodG1, PodG2, PodGt, PodPreparedG2, ELL_COEFFS_PER_PREPARED_G2, ELL_COEFF_LIMBS, FQ_LIMBS,
};

pub mod curve;
pub mod encoding;
pub mod laws;
pub mod pairing;

use vstd::prelude::*;

verus! {

/// Version of the prepared-pairing interface.
#[derive(Clone, Copy, Debug, PartialEq, Eq)]
pub enum Version {
    V0,
}

/// Why a prepared pairing was refused.
#[derive(Debug, PartialEq, Eq)]
pub enum PreparedPairingError {
    /// A G1 input is neither the identity (all limbs zero) nor on the curve.
    InvalidG1,
    /// The Miller-loop output could not be inverted in the final exponentiation.
    FinalExponentiationFailed,
}

} // verus!
