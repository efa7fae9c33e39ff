//! The calibration of the noise that an encryption adds.

use vstd::prelude::*;

verus! {

/// The variance of the noise distribution, as a fraction of the torus.
///
/// The value is a double-precision number, held here by its bit pattern. The
/// library never computes with it: it tells a zero variance from any other
/// and hands the value to the randomness source, which draws the noise.
#[derive(Clone, Copy, Debug)]
pub struct Variance {
    bits: u64,
}

impl Variance {
    /// The bit pattern of the variance.
    pub closed spec fn bits(&self) -> u64 {
        self.bits
    }

    /// Whether the variance is zero, of either sign: the noise is then
    /// always zero.
    pub open spec fn is_noiseless(&self) -> bool {
        self.bits() == 0 || self.bits() == 0x8000_0000_0000_0000
    }

    /// The variance with the given bit pattern.
    pub fn from_bits(bits: u64) -> (variance: Self)
        ensures
            variance.bits() == bits,
    {
        Variance { bits }
    }

    /// The bit pattern of the variance.
    pub fn to_bits(&self) -> (bits: u64)
        ensures
            bits == self.bits(),
    {
        self.bits
    }

    /// The variance under which no noise is added.
    pub fn zero() -> (variance: Self)
        ensures
            variance.bits() == 0,
            variance.is_noiseless(),
    {
        Variance { bits: 0 }
    }

    /// Whether the variance is zero, of either sign.
    pub fn is_zero(&self) -> (zero: bool)
        ensures
            zero == self.is_noiseless(),
    {
        self.bits == 0 || self.bits == 0x8000_0000_0000_0000
    }
}

} // verus!
