//! Scheme parameters.

use vstd::prelude::*;

verus! {

/// The parameters that a key and its ciphertexts share.
#[derive(Clone, Copy, Debug, PartialEq, Eq, Structural)]
pub struct LweConfig {
    /// Number of coefficients in the secret key and in every ciphertext mask.
    pub dimension: i32,
    /// Standard deviation of the encryption noise, as a fraction of the ring
    /// size. The verified core has no floating point, so the value is carried
    /// as the bit pattern of an IEEE 754 double and only read by the sampler
    /// that draws the noise.
    pub noise_std_bits: u64,
}

impl LweConfig {
    /// The number of coefficients that the dimension stands for. A dimension
    /// below zero stands for none.
    pub open spec fn spec_len(self) -> usize {
        if self.dimension > 0 {
            self.dimension as usize
        } else {
            0
        }
    }

    /// The number of coefficients that the dimension stands for. A dimension
    /// below zero stands for none.
    #[verifier::when_used_as_spec(spec_len)]
    pub fn len(self) -> (n: usize)
        ensures
            n == self.len(),
    {
        if self.dimension > 0 {
            self.dimension as usize
        } else {
            0
        }
    }
}

/// Dimension of the default parameter set.
pub const LWE_DIMENSION: i32 = 1024;

/// Noise deviation of the default parameter set: the double nearest to 2^-24
/// as written to nine significant digits.
pub const LWE_NOISE_STD_BITS: u64 = 0x3e70_0000_001c_5f68;

/// The default parameter set.
pub fn lwe_config() -> (config: LweConfig)
    ensures
        config == (LweConfig { dimension: LWE_DIMENSION, noise_std_bits: LWE_NOISE_STD_BITS }),
{
    LweConfig { dimension: LWE_DIMENSION, noise_std_bits: LWE_NOISE_STD_BITS }
}

} // verus!
