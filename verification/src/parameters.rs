//! The sizes that fix the shape of keys, ciphertexts and lists.

use vstd::prelude::*;

verus! {

/// The number of elements in the mask of an LWE ciphertext, which is the
/// length of the secret key.
#[derive(Clone, Copy, Debug, PartialEq, Eq, Structural)]
pub struct LweDimension(pub usize);

/// The number of elements in an LWE ciphertext: the mask and one body.
#[derive(Clone, Copy, Debug, PartialEq, Eq, Structural)]
pub struct LweSize(pub usize);

/// The number of polynomials in the mask of a GLWE ciphertext.
#[derive(Clone, Copy, Debug, PartialEq, Eq, Structural)]
pub struct GlweDimension(pub usize);

/// The number of polynomials in a GLWE ciphertext: the mask and one body.
#[derive(Clone, Copy, Debug, PartialEq, Eq, Structural)]
pub struct GlweSize(pub usize);

/// The number of coefficients of each polynomial of a GLWE key or ciphertext.
#[derive(Clone, Copy, Debug, PartialEq, Eq, Structural)]
pub struct PolynomialSize(pub usize);

/// The number of plaintexts in a list.
#[derive(Clone, Copy, Debug, PartialEq, Eq, Structural)]
pub struct PlaintextCount(pub usize);

/// The number of ciphertexts in a list.
#[derive(Clone, Copy, Debug, PartialEq, Eq, Structural)]
pub struct CiphertextCount(pub usize);

impl LweDimension {
    /// The size of the ciphertexts under a key of this dimension.
    pub fn to_lwe_size(&self) -> (size: LweSize)
        requires
            self.0 < usize::MAX,
        ensures
            size.0 == self.0 + 1,
    {
        LweSize(self.0 + 1)
    }
}

impl LweSize {
    /// The dimension of the keys for ciphertexts of this size.
    pub fn to_lwe_dimension(&self) -> (dimension: LweDimension)
        requires
            self.0 >= 1,
        ensures
            dimension.0 == self.0 - 1,
    {
        LweDimension(self.0 - 1)
    }
}

impl GlweDimension {
    /// The size of the ciphertexts under a key of this dimension.
    pub fn to_glwe_size(&self) -> (size: GlweSize)
        requires
            self.0 < usize::MAX,
        ensures
            size.0 == self.0 + 1,
    {
        GlweSize(self.0 + 1)
    }
}

impl GlweSize {
    /// The dimension of the keys for ciphertexts of this size.
    pub fn to_glwe_dimension(&self) -> (dimension: GlweDimension)
        requires
            self.0 >= 1,
        ensures
            dimension.0 == self.0 - 1,
    {
        GlweDimension(self.0 - 1)
    }
}

} // verus!
