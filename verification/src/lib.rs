//! Secret-key LWE and GLWE encryption over the discretized torus.
//!
//! A ciphertext is a run of torus elements: a mask followed by a body. The
//! body carries the inner product of the mask with the secret key, the encoded
//! message and a noise term, all taken modulo the size of the torus.

pub mod torus;
pub mod slice_algorithms;
pub mod parameters;
pub mod dispersion;
pub mod random;
pub mod plaintext;
pub mod lwe;
pub mod lwe_encryption;
pub mod lwe_list;
pub mod glwe;
pub mod glwe_encryption;
pub mod engines;
pub mod lwe_engines;
pub mod glwe_engines;
