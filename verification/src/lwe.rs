//! LWE secret keys and ciphertexts.

use crate::parameters::{LweDimension, LweSize};
use crate::torus::UnsignedTorus;
use vstd::prelude::*;

verus! {

/// An LWE secret key: as many torus elements as the masks it is used with.
/// A key is read by any number of encryptions and decryptions and changed by
/// none.
#[derive(Clone, Debug, PartialEq, Eq)]
pub struct LweSecretKey<Scalar> {
    data: Vec<Scalar>,
}

impl<Scalar: UnsignedTorus> View for LweSecretKey<Scalar> {
    type V = Seq<Scalar>;

    closed spec fn view(&self) -> Seq<Scalar> {
        self.data@
    }
}

impl<Scalar: UnsignedTorus> LweSecretKey<Scalar> {
    /// The key with the elements of `container`, in their order.
    pub fn from_container(container: Vec<Scalar>) -> (key: Self)
        ensures
            key@ == container@,
    {
        LweSecretKey { data: container }
    }

    /// The elements of the key, in their order.
    pub fn into_container(self) -> (container: Vec<Scalar>)
        ensures
            container@ == self@,
    {
        self.data
    }

    /// The number of elements of the key.
    pub fn lwe_dimension(&self) -> (dimension: LweDimension)
        ensures
            dimension.0 == self@.len(),
    {
        LweDimension(self.data.len())
    }

    /// The elements of the key, in their order.
    pub fn as_slice(&self) -> (slice: &[Scalar])
        ensures
            slice@ == self@,
    {
        self.data.as_slice()
    }
}

/// The mask of a ciphertext: all its elements but the last.
pub open spec fn lwe_mask<Scalar>(ciphertext: Seq<Scalar>) -> Seq<Scalar> {
    ciphertext.drop_last()
}

/// The body of a ciphertext: its last element.
pub open spec fn lwe_body<Scalar>(ciphertext: Seq<Scalar>) -> Scalar {
    ciphertext.last()
}

/// An LWE ciphertext: one run of torus elements, the mask first and the body
/// after it. Nothing else is stored: neither the key nor the noise level can
/// be read off a ciphertext.
#[derive(Clone, Debug, PartialEq, Eq)]
pub struct LweCiphertext<Scalar> {
    data: Vec<Scalar>,
}

impl<Scalar: UnsignedTorus> View for LweCiphertext<Scalar> {
    type V = Seq<Scalar>;

    closed spec fn view(&self) -> Seq<Scalar> {
        self.data@
    }
}

impl<Scalar: UnsignedTorus> LweCiphertext<Scalar> {
    /// A ciphertext is never empty: it has a body.
    pub open spec fn wf(&self) -> bool {
        self@.len() >= 1
    }

    /// A ciphertext of `lwe_size` copies of `fill`.
    pub fn new(fill: Scalar, lwe_size: LweSize) -> (ciphertext: Self)
        requires
            lwe_size.0 >= 1,
        ensures
            ciphertext.wf(),
            ciphertext@ == Seq::new(lwe_size.0 as nat, |i: int| fill),
    {
        let mut data: Vec<Scalar> = Vec::new();
        let mut i: usize = 0;
        while i < lwe_size.0
            invariant
                i <= lwe_size.0,
                data@ == Seq::new(i as nat, |j: int| fill),
            decreases lwe_size.0 - i,
        {
            data.push(fill);
            i += 1;
        }
        LweCiphertext { data }
    }

    /// The ciphertext with the elements of `container`: the mask, then the
    /// body.
    pub fn from_container(container: Vec<Scalar>) -> (ciphertext: Self)
        requires
            container@.len() >= 1,
        ensures
            ciphertext.wf(),
            ciphertext@ == container@,
    {
        LweCiphertext { data: container }
    }

    /// The elements of the ciphertext: the mask, then the body.
    pub fn into_container(self) -> (container: Vec<Scalar>)
        ensures
            container@ == self@,
    {
        self.data
    }

    /// The number of elements of the ciphertext, the body among them.
    pub fn lwe_size(&self) -> (size: LweSize)
        ensures
            size.0 == self@.len(),
    {
        LweSize(self.data.len())
    }

    /// The elements of the ciphertext: the mask, then the body.
    pub fn as_slice(&self) -> (slice: &[Scalar])
        ensures
            slice@ == self@,
    {
        self.data.as_slice()
    }

    /// The mask and the body, side by side.
    pub fn get_mask_and_body(&self) -> (parts: (&[Scalar], &Scalar))
        requires
            self.wf(),
        ensures
            parts.0@ == lwe_mask(self@),
            *parts.1 == lwe_body(self@),
    {
        let n = self.data.len();
        let (mask, body) = self.data.as_slice().split_at(n - 1);
        (mask, &body[0])
    }

    /// The mask and the body, side by side and open to change. The two do
    /// not overlap, and together they are the whole ciphertext.
    pub fn get_mut_mask_and_body(&mut self) -> (parts: (&mut [Scalar], &mut [Scalar]))
        requires
            old(self).wf(),
        ensures
            parts.0@ == lwe_mask(old(self)@),
            parts.1@ == seq![lwe_body(old(self)@)],
            final(self)@ == final(parts.0)@ + final(parts.1)@,
    {
        let n = self.data.len();
        self.data.as_mut_slice().split_at_mut(n - 1)
    }
}

} // verus!
