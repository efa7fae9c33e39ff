//! Encoded messages: what encryption takes and decryption gives back.

use crate::parameters::PlaintextCount;
use crate::torus::UnsignedTorus;
use vstd::prelude::*;

verus! {

/// One encoded message: a torus element. Encoding and decoding are the
/// caller's business.
#[derive(Clone, Copy, Debug, PartialEq, Eq)]
pub struct Plaintext<Scalar>(pub Scalar);

/// A run of encoded messages. The order matters: the plaintext at an index
/// belongs to the ciphertext, or to the coefficient, at the same index.
#[derive(Clone, Debug, PartialEq, Eq)]
pub struct PlaintextList<Scalar> {
    data: Vec<Scalar>,
}

impl<Scalar: UnsignedTorus> View for PlaintextList<Scalar> {
    type V = Seq<Scalar>;

    closed spec fn view(&self) -> Seq<Scalar> {
        self.data@
    }
}

impl<Scalar: UnsignedTorus> PlaintextList<Scalar> {
    /// A list of `count` copies of `fill`.
    pub fn new(fill: Scalar, count: PlaintextCount) -> (list: Self)
        ensures
            list@ == Seq::new(count.0 as nat, |i: int| fill),
    {
        let mut data: Vec<Scalar> = Vec::new();
        let mut i: usize = 0;
        while i < count.0
            invariant
                i <= count.0,
                data@ == Seq::new(i as nat, |j: int| fill),
            decreases count.0 - i,
        {
            data.push(fill);
            i += 1;
        }
        PlaintextList { data }
    }

    /// The list of the elements of `container`, in their order.
    pub fn from_container(container: Vec<Scalar>) -> (list: Self)
        ensures
            list@ == container@,
    {
        PlaintextList { data: container }
    }

    /// The plaintexts, in their order.
    pub fn into_container(self) -> (container: Vec<Scalar>)
        ensures
            container@ == self@,
    {
        self.data
    }

    /// The number of plaintexts.
    pub fn plaintext_count(&self) -> (count: PlaintextCount)
        ensures
            count.0 == self@.len(),
    {
        PlaintextCount(self.data.len())
    }

    /// The plaintexts, in their order.
    pub fn as_slice(&self) -> (slice: &[Scalar])
        ensures
            slice@ == self@,
    {
        self.data.as_slice()
    }

    /// The elements, open to change; their number is fixed.
    pub fn as_mut_slice(&mut self) -> (slice: &mut [Scalar])
        ensures
            slice@ == old(self)@,
            final(slice)@ == final(self)@,
    {
        self.data.as_mut_slice()
    }
}

} // verus!
