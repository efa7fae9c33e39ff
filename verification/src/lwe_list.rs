//! Lists of LWE ciphertexts of one size, held in one run of elements.

use crate::lwe::{lwe_body, lwe_mask, LweCiphertext};
use crate::parameters::{CiphertextCount, LweSize};
use crate::slice_algorithms::{chunk, lemma_chunk_bounds};
use crate::torus::UnsignedTorus;
use vstd::prelude::*;
use vstd::slice::{slice_subrange, slice_to_vec};

verus! {

/// The run `elements` with its `index`-th piece of `size` elements replaced
/// by `piece`.
pub open spec fn with_chunk<T>(elements: Seq<T>, size: nat, index: int, piece: Seq<T>) -> Seq<T> {
    elements.subrange(0, index * size) + piece + elements.subrange(
        (index + 1) * size,
        elements.len() as int,
    )
}

/// Two different pieces of a run do not overlap.
pub proof fn lemma_chunks_apart(size: nat, i: int, j: int)
    requires
        0 <= i < j,
    ensures
        (i + 1) * size <= j * size,
{
    assert((i + 1) * size <= j * size) by (nonlinear_arith)
        requires
            0 <= i,
            i + 1 <= j,
    ;
}

/// Replacing one piece of a run changes that piece and no other.
pub proof fn lemma_with_chunk<T>(elements: Seq<T>, size: nat, index: int, piece: Seq<T>, other: int)
    requires
        size >= 1,
        elements.len() % size == 0,
        0 <= index < elements.len() / size,
        0 <= other < elements.len() / size,
        piece.len() == size,
    ensures
        with_chunk(elements, size, index, piece).len() == elements.len(),
        other == index ==> chunk(with_chunk(elements, size, index, piece), size, other) == piece,
        other != index ==> chunk(with_chunk(elements, size, index, piece), size, other) == chunk(
            elements,
            size,
            other,
        ),
{
    let len = elements.len();
    lemma_chunk_bounds(len, size, index);
    lemma_chunk_bounds(len, size, other);
    let replaced = with_chunk(elements, size, index, piece);
    if other == index {
        assert(chunk(replaced, size, other) =~= piece);
    } else {
        if other < index {
            lemma_chunks_apart(size, other, index);
        } else {
            lemma_chunks_apart(size, index, other);
        }
        assert(chunk(replaced, size, other) =~= chunk(elements, size, other));
    }
}

/// A list of LWE ciphertexts that all have the same size. The ciphertexts
/// lie one after the other in one run of elements.
#[derive(Clone, Debug, PartialEq, Eq)]
pub struct LweCiphertextList<Scalar> {
    data: Vec<Scalar>,
    lwe_size: LweSize,
}

impl<Scalar: UnsignedTorus> LweCiphertextList<Scalar> {
    /// All the elements of the list, in order.
    pub closed spec fn elements(&self) -> Seq<Scalar> {
        self.data@
    }

    /// The size of each ciphertext.
    pub closed spec fn size(&self) -> nat {
        self.lwe_size.0 as nat
    }

    /// The ciphertexts have a body, and the elements divide into them
    /// evenly.
    pub open spec fn wf(&self) -> bool {
        &&& self.size() >= 1
        &&& self.elements().len() % self.size() == 0
    }

    /// The number of ciphertexts.
    pub open spec fn count(&self) -> nat {
        self.elements().len() / self.size()
    }

    /// The ciphertexts, in order.
    pub open spec fn view(&self) -> Seq<Seq<Scalar>> {
        Seq::new(self.count(), |i: int| chunk(self.elements(), self.size(), i))
    }

    /// A list of `count` ciphertexts, every element of which is `fill`.
    pub fn new(fill: Scalar, lwe_size: LweSize, count: CiphertextCount) -> (list: Self)
        requires
            lwe_size.0 >= 1,
            lwe_size.0 * count.0 <= usize::MAX,
        ensures
            list.wf(),
            list.size() == lwe_size.0,
            list.count() == count.0,
            list.elements() == Seq::new((lwe_size.0 * count.0) as nat, |i: int| fill),
    {
        let total = lwe_size.0 * count.0;
        let mut data: Vec<Scalar> = Vec::new();
        let mut i: usize = 0;
        while i < total
            invariant
                i <= total,
                data@ == Seq::new(i as nat, |j: int| fill),
            decreases total - i,
        {
            data.push(fill);
            i += 1;
        }
        proof {
            let size = lwe_size.0 as int;
            let n = count.0 as int;
            assert((size * n) % size == 0 && (size * n) / size == n) by (nonlinear_arith)
                requires
                    size >= 1,
                    n >= 0,
            ;
        }
        LweCiphertextList { data, lwe_size }
    }

    /// The list of the ciphertexts of `lwe_size` elements each that lie one
    /// after the other in `container`.
    pub fn from_container(container: Vec<Scalar>, lwe_size: LweSize) -> (list: Self)
        requires
            lwe_size.0 >= 1,
            container@.len() % (lwe_size.0 as nat) == 0,
        ensures
            list.wf(),
            list.size() == lwe_size.0,
            list.elements() == container@,
    {
        LweCiphertextList { data: container, lwe_size }
    }

    /// All the elements of the list, in order.
    pub fn into_container(self) -> (container: Vec<Scalar>)
        ensures
            container@ == self.elements(),
    {
        self.data
    }

    /// The size of each ciphertext.
    pub fn lwe_size(&self) -> (size: LweSize)
        ensures
            size.0 == self.size(),
    {
        self.lwe_size
    }

    /// The number of ciphertexts.
    pub fn ciphertext_count(&self) -> (count: CiphertextCount)
        requires
            self.wf(),
        ensures
            count.0 == self.count(),
    {
        CiphertextCount(self.data.len() / self.lwe_size.0)
    }

    /// All the elements of the list, in order.
    pub fn as_slice(&self) -> (slice: &[Scalar])
        ensures
            slice@ == self.elements(),
    {
        self.data.as_slice()
    }

    /// A copy of the ciphertext at `index`.
    pub fn get(&self, index: usize) -> (ciphertext: LweCiphertext<Scalar>)
        requires
            self.wf(),
            index < self.count(),
        ensures
            ciphertext.wf(),
            ciphertext@.len() == self.size(),
            ciphertext@ == self@[index as int],
    {
        let size = self.lwe_size.0;
        proof {
            lemma_chunk_bounds(self.data.len() as nat, size as nat, index as int);
            assert(index * size + size <= self.data.len() <= usize::MAX);
        }
        let start = index * size;
        let piece = slice_subrange(self.data.as_slice(), start, start + size);
        LweCiphertext::from_container(slice_to_vec(piece))
    }

    /// The mask and the body of the ciphertext at `index`, open to change.
    /// What is written through them lands in that ciphertext and in no
    /// other.
    pub fn get_mut_mask_and_body(&mut self, index: usize) -> (parts: (
        &mut [Scalar],
        &mut [Scalar],
    ))
        requires
            old(self).wf(),
            index < old(self).count(),
        ensures
            parts.0@.len() + 1 == old(self).size(),
            parts.0@ == lwe_mask(old(self)@[index as int]),
            parts.1@ == seq![lwe_body(old(self)@[index as int])],
            final(self).size() == old(self).size(),
            final(self).elements() == with_chunk(
                old(self).elements(),
                old(self).size(),
                index as int,
                final(parts.0)@ + final(parts.1)@,
            ),
    {
        let size = self.lwe_size.0;
        proof {
            lemma_chunk_bounds(self.data.len() as nat, size as nat, index as int);
            assert(index * size + size <= self.data.len() <= usize::MAX);
        }
        let start = index * size;
        let ghost elements = self.data@;
        let (head, tail) = self.data.as_mut_slice().split_at_mut(start);
        let (piece, rest) = tail.split_at_mut(size);
        let ghost whole = piece@;
        let (mask, body) = piece.split_at_mut(size - 1);
        proof {
            assert(whole =~= chunk(elements, size as nat, index as int));
            assert(mask@ =~= lwe_mask(whole));
            assert(body@ =~= seq![lwe_body(whole)]);
            assert(rest@ =~= elements.subrange(start + size, elements.len() as int));
        }
        (mask, body)
    }
}

/// Writing a whole ciphertext into one place of a list keeps the list well
/// formed, puts the ciphertext at that place and leaves the others alone.
pub proof fn lemma_list_with_ciphertext<Scalar: UnsignedTorus>(
    before: LweCiphertextList<Scalar>,
    after: LweCiphertextList<Scalar>,
    index: int,
    ciphertext: Seq<Scalar>,
)
    requires
        before.wf(),
        0 <= index < before.count(),
        ciphertext.len() == before.size(),
        after.size() == before.size(),
        after.elements() == with_chunk(before.elements(), before.size(), index, ciphertext),
    ensures
        after.wf(),
        after.count() == before.count(),
        after@ == before@.update(index, ciphertext),
{
    lemma_with_chunk(before.elements(), before.size(), index, ciphertext, index);
    assert forall|other: int| 0 <= other < before.count() implies #[trigger] after@[other]
        == before@.update(index, ciphertext)[other] by {
        lemma_with_chunk(before.elements(), before.size(), index, ciphertext, other);
    }
    assert(after@ =~= before@.update(index, ciphertext));
}

} // verus!
