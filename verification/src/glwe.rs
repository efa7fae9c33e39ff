//! GLWE secret keys and ciphertexts.
//!
//! Where an LWE key or mask holds torus elements, a GLWE key or mask holds
//! polynomials over the torus, and the body of a GLWE ciphertext is one
//! polynomial. All polynomials of a key or ciphertext have the same number
//! of coefficients and lie one after the other in one run of elements.

use crate::parameters::{GlweDimension, GlweSize, PolynomialSize};
use crate::torus::UnsignedTorus;
use vstd::arithmetic::div_mod::lemma_fundamental_div_mod;
use vstd::prelude::*;

verus! {

/// The mask of a GLWE ciphertext: all its polynomials but the last.
pub open spec fn glwe_mask<T>(ciphertext: Seq<T>, polynomial_size: nat) -> Seq<T> {
    ciphertext.subrange(0, ciphertext.len() - polynomial_size)
}

/// The body of a GLWE ciphertext: its last polynomial.
pub open spec fn glwe_body<T>(ciphertext: Seq<T>, polynomial_size: nat) -> Seq<T> {
    ciphertext.subrange(ciphertext.len() - polynomial_size, ciphertext.len() as int)
}

/// A run that holds one polynomial more than another is longer by the
/// polynomial size, and the other way round.
pub proof fn lemma_one_more_polynomial(shorter: nat, longer: nat, polynomial_size: nat)
    requires
        polynomial_size >= 1,
        shorter % polynomial_size == 0,
        longer % polynomial_size == 0,
    ensures
        longer / polynomial_size == shorter / polynomial_size + 1 <==> longer == shorter
            + polynomial_size,
{
    lemma_fundamental_div_mod(shorter as int, polynomial_size as int);
    lemma_fundamental_div_mod(longer as int, polynomial_size as int);
    let n = polynomial_size as int;
    let a = shorter as int / n;
    let b = longer as int / n;
    assert(n * (a + 1) == n * a + n) by (nonlinear_arith);
    assert(b != a + 1 ==> n * b != n * a + n) by (nonlinear_arith)
        requires
            n >= 1,
    ;
}

/// A GLWE secret key: as many polynomials as the masks it is used with.
#[derive(Clone, Debug, PartialEq, Eq)]
pub struct GlweSecretKey<Scalar> {
    data: Vec<Scalar>,
    polynomial_size: PolynomialSize,
}

impl<Scalar: UnsignedTorus> GlweSecretKey<Scalar> {
    /// The coefficients of all the polynomials of the key, in order.
    pub closed spec fn elements(&self) -> Seq<Scalar> {
        self.data@
    }

    /// The number of coefficients of each polynomial.
    pub closed spec fn poly_size(&self) -> nat {
        self.polynomial_size.0 as nat
    }

    /// The polynomials have a coefficient, and the elements divide into them
    /// evenly.
    pub open spec fn wf(&self) -> bool {
        &&& self.poly_size() >= 1
        &&& self.elements().len() % self.poly_size() == 0
    }

    /// The number of polynomials.
    pub open spec fn dimension(&self) -> nat {
        self.elements().len() / self.poly_size()
    }

    /// The key whose polynomials of `polynomial_size` coefficients each lie
    /// one after the other in `container`.
    pub fn from_container(container: Vec<Scalar>, polynomial_size: PolynomialSize) -> (key: Self)
        requires
            polynomial_size.0 >= 1,
            container@.len() % (polynomial_size.0 as nat) == 0,
        ensures
            key.wf(),
            key.poly_size() == polynomial_size.0,
            key.elements() == container@,
    {
        GlweSecretKey { data: container, polynomial_size }
    }

    /// The coefficients of all the polynomials of the key, in order.
    pub fn into_container(self) -> (container: Vec<Scalar>)
        ensures
            container@ == self.elements(),
    {
        self.data
    }

    /// The number of polynomials of the key.
    pub fn glwe_dimension(&self) -> (dimension: GlweDimension)
        requires
            self.wf(),
        ensures
            dimension.0 == self.dimension(),
    {
        GlweDimension(self.data.len() / self.polynomial_size.0)
    }

    /// The number of coefficients of each polynomial.
    pub fn polynomial_size(&self) -> (size: PolynomialSize)
        ensures
            size.0 == self.poly_size(),
    {
        self.polynomial_size
    }

    /// The coefficients of all the polynomials of the key, in order.
    pub fn as_slice(&self) -> (slice: &[Scalar])
        ensures
            slice@ == self.elements(),
    {
        self.data.as_slice()
    }
}

/// A GLWE ciphertext: the polynomials of the mask first, the body
/// polynomial after them. Nothing else is stored.
#[derive(Clone, Debug, PartialEq, Eq)]
pub struct GlweCiphertext<Scalar> {
    data: Vec<Scalar>,
    polynomial_size: PolynomialSize,
}

impl<Scalar: UnsignedTorus> GlweCiphertext<Scalar> {
    /// The coefficients of all the polynomials of the ciphertext, in order.
    pub closed spec fn elements(&self) -> Seq<Scalar> {
        self.data@
    }

    /// The number of coefficients of each polynomial.
    pub closed spec fn poly_size(&self) -> nat {
        self.polynomial_size.0 as nat
    }

    /// The polynomials have a coefficient, the elements divide into them
    /// evenly, and there is a body.
    pub open spec fn wf(&self) -> bool {
        &&& self.poly_size() >= 1
        &&& self.elements().len() % self.poly_size() == 0
        &&& self.elements().len() >= self.poly_size()
    }

    /// The number of polynomials, the body among them.
    pub open spec fn size(&self) -> nat {
        self.elements().len() / self.poly_size()
    }

    /// A ciphertext of `glwe_size` polynomials, every coefficient of which
    /// is `fill`.
    pub fn new(fill: Scalar, polynomial_size: PolynomialSize, glwe_size: GlweSize) -> (ciphertext:
        Self)
        requires
            polynomial_size.0 >= 1,
            glwe_size.0 >= 1,
            polynomial_size.0 * glwe_size.0 <= usize::MAX,
        ensures
            ciphertext.wf(),
            ciphertext.poly_size() == polynomial_size.0,
            ciphertext.size() == glwe_size.0,
            ciphertext.elements() == Seq::new(
                (polynomial_size.0 * glwe_size.0) as nat,
                |i: int| fill,
            ),
    {
        let total = polynomial_size.0 * glwe_size.0;
        let mut data: Vec<Scalar> = Vec::new();
        let mut i: usize = 0;
        while i < total
            invariant
                i <= total,
                data@ == Seq::new(i as nat, |j: int| fill),
            decreases total - i,
        {
            data.push(fill);
            i += 1;
        }
        proof {
            let n = polynomial_size.0 as int;
            let count = glwe_size.0 as int;
            assert((n * count) % n == 0 && (n * count) / n == count && n * count >= n)
                by (nonlinear_arith)
                requires
                    n >= 1,
                    count >= 1,
            ;
        }
        GlweCiphertext { data, polynomial_size }
    }

    /// The ciphertext whose polynomials of `polynomial_size` coefficients
    /// each lie one after the other in `container`: the mask, then the body.
    pub fn from_container(container: Vec<Scalar>, polynomial_size: PolynomialSize) -> (ciphertext:
        Self)
        requires
            polynomial_size.0 >= 1,
            container@.len() % (polynomial_size.0 as nat) == 0,
            container@.len() >= polynomial_size.0,
        ensures
            ciphertext.wf(),
            ciphertext.poly_size() == polynomial_size.0,
            ciphertext.elements() == container@,
    {
        GlweCiphertext { data: container, polynomial_size }
    }

    /// The coefficients of all the polynomials of the ciphertext, in order.
    pub fn into_container(self) -> (container: Vec<Scalar>)
        ensures
            container@ == self.elements(),
    {
        self.data
    }

    /// The number of polynomials, the body among them.
    pub fn glwe_size(&self) -> (size: GlweSize)
        requires
            self.wf(),
        ensures
            size.0 == self.size(),
            size.0 >= 1,
    {
        proof {
            lemma_fundamental_div_mod(self.data@.len() as int, self.polynomial_size.0 as int);
            let n = self.polynomial_size.0 as int;
            let count = self.data@.len() as int / n;
            assert(count >= 1) by (nonlinear_arith)
                requires
                    n >= 1,
                    n * count >= n,
            ;
        }
        GlweSize(self.data.len() / self.polynomial_size.0)
    }

    /// The number of polynomials of the mask.
    pub fn glwe_dimension(&self) -> (dimension: GlweDimension)
        requires
            self.wf(),
        ensures
            dimension.0 == self.size() - 1,
    {
        self.glwe_size().to_glwe_dimension()
    }

    /// The number of coefficients of each polynomial.
    pub fn polynomial_size(&self) -> (size: PolynomialSize)
        ensures
            size.0 == self.poly_size(),
    {
        self.polynomial_size
    }

    /// The coefficients of all the polynomials of the ciphertext, in order.
    pub fn as_slice(&self) -> (slice: &[Scalar])
        ensures
            slice@ == self.elements(),
    {
        self.data.as_slice()
    }

    /// The mask and the body, side by side.
    pub fn get_mask_and_body(&self) -> (parts: (&[Scalar], &[Scalar]))
        requires
            self.wf(),
        ensures
            parts.0@ == glwe_mask(self.elements(), self.poly_size()),
            parts.1@ == glwe_body(self.elements(), self.poly_size()),
    {
        let split = self.data.len() - self.polynomial_size.0;
        self.data.as_slice().split_at(split)
    }

    /// The mask and the body, side by side and open to change. The two do
    /// not overlap, and together they are the whole ciphertext.
    pub fn get_mut_mask_and_body(&mut self) -> (parts: (&mut [Scalar], &mut [Scalar]))
        requires
            old(self).wf(),
        ensures
            parts.0@ == glwe_mask(old(self).elements(), old(self).poly_size()),
            parts.1@ == glwe_body(old(self).elements(), old(self).poly_size()),
            final(self).poly_size() == old(self).poly_size(),
            final(self).elements() == final(parts.0)@ + final(parts.1)@,
    {
        let split = self.data.len() - self.polynomial_size.0;
        self.data.as_mut_slice().split_at_mut(split)
    }
}

} // verus!
