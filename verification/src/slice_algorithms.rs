//! Arithmetic on runs of torus elements.

use crate::torus::{
    lemma_reduce_add_left, lemma_reduce_add_right, lemma_reduce_sub_left, lemma_reduce_sub_right,
    UnsignedTorus,
};
use vstd::arithmetic::div_mod::lemma_fundamental_div_mod;
use vstd::prelude::*;
use vstd::slice::slice_subrange;

verus! {

/// The sum of `lhs[i] * rhs[i]` over the first `n` places, as an integer:
/// nothing is reduced.
pub open spec fn dot_product_prefix<S: UnsignedTorus>(lhs: Seq<S>, rhs: Seq<S>, n: int) -> int
    decreases n,
{
    if n <= 0 {
        0
    } else {
        dot_product_prefix(lhs, rhs, n - 1) + lhs[n - 1].value() * rhs[n - 1].value()
    }
}

/// The inner product of two runs of the same length, as an integer.
pub open spec fn dot_product<S: UnsignedTorus>(lhs: Seq<S>, rhs: Seq<S>) -> int {
    dot_product_prefix(lhs, rhs, lhs.len() as int)
}

/// Adding up products that are reduced one by one reaches the same element
/// as reducing the sum once at the end.
pub proof fn lemma_accumulate_product<S: UnsignedTorus>(sum: int, a: S, b: S)
    ensures
        S::reduce(S::reduce(sum).value() + S::reduce(a.value() * b.value()).value()) == S::reduce(
            sum + a.value() * b.value(),
        ),
{
    let p = a.value() * b.value();
    lemma_reduce_add_left::<S>(sum, S::reduce(p).value());
    lemma_reduce_add_right::<S>(sum, p);
}

/// Taking off products that are reduced one by one reaches the same element
/// as reducing the difference once at the end.
pub proof fn lemma_deduct_product<S: UnsignedTorus>(sum: int, a: S, b: S)
    ensures
        S::reduce(S::reduce(sum).value() - S::reduce(a.value() * b.value()).value()) == S::reduce(
            sum - a.value() * b.value(),
        ),
{
    let p = a.value() * b.value();
    lemma_reduce_sub_left::<S>(sum, S::reduce(p).value());
    lemma_reduce_sub_right::<S>(sum, p);
}

/// The inner product of two runs of the same length on the torus: the
/// products are accumulated with wrapping arithmetic, which gives the integer
/// inner product reduced once.
pub fn wrapping_dot_product<Scalar: UnsignedTorus>(lhs: &[Scalar], rhs: &[Scalar]) -> (r: Scalar)
    requires
        lhs@.len() == rhs@.len(),
    ensures
        r == Scalar::reduce(dot_product(lhs@, rhs@)),
{
    let mut acc = Scalar::zero();
    let mut i: usize = 0;
    while i < lhs.len()
        invariant
            lhs@.len() == rhs@.len(),
            i <= lhs@.len(),
            acc == Scalar::reduce(dot_product_prefix(lhs@, rhs@, i as int)),
        decreases lhs@.len() - i,
    {
        proof {
            lemma_accumulate_product::<Scalar>(
                dot_product_prefix(lhs@, rhs@, i as int),
                lhs@[i as int],
                rhs@[i as int],
            );
        }
        acc = acc.wrapping_add(lhs[i].wrapping_mul(rhs[i]));
        i += 1;
    }
    acc
}

/// The `index`-th piece of `size` elements of a run.
pub open spec fn chunk<T>(elements: Seq<T>, size: nat, index: int) -> Seq<T> {
    elements.subrange(index * size, (index + 1) * size)
}

/// Where the pieces of a run lie, when the run divides into pieces evenly.
pub proof fn lemma_chunk_bounds(len: nat, size: nat, index: int)
    requires
        size >= 1,
        len % size == 0,
        0 <= index < len / size,
    ensures
        0 <= index * size,
        (index + 1) * size == index * size + size,
        (index + 1) * size <= len,
{
    lemma_fundamental_div_mod(len as int, size as int);
    let count = len as int / size as int;
    assert(index * size >= 0) by (nonlinear_arith)
        requires
            index >= 0,
            size >= 1,
    ;
    assert((index + 1) * size == index * size + size) by (nonlinear_arith);
    assert((index + 1) * size <= size * count) by (nonlinear_arith)
        requires
            index + 1 <= count,
            size >= 1,
    ;
}

/// Where the pieces of a run of `count` pieces lie. The pieces may be empty.
pub proof fn lemma_chunk_bounds_of_run(len: nat, size: nat, count: int, index: int)
    requires
        len == count * size,
        0 <= index < count,
    ensures
        0 <= index * size,
        (index + 1) * size == index * size + size,
        (index + 1) * size <= len,
{
    assert(index * size >= 0) by (nonlinear_arith)
        requires
            index >= 0,
            size >= 0,
    ;
    assert((index + 1) * size == index * size + size) by (nonlinear_arith);
    assert((index + 1) * size <= count * size) by (nonlinear_arith)
        requires
            index + 1 <= count,
            size >= 0,
    ;
}

/// Adding one piece at the end of a run of `count` pieces leaves the pieces
/// before it as they were and makes the new one the piece at `count`.
pub proof fn lemma_chunk_of_grown<T>(
    run: Seq<T>,
    piece: Seq<T>,
    size: nat,
    count: int,
    index: int,
)
    requires
        run.len() == count * size,
        piece.len() == size,
        0 <= index <= count,
    ensures
        index < count ==> chunk(run + piece, size, index) == chunk(run, size, index),
        index == count ==> chunk(run + piece, size, index) == piece,
{
    assert((count + 1) * size == count * size + size) by (nonlinear_arith);
    if index < count {
        lemma_chunk_bounds_of_run(run.len(), size, count, index);
        assert(chunk(run + piece, size, index) =~= chunk(run, size, index));
    } else {
        assert(chunk(run + piece, size, index) =~= piece);
    }
}

/// The part that place `i` of `lhs` has in coefficient `k` of the product of
/// two polynomials modulo `X^N + 1`, where `N` is their number of
/// coefficients: `lhs[i]` meets the `rhs[j]` with `i + j = k`, or with
/// `i + j = k + N` and then with the sign turned, as `X^N = -1`.
pub open spec fn negacyclic_term<S: UnsignedTorus>(lhs: Seq<S>, rhs: Seq<S>, k: int, i: int) -> int {
    if i <= k {
        lhs[i].value() * rhs[k - i].value()
    } else {
        -(lhs[i].value() * rhs[k - i + lhs.len()].value())
    }
}

/// The sum of the parts that the first `n` places of `lhs` have in
/// coefficient `k` of the product, as an integer.
pub open spec fn negacyclic_coefficient_prefix<S: UnsignedTorus>(
    lhs: Seq<S>,
    rhs: Seq<S>,
    k: int,
    n: int,
) -> int
    decreases n,
{
    if n <= 0 {
        0
    } else {
        negacyclic_coefficient_prefix(lhs, rhs, k, n - 1) + negacyclic_term(lhs, rhs, k, n - 1)
    }
}

/// Coefficient `k` of the product of two polynomials of the same size modulo
/// `X^N + 1`, as an integer.
pub open spec fn negacyclic_coefficient<S: UnsignedTorus>(lhs: Seq<S>, rhs: Seq<S>, k: int) -> int {
    negacyclic_coefficient_prefix(lhs, rhs, k, lhs.len() as int)
}

/// Coefficient `k` of the sum of the products of the first `n` polynomials
/// of `lhs` with the polynomials of `rhs` at the same places, as an integer.
/// Both runs hold polynomials of `polynomial_size` coefficients one after the
/// other.
pub open spec fn multisum_coefficient_prefix<S: UnsignedTorus>(
    lhs: Seq<S>,
    rhs: Seq<S>,
    polynomial_size: nat,
    k: int,
    n: int,
) -> int
    decreases n,
{
    if n <= 0 {
        0
    } else {
        multisum_coefficient_prefix(lhs, rhs, polynomial_size, k, n - 1) + negacyclic_coefficient(
            chunk(lhs, polynomial_size, n - 1),
            chunk(rhs, polynomial_size, n - 1),
            k,
        )
    }
}

/// Coefficient `k` of the sum of the products of the polynomials of `lhs`
/// with the polynomials of `rhs`, as an integer.
pub open spec fn multisum_coefficient<S: UnsignedTorus>(
    lhs: Seq<S>,
    rhs: Seq<S>,
    polynomial_size: nat,
    k: int,
) -> int {
    multisum_coefficient_prefix(lhs, rhs, polynomial_size, k, lhs.len() as int / polynomial_size as int)
}

/// Coefficient `k` of the product of two polynomials of the same size modulo
/// `X^N + 1`, on the torus.
pub fn wrapping_negacyclic_coefficient<Scalar: UnsignedTorus>(
    lhs: &[Scalar],
    rhs: &[Scalar],
    k: usize,
) -> (r: Scalar)
    requires
        lhs@.len() == rhs@.len(),
        k < lhs@.len(),
    ensures
        r == Scalar::reduce(negacyclic_coefficient(lhs@, rhs@, k as int)),
{
    let n = lhs.len();
    let mut acc = Scalar::zero();
    let mut i: usize = 0;
    while i < n
        invariant
            n == lhs@.len(),
            n == rhs@.len(),
            k < n,
            i <= n,
            acc == Scalar::reduce(negacyclic_coefficient_prefix(lhs@, rhs@, k as int, i as int)),
        decreases n - i,
    {
        let ghost sum = negacyclic_coefficient_prefix(lhs@, rhs@, k as int, i as int);
        if i <= k {
            proof {
                lemma_accumulate_product::<Scalar>(sum, lhs@[i as int], rhs@[k - i]);
            }
            acc = acc.wrapping_add(lhs[i].wrapping_mul(rhs[k - i]));
        } else {
            proof {
                lemma_deduct_product::<Scalar>(sum, lhs@[i as int], rhs@[k - i + n]);
            }
            acc = acc.wrapping_sub(lhs[i].wrapping_mul(rhs[n - i + k]));
        }
        i += 1;
    }
    acc
}

/// Coefficient `k` of the sum of the products of the polynomials of `lhs`
/// with the polynomials of `rhs` at the same places, on the torus.
pub fn wrapping_multisum_coefficient<Scalar: UnsignedTorus>(
    lhs: &[Scalar],
    rhs: &[Scalar],
    polynomial_size: usize,
    k: usize,
) -> (r: Scalar)
    requires
        polynomial_size >= 1,
        lhs@.len() == rhs@.len(),
        lhs@.len() % (polynomial_size as nat) == 0,
        k < polynomial_size,
    ensures
        r == Scalar::reduce(multisum_coefficient(lhs@, rhs@, polynomial_size as nat, k as int)),
{
    let count = lhs.len() / polynomial_size;
    let mut acc = Scalar::zero();
    let mut p: usize = 0;
    while p < count
        invariant
            polynomial_size >= 1,
            lhs@.len() == rhs@.len(),
            lhs@.len() % (polynomial_size as nat) == 0,
            k < polynomial_size,
            count == lhs@.len() / (polynomial_size as nat),
            p <= count,
            acc == Scalar::reduce(
                multisum_coefficient_prefix(lhs@, rhs@, polynomial_size as nat, k as int, p as int),
            ),
        decreases count - p,
    {
        proof {
            lemma_chunk_bounds(lhs.len() as nat, polynomial_size as nat, p as int);
            assert(p * polynomial_size + polynomial_size <= lhs.len() <= usize::MAX);
        }
        let start = p * polynomial_size;
        let left = slice_subrange(lhs, start, start + polynomial_size);
        let right = slice_subrange(rhs, start, start + polynomial_size);
        let product = wrapping_negacyclic_coefficient(left, right, k);
        proof {
            let sum = multisum_coefficient_prefix(
                lhs@,
                rhs@,
                polynomial_size as nat,
                k as int,
                p as int,
            );
            let term = negacyclic_coefficient(left@, right@, k as int);
            assert(left@ == chunk(lhs@, polynomial_size as nat, p as int));
            assert(right@ == chunk(rhs@, polynomial_size as nat, p as int));
            lemma_reduce_add_left::<Scalar>(sum, Scalar::reduce(term).value());
            lemma_reduce_add_right::<Scalar>(sum, term);
        }
        acc = acc.wrapping_add(product);
        p += 1;
    }
    acc
}

/// Adds `rhs` to `lhs`, element by element, on the torus.
pub fn slice_wrapping_add_assign<Scalar: UnsignedTorus>(lhs: &mut [Scalar], rhs: &[Scalar])
    requires
        old(lhs)@.len() == rhs@.len(),
    ensures
        final(lhs)@.len() == old(lhs)@.len(),
        forall|k: int|
            0 <= k < rhs@.len() ==> final(lhs)@[k] == Scalar::reduce(
                old(lhs)@[k].value() + rhs@[k].value(),
            ),
{
    let n = rhs.len();
    let mut k: usize = 0;
    while k < n
        invariant
            n == rhs@.len(),
            lhs@.len() == n,
            k <= n,
            forall|j: int|
                0 <= j < k ==> lhs@[j] == Scalar::reduce(old(lhs)@[j].value() + rhs@[j].value()),
            forall|j: int| k <= j < n ==> lhs@[j] == old(lhs)@[j],
        decreases n - k,
    {
        lhs[k] = lhs[k].wrapping_add(rhs[k]);
        k += 1;
    }
}

/// Adds to the polynomial `output` the sum of the products of the
/// polynomials of `lhs` with the polynomials of `rhs` at the same places, on
/// the torus. The polynomials of `lhs` and `rhs` have the size of `output`.
pub fn polynomial_wrapping_add_multisum_assign<Scalar: UnsignedTorus>(
    output: &mut [Scalar],
    lhs: &[Scalar],
    rhs: &[Scalar],
)
    requires
        old(output)@.len() >= 1,
        lhs@.len() == rhs@.len(),
        lhs@.len() % old(output)@.len() == 0,
    ensures
        final(output)@.len() == old(output)@.len(),
        forall|k: int|
            0 <= k < old(output)@.len() ==> final(output)@[k] == Scalar::reduce(
                old(output)@[k].value() + multisum_coefficient(lhs@, rhs@, old(output)@.len(), k),
            ),
{
    let n = output.len();
    let mut k: usize = 0;
    while k < n
        invariant
            n >= 1,
            n == output@.len(),
            n == old(output)@.len(),
            lhs@.len() == rhs@.len(),
            lhs@.len() % (n as nat) == 0,
            k <= n,
            forall|j: int|
                0 <= j < k ==> output@[j] == Scalar::reduce(
                    old(output)@[j].value() + multisum_coefficient(lhs@, rhs@, n as nat, j),
                ),
            forall|j: int| k <= j < n ==> output@[j] == old(output)@[j],
        decreases n - k,
    {
        let multisum = wrapping_multisum_coefficient(lhs, rhs, n, k);
        proof {
            lemma_reduce_add_right::<Scalar>(
                output@[k as int].value(),
                multisum_coefficient(lhs@, rhs@, n as nat, k as int),
            );
        }
        output[k] = output[k].wrapping_add(multisum);
        k += 1;
    }
}

/// Takes off the polynomial `output` the sum of the products of the
/// polynomials of `lhs` with the polynomials of `rhs` at the same places, on
/// the torus. The polynomials of `lhs` and `rhs` have the size of `output`.
pub fn polynomial_wrapping_sub_multisum_assign<Scalar: UnsignedTorus>(
    output: &mut [Scalar],
    lhs: &[Scalar],
    rhs: &[Scalar],
)
    requires
        old(output)@.len() >= 1,
        lhs@.len() == rhs@.len(),
        lhs@.len() % old(output)@.len() == 0,
    ensures
        final(output)@.len() == old(output)@.len(),
        forall|k: int|
            0 <= k < old(output)@.len() ==> final(output)@[k] == Scalar::reduce(
                old(output)@[k].value() - multisum_coefficient(lhs@, rhs@, old(output)@.len(), k),
            ),
{
    let n = output.len();
    let mut k: usize = 0;
    while k < n
        invariant
            n >= 1,
            n == output@.len(),
            n == old(output)@.len(),
            lhs@.len() == rhs@.len(),
            lhs@.len() % (n as nat) == 0,
            k <= n,
            forall|j: int|
                0 <= j < k ==> output@[j] == Scalar::reduce(
                    old(output)@[j].value() - multisum_coefficient(lhs@, rhs@, n as nat, j),
                ),
            forall|j: int| k <= j < n ==> output@[j] == old(output)@[j],
        decreases n - k,
    {
        let multisum = wrapping_multisum_coefficient(lhs, rhs, n, k);
        proof {
            lemma_reduce_sub_right::<Scalar>(
                output@[k as int].value(),
                multisum_coefficient(lhs@, rhs@, n as nat, k as int),
            );
        }
        output[k] = output[k].wrapping_sub(multisum);
        k += 1;
    }
}

} // verus!
