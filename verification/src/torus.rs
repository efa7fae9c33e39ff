//! Elements of the discretized torus: fixed-width unsigned integers whose
//! arithmetic wraps around at a power of two.

use vstd::arithmetic::div_mod::{
    lemma_add_mod_noop, lemma_mod_twice, lemma_small_mod, lemma_sub_mod_noop,
};
use vstd::prelude::*;

verus! {

/// A fixed-width unsigned integer read as a point of the discretized torus.
///
/// Every element stands for an integer in `[0, modulus)`; `reduce` maps each
/// integer to the element of its residue class. The three arithmetic
/// operations are those of the integers modulo `modulus`: there is no
/// overflow, wrapping around is what they compute.
pub trait UnsignedTorus: Copy {
    /// The number of points on the torus.
    spec fn modulus() -> int;

    /// The integer in `[0, modulus)` that this element stands for.
    spec fn value(self) -> int;

    /// The element that stands for `x` modulo `modulus`.
    spec fn reduce(x: int) -> Self;

    proof fn lemma_modulus_positive()
        ensures
            Self::modulus() > 0,
    ;

    proof fn lemma_value_in_range(self)
        ensures
            0 <= self.value() < Self::modulus(),
    ;

    proof fn lemma_reduce_value(x: int)
        ensures
            Self::reduce(x).value() == x % Self::modulus(),
    ;

    /// Two elements that stand for the same integer are the same element.
    proof fn lemma_value_injective(self, other: Self)
        requires
            self.value() == other.value(),
        ensures
            self == other,
    ;

    /// The neutral element of the addition.
    fn zero() -> (z: Self)
        ensures
            z == Self::reduce(0),
    ;

    fn wrapping_add(self, rhs: Self) -> (r: Self)
        ensures
            r == Self::reduce(self.value() + rhs.value()),
    ;

    fn wrapping_sub(self, rhs: Self) -> (r: Self)
        ensures
            r == Self::reduce(self.value() - rhs.value()),
    ;

    fn wrapping_mul(self, rhs: Self) -> (r: Self)
        ensures
            r == Self::reduce(self.value() * rhs.value()),
    ;
}

impl UnsignedTorus for u32 {
    open spec fn modulus() -> int {
        0x1_0000_0000
    }

    open spec fn value(self) -> int {
        self as int
    }

    open spec fn reduce(x: int) -> Self {
        (x % 0x1_0000_0000) as u32
    }

    proof fn lemma_modulus_positive() {
    }

    proof fn lemma_value_in_range(self) {
    }

    proof fn lemma_reduce_value(x: int) {
    }

    proof fn lemma_value_injective(self, other: Self) {
    }

    fn zero() -> (z: Self) {
        0
    }

    fn wrapping_add(self, rhs: Self) -> (r: Self) {
        u32::wrapping_add(self, rhs)
    }

    fn wrapping_sub(self, rhs: Self) -> (r: Self) {
        u32::wrapping_sub(self, rhs)
    }

    fn wrapping_mul(self, rhs: Self) -> (r: Self) {
        u32::wrapping_mul(self, rhs)
    }
}

impl UnsignedTorus for u64 {
    open spec fn modulus() -> int {
        0x1_0000_0000_0000_0000
    }

    open spec fn value(self) -> int {
        self as int
    }

    open spec fn reduce(x: int) -> Self {
        (x % 0x1_0000_0000_0000_0000) as u64
    }

    proof fn lemma_modulus_positive() {
    }

    proof fn lemma_value_in_range(self) {
    }

    proof fn lemma_reduce_value(x: int) {
    }

    proof fn lemma_value_injective(self, other: Self) {
    }

    fn zero() -> (z: Self) {
        0
    }

    fn wrapping_add(self, rhs: Self) -> (r: Self) {
        u64::wrapping_add(self, rhs)
    }

    fn wrapping_sub(self, rhs: Self) -> (r: Self) {
        u64::wrapping_sub(self, rhs)
    }

    fn wrapping_mul(self, rhs: Self) -> (r: Self) {
        u64::wrapping_mul(self, rhs)
    }
}

/// Integers in the same residue class reduce to the same element.
pub proof fn lemma_reduce_congruent<S: UnsignedTorus>(x: int, y: int)
    requires
        x % S::modulus() == y % S::modulus(),
    ensures
        S::reduce(x) == S::reduce(y),
{
    S::lemma_reduce_value(x);
    S::lemma_reduce_value(y);
    S::reduce(x).lemma_value_injective(S::reduce(y));
}

/// Reducing the integer that an element stands for gives the element back.
pub proof fn lemma_reduce_of_value<S: UnsignedTorus>(a: S)
    ensures
        S::reduce(a.value()) == a,
{
    S::lemma_modulus_positive();
    a.lemma_value_in_range();
    S::lemma_reduce_value(a.value());
    lemma_small_mod(a.value() as nat, S::modulus() as nat);
    S::reduce(a.value()).lemma_value_injective(a);
}

/// An element may stand in for its residue class on the left of a sum.
pub proof fn lemma_reduce_add_left<S: UnsignedTorus>(x: int, y: int)
    ensures
        S::reduce(S::reduce(x).value() + y) == S::reduce(x + y),
{
    let m = S::modulus();
    S::lemma_modulus_positive();
    S::lemma_reduce_value(x);
    lemma_add_mod_noop(x % m, y, m);
    lemma_add_mod_noop(x, y, m);
    lemma_mod_twice(x, m);
    lemma_reduce_congruent::<S>(S::reduce(x).value() + y, x + y);
}

/// An element may stand in for its residue class on the right of a sum.
pub proof fn lemma_reduce_add_right<S: UnsignedTorus>(x: int, y: int)
    ensures
        S::reduce(x + S::reduce(y).value()) == S::reduce(x + y),
{
    let m = S::modulus();
    S::lemma_modulus_positive();
    S::lemma_reduce_value(y);
    lemma_add_mod_noop(x, y % m, m);
    lemma_add_mod_noop(x, y, m);
    lemma_mod_twice(y, m);
    lemma_reduce_congruent::<S>(x + S::reduce(y).value(), x + y);
}

/// An element may stand in for its residue class on the left of a difference.
pub proof fn lemma_reduce_sub_left<S: UnsignedTorus>(x: int, y: int)
    ensures
        S::reduce(S::reduce(x).value() - y) == S::reduce(x - y),
{
    let m = S::modulus();
    S::lemma_modulus_positive();
    S::lemma_reduce_value(x);
    lemma_sub_mod_noop(x % m, y, m);
    lemma_sub_mod_noop(x, y, m);
    lemma_mod_twice(x, m);
    lemma_reduce_congruent::<S>(S::reduce(x).value() - y, x - y);
}

/// An element may stand in for its residue class on the right of a
/// difference.
pub proof fn lemma_reduce_sub_right<S: UnsignedTorus>(x: int, y: int)
    ensures
        S::reduce(x - S::reduce(y).value()) == S::reduce(x - y),
{
    let m = S::modulus();
    S::lemma_modulus_positive();
    S::lemma_reduce_value(y);
    lemma_sub_mod_noop(x, y % m, m);
    lemma_sub_mod_noop(x, y, m);
    lemma_mod_twice(y, m);
    lemma_reduce_congruent::<S>(x - S::reduce(y).value(), x - y);
}

} // verus!
