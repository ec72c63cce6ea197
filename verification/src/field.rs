//! Adapter around the scalar field of BLS12-381.
//!
//! A [`Fe`] holds one element of the prime field of order [`field_order`].
//! Verus sees the type as opaque; its mathematical content is the canonical
//! representative [`fe_value`], an integer in `0 .. field_order()`. The
//! trusted operations below state how the representative of each result
//! relates to the representatives of the arguments.

use vstd::prelude::*;
use ark_bls12_381::Fr;

verus! {

/// The order of the BLS12-381 scalar field, a prime.
pub open spec fn field_order() -> int {
    52435875175126190479447740508185965837690552500527637822603658699938581184513int
}

/// An element of the scalar field. The `ark` element inside is visible
/// only to the unverified layers around the library.
#[verifier::external_body]
pub struct Fe(pub Fr);

/// The canonical representative of a field element, in `0 .. field_order()`.
pub uninterp spec fn fe_value(x: Fe) -> int;

/// The embedding of a signed 32-bit integer into the field:
/// a non-negative `n` maps to `n`, a negative one to `field_order() + n`.
pub open spec fn spec_i32_to_field(n: int) -> int {
    if n >= 0 {
        n
    } else {
        field_order() + n
    }
}

impl Fe {
    /// Relies on `Fr::from(u64)`: every `u64` is below the field order,
    /// so the canonical representative is the integer itself.
    #[verifier::external_body]
    pub(crate) fn from_u64(n: u64) -> (r: Fe)
        ensures
            fe_value(r) == n as int,
    {
        Fe(Fr::from(n))
    }

    /// Relies on `ark_ff` field addition being addition modulo the order.
    #[verifier::external_body]
    pub(crate) fn add(&self, other: &Fe) -> (r: Fe)
        ensures
            fe_value(r) == (fe_value(*self) + fe_value(*other)) % field_order(),
    {
        Fe(self.0 + other.0)
    }

    /// Relies on `ark_ff` field subtraction being subtraction modulo the order.
    #[verifier::external_body]
    pub(crate) fn sub(&self, other: &Fe) -> (r: Fe)
        ensures
            fe_value(r) == (fe_value(*self) - fe_value(*other)) % field_order(),
    {
        Fe(self.0 - other.0)
    }

    /// Relies on `ark_ff` field multiplication being multiplication modulo the order.
    #[verifier::external_body]
    pub(crate) fn mul(&self, other: &Fe) -> (r: Fe)
        ensures
            fe_value(r) == (fe_value(*self) * fe_value(*other)) % field_order(),
    {
        Fe(self.0 * other.0)
    }

    /// Relies on `Fr`'s equality: field elements are equal exactly when
    /// their canonical representatives are.
    #[verifier::external_body]
    pub(crate) fn eq_inner(&self, other: &Fe) -> (r: bool)
        ensures
            r == (fe_value(*self) == fe_value(*other)),
    {
        self.0 == other.0
    }

    /// Relies on `Fr: Copy`: the copy is the same element.
    #[verifier::external_body]
    pub fn dup(&self) -> (r: Fe)
        ensures
            fe_value(r) == fe_value(*self),
    {
        Fe(self.0)
    }

    /// Whether two field elements are the same value.
    pub fn equals(&self, other: &Fe) -> (r: bool)
        ensures
            r == (fe_value(*self) == fe_value(*other)),
    {
        self.eq_inner(other)
    }
}

/// The field element a signed 32-bit integer stands for.
pub fn i32_to_fr(val: i32) -> (r: Fe)
    ensures
        fe_value(r) == spec_i32_to_field(val as int),
{
    if val < 0 {
        let mag = Fe::from_u64((-(val as i64)) as u64);
        let zero = Fe::from_u64(0);
        let r = zero.sub(&mag);
        proof {
            lemma_small_mod_neg(-(val as int));
        }
        r
    } else {
        Fe::from_u64(val as u64)
    }
}

/// For `0 < m < field_order()`, `(0 - m) % field_order() == field_order() - m`.
proof fn lemma_small_mod_neg(m: int)
    requires
        0 < m < field_order(),
    ensures
        (0 - m) % field_order() == field_order() - m,
{
    let p = field_order();
    assert((0 - m) % p == field_order() - m) by {
        vstd::arithmetic::div_mod::lemma_mod_add_multiples_vanish(0 - m, p);
        vstd::arithmetic::div_mod::lemma_small_mod((p - m) as nat, p as nat);
    }
}

} // verus!
