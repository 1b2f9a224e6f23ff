//! The trusted boundary around `num_bigint::BigUint`.
//!
//! A `BigUint` carries the packed world state.  Verus sees the type as
//! opaque; its numeric value is named by the uninterpreted `biguint_nat`,
//! and each operation the engine needs is a small wrapper whose contract
//! states, over that name, what the crate's own source shows.

use vstd::prelude::*;

use num_bigint::BigUint;

use crate::grid::nth_bit;
use crate::grid::with_bit;

verus! {

#[verifier::external_type_specification]
#[verifier::external_body]
pub struct ExBigUint(BigUint);

/// The non-negative integer value a `BigUint` holds.
pub uninterp spec fn biguint_nat(b: BigUint) -> nat;

/// Relies on `<BigUint as Clone>::clone`: the copy holds the same digits,
/// hence the same numeric value.
#[verifier::external_body]
pub(crate) fn biguint_clone(b: &BigUint) -> (r: BigUint)
    ensures
        biguint_nat(r) == biguint_nat(*b),
{
    b.clone()
}

/// Relies on `BigUint::bit`: returns whether the bit in the given position
/// of the value is set.
#[verifier::external_body]
pub(crate) fn biguint_bit(b: &BigUint, i: u64) -> (r: bool)
    ensures
        r == nth_bit(biguint_nat(*b), i as nat),
{
    b.bit(i)
}

/// Relies on `BigUint::set_bit`: sets or clears the bit in the given
/// position and leaves every other bit of the value unchanged.
#[verifier::external_body]
pub(crate) fn biguint_set_bit(b: &mut BigUint, i: u64, value: bool)
    ensures
        biguint_nat(*final(b)) == with_bit(biguint_nat(*old(b)), i as nat, value),
{
    b.set_bit(i, value);
}

/// Relies on `<BigUint as PartialEq>::eq`: the digit representation is
/// canonical, so two values compare equal exactly when they are the same
/// number.
#[verifier::external_body]
pub(crate) fn biguint_eq(a: &BigUint, b: &BigUint) -> (r: bool)
    ensures
        r == (biguint_nat(*a) == biguint_nat(*b)),
{
    a == b
}

} // verus!
