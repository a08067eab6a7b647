//! Arbitrary-precision signed amounts.
//!
//! An [`Amount`] holds an integer as its two's-complement bytes, least
//! significant byte first, and is viewed as a mathematical `int`. The
//! arithmetic on it is done by `num_bigint`.

use num_bigint::BigInt;
use std::cmp::Ordering;
use vstd::arithmetic::power::pow;
use vstd::prelude::*;

verus! {

/// The value of little-endian base-256 digits, read as an unsigned number.
pub open spec fn unsigned_le(b: Seq<u8>) -> int
    decreases b.len(),
{
    if b.len() == 0 {
        0
    } else {
        b[0] as int + 256 * unsigned_le(b.subrange(1, b.len() as int))
    }
}

/// The value of little-endian bytes read in two's complement: the top bit of
/// the last byte is the sign. No bytes at all stand for zero.
pub open spec fn signed_le(b: Seq<u8>) -> int {
    if b.len() > 0 && b.last() >= 128 {
        unsigned_le(b) - pow(256, b.len())
    } else {
        unsigned_le(b)
    }
}

/// An integer of any size, stored as its two's-complement bytes, least
/// significant first. Every byte sequence is a valid amount.
#[derive(Debug, Clone)]
pub struct Amount {
    pub bytes: Vec<u8>,
}

impl View for Amount {
    type V = int;

    open spec fn view(&self) -> int {
        signed_le(self.bytes@)
    }
}

/// Relies on num_bigint's `BigInt::from_signed_bytes_le`, `+` and
/// `BigInt::to_signed_bytes_le`: the bytes of the exact sum.
#[verifier::external_body]
fn big_add(a: &Amount, b: &Amount) -> (r: Amount)
    ensures
        r@ == a@ + b@,
{
    let x = BigInt::from_signed_bytes_le(a.bytes.as_slice());
    let y = BigInt::from_signed_bytes_le(b.bytes.as_slice());
    Amount { bytes: (x + y).to_signed_bytes_le() }
}

/// Relies on num_bigint's `BigInt::from_signed_bytes_le`, `-` and
/// `BigInt::to_signed_bytes_le`: the bytes of the exact difference.
#[verifier::external_body]
fn big_sub(a: &Amount, b: &Amount) -> (r: Amount)
    ensures
        r@ == a@ - b@,
{
    let x = BigInt::from_signed_bytes_le(a.bytes.as_slice());
    let y = BigInt::from_signed_bytes_le(b.bytes.as_slice());
    Amount { bytes: (x - y).to_signed_bytes_le() }
}

/// Relies on num_bigint's `BigInt::from_signed_bytes_le` and `Ord::cmp` on
/// `BigInt`: the order of the two integers.
#[verifier::external_body]
fn big_cmp(a: &Amount, b: &Amount) -> (r: Ordering)
    ensures
        (r == Ordering::Less) == (a@ < b@),
        (r == Ordering::Equal) == (a@ == b@),
        (r == Ordering::Greater) == (a@ > b@),
{
    let x = BigInt::from_signed_bytes_le(a.bytes.as_slice());
    let y = BigInt::from_signed_bytes_le(b.bytes.as_slice());
    x.cmp(&y)
}

impl Amount {
    /// The amount whose two's-complement little-endian bytes are `bytes`.
    pub fn from_signed_bytes_le(bytes: Vec<u8>) -> (r: Amount)
        ensures
            r@ == signed_le(bytes@),
    {
        Amount { bytes }
    }

    /// Zero.
    pub fn zero() -> (r: Amount)
        ensures
            r@ == 0,
    {
        Amount { bytes: Vec::new() }
    }

    /// One.
    pub fn one() -> (r: Amount)
        ensures
            r@ == 1,
    {
        let r = Amount { bytes: vec![1u8] };
        assert(r.bytes@.subrange(1, 1) =~= Seq::<u8>::empty());
        assert(unsigned_le(r.bytes@.subrange(1, 1)) == 0);
        assert(unsigned_le(r.bytes@) == 1);
        r
    }

    /// `self + other`, exactly.
    pub fn add(&self, other: &Amount) -> (r: Amount)
        ensures
            r@ == self@ + other@,
    {
        big_add(self, other)
    }

    /// `self - other`, exactly.
    pub fn sub(&self, other: &Amount) -> (r: Amount)
        ensures
            r@ == self@ - other@,
    {
        big_sub(self, other)
    }

    /// Whether `self < other`.
    pub fn lt(&self, other: &Amount) -> (r: bool)
        ensures
            r == (self@ < other@),
    {
        matches!(big_cmp(self, other), Ordering::Less)
    }

    /// Whether the amount is strictly greater than zero.
    pub fn is_positive(&self) -> (r: bool)
        ensures
            r == (self@ > 0),
    {
        matches!(big_cmp(self, &Amount::zero()), Ordering::Greater)
    }
}

impl PartialEq for Amount {
    /// Two amounts are equal when they stand for the same integer, whatever
    /// their bytes.
    fn eq(&self, other: &Amount) -> (r: bool) {
        matches!(big_cmp(self, other), Ordering::Equal)
    }
}

impl vstd::std_specs::cmp::PartialEqSpecImpl for Amount {
    open spec fn obeys_eq_spec() -> bool {
        true
    }

    open spec fn eq_spec(&self, other: &Amount) -> bool {
        self@ == other@
    }
}

} // verus!
