//! Arbitrary-precision signed integers, held as big-endian two's-complement
//! byte strings. The arithmetic itself is done by `substreams::scalar::BigInt`.
use core::cmp::Ordering;
use substreams::scalar::BigInt;
use vstd::arithmetic::power::pow;
use vstd::prelude::*;

verus! {

/// The non-negative integer that `b` spells in big-endian base 256.
pub open spec fn unsigned_be(b: Seq<u8>) -> nat
    decreases b.len(),
{
    if b.len() == 0 {
        0
    } else {
        unsigned_be(b.drop_last()) * 256 + b.last() as nat
    }
}

/// The integer that `b` spells in big-endian two's complement; the empty
/// string spells zero.
pub open spec fn signed_be(b: Seq<u8>) -> int {
    if b.len() > 0 && b[0] >= 128 {
        unsigned_be(b) - pow(256, b.len())
    } else {
        unsigned_be(b) as int
    }
}

pub open spec fn abs(i: int) -> int {
    if i < 0 {
        -i
    } else {
        i
    }
}

/// Relies on `BigInt::from_signed_bytes_be` (two's complement, empty is zero),
/// `BigInt`'s exact subtraction and `BigInt::to_signed_bytes_be`.
#[verifier::external_body]
pub(crate) fn signed_difference(a: &[u8], b: &[u8]) -> (r: Vec<u8>)
    ensures
        signed_be(r@) == signed_be(a@) - signed_be(b@),
{
    (BigInt::from_signed_bytes_be(a) - BigInt::from_signed_bytes_be(b)).to_signed_bytes_be()
}

/// Relies on `BigInt::absolute`: the magnitude of the integer.
#[verifier::external_body]
pub(crate) fn signed_absolute(a: &[u8]) -> (r: Vec<u8>)
    ensures
        signed_be(r@) == abs(signed_be(a@)),
{
    BigInt::from_signed_bytes_be(a).absolute().to_signed_bytes_be()
}

/// Relies on `BigInt`'s `Ord`, which orders the integers numerically.
#[verifier::external_body]
pub(crate) fn signed_compare(a: &[u8], b: &[u8]) -> (r: Ordering)
    ensures
        r == Ordering::Less <==> signed_be(a@) < signed_be(b@),
        r == Ordering::Equal <==> signed_be(a@) == signed_be(b@),
        r == Ordering::Greater <==> signed_be(a@) > signed_be(b@),
{
    BigInt::from_signed_bytes_be(a).cmp(&BigInt::from_signed_bytes_be(b))
}

} // verus!
