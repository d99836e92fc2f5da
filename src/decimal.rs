//! Decimal text of integers, and joining text.
use crate::numeric::signed_be;
use substreams::scalar::BigInt;
use vstd::prelude::*;

verus! {

pub open spec fn decimal_digit(d: nat) -> char {
    ('0' as nat + d) as char
}

/// The decimal digits of `n`, with no leading zero; `0` for zero.
pub open spec fn decimal_digits(n: nat) -> Seq<char>
    decreases n,
{
    if n < 10 {
        seq![decimal_digit(n)]
    } else {
        decimal_digits(n / 10).push(decimal_digit(n % 10))
    }
}

/// The decimal text of `i`, with a leading `-` where it is negative.
pub open spec fn decimal_text(i: int) -> Seq<char> {
    if i < 0 {
        seq!['-'] + decimal_digits((-i) as nat)
    } else {
        decimal_digits(i as nat)
    }
}

/// Relies on `BigInt`'s `Display`: base ten, a `-` before a negative value.
#[verifier::external_body]
pub(crate) fn signed_decimal(b: &[u8]) -> (r: String)
    ensures
        r@ == decimal_text(signed_be(b@)),
{
    BigInt::from_signed_bytes_be(b).to_string()
}

/// Relies on `u32`'s `Display`: base ten.
#[verifier::external_body]
pub(crate) fn u32_decimal(n: u32) -> (r: String)
    ensures
        r@ == decimal_text(n as int),
{
    n.to_string()
}

/// The text of `a` followed by that of `b`.
pub fn concat_text(a: &str, b: &str) -> (r: String)
    ensures
        r@ == a@ + b@,
{
    let mut r = String::from_str(a);
    r.append(b);
    r
}

} // verus!
