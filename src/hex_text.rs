//! Hexadecimal text, as the execution trace and the output records write it.
use substreams::Hex;
use vstd::prelude::*;

verus! {

pub open spec fn is_hex_digit(c: char) -> bool {
    ('0' <= c && c <= '9') || ('a' <= c && c <= 'f') || ('A' <= c && c <= 'F')
}

/// Whether `c` is a hex digit.
pub fn is_hex_char(c: char) -> (r: bool)
    ensures
        r == is_hex_digit(c),
{
    ('0' <= c && c <= '9') || ('a' <= c && c <= 'f') || ('A' <= c && c <= 'F')
}

pub open spec fn hex_digit_value(c: char) -> int {
    if '0' <= c && c <= '9' {
        c as int - '0' as int
    } else if 'a' <= c && c <= 'f' {
        c as int - 'a' as int + 10
    } else {
        c as int - 'A' as int + 10
    }
}

/// The bytes that `s` spells, two hex digits for each byte, either case;
/// `None` where its length is odd or it holds a character that is no hex digit.
pub open spec fn hex_pairs(s: Seq<char>) -> Option<Seq<u8>> {
    if s.len() % 2 == 0 && forall|i: int| 0 <= i < s.len() ==> #[trigger] is_hex_digit(s[i]) {
        Some(
            Seq::new(
                (s.len() / 2) as nat,
                |i: int| (hex_digit_value(s[2 * i]) * 16 + hex_digit_value(s[2 * i + 1])) as u8,
            ),
        )
    } else {
        None
    }
}

pub open spec fn has_hex_prefix(s: Seq<char>) -> bool {
    s.len() >= 2 && s[0] == '0' && s[1] == 'x'
}

/// Hex text with an optional `0x` prefix.
pub open spec fn decode_hex_text(s: Seq<char>) -> Option<Seq<u8>> {
    if has_hex_prefix(s) {
        hex_pairs(s.skip(2))
    } else {
        hex_pairs(s)
    }
}

pub open spec fn lower_hex_digit(v: int) -> char {
    if v < 10 {
        ('0' as int + v) as char
    } else {
        ('a' as int + v - 10) as char
    }
}

/// Two lower-case hex digits for each byte.
pub open spec fn lower_hex(b: Seq<u8>) -> Seq<char> {
    Seq::new(
        2 * b.len(),
        |i: int|
            if i % 2 == 0 {
                lower_hex_digit(b[i / 2] as int / 16)
            } else {
                lower_hex_digit(b[i / 2] as int % 16)
            },
    )
}

/// Relies on `substreams::Hex::decode`: strips a leading `0x`, then
/// `hex::decode`. It indexes the first two bytes, hence the length bound.
#[verifier::external_body]
fn hex_decode_prefixed(s: &str) -> (r: Option<Vec<u8>>)
    requires
        s@.len() >= 2,
    ensures
        r matches Some(v) ==> decode_hex_text(s@) == Some(v@),
        r is None ==> decode_hex_text(s@) is None,
{
    Hex::decode(s).ok()
}

/// Relies on `substreams::Hex::encode`: lower-case hex, two digits a byte.
#[verifier::external_body]
pub(crate) fn encode_lower_hex(b: &[u8]) -> (r: String)
    ensures
        r@ == lower_hex(b@),
{
    Hex::encode(b)
}

/// Decodes hex text with an optional `0x` prefix.
pub fn decode_hex(s: &str) -> (r: Option<Vec<u8>>)
    ensures
        r matches Some(v) ==> decode_hex_text(s@) == Some(v@),
        r is None ==> decode_hex_text(s@) is None,
{
    let n = s.unicode_len();
    if n >= 2 {
        hex_decode_prefixed(s)
    } else if n == 0 {
        let v: Vec<u8> = Vec::new();
        assert(v@ =~= Seq::new(0, |i: int| 0u8));
        assert(decode_hex_text(s@) == Some(v@)) by {
            assert(hex_pairs(s@) == Some(Seq::<u8>::empty())) by {
                assert(Seq::<u8>::empty() =~= Seq::new(
                    (s@.len() / 2) as nat,
                    |i: int| (hex_digit_value(s@[2 * i]) * 16 + hex_digit_value(s@[2 * i + 1])) as u8,
                ));
            }
        }
        Some(v)
    } else {
        None
    }
}

} // verus!
