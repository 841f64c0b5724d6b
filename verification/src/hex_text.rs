//! Text forms of bytes and numbers: lowercase hexadecimal and decimal.
use vstd::prelude::*;

verus! {

/// The character of a digit below 16: `0`-`9`, then `a`-`f`.
pub open spec fn hex_digit(n: int) -> char {
    if n < 10 {
        (48 + n) as char
    } else {
        (87 + n) as char
    }
}

/// Lowercase hexadecimal of `b`: two digits per byte, high nibble first.
pub open spec fn hex_lower(b: Seq<u8>) -> Seq<char> {
    Seq::new(
        2 * b.len(),
        |i: int| if i % 2 == 0 { hex_digit((b[i / 2] / 16) as int) } else { hex_digit((b[i / 2] % 16) as int) },
    )
}

/// The decimal digits of `n`, without leading zeros (`0` for zero).
pub open spec fn decimal_text(n: nat) -> Seq<char>
    decreases n,
{
    if n < 10 {
        seq![(48 + n) as char]
    } else {
        decimal_text(n / 10).push((48 + n % 10) as char)
    }
}

/// Whether `c` is a lowercase hexadecimal digit.
pub open spec fn is_hex_lower_char(c: char) -> bool {
    ('0' <= c && c <= '9') || ('a' <= c && c <= 'f')
}

/// `hex::encode`: lowercase hexadecimal, two digits per byte, high nibble first.
#[verifier::external_body]
pub(crate) fn hex_encode(bytes: &[u8]) -> (text: String)
    ensures
        text@ == hex_lower(bytes@),
{
    hex::encode(bytes)
}

/// The text form of a node's secret key: its 32 bytes in lowercase hexadecimal.
pub fn secret_key_to_hex(key: &[u8; 32]) -> (text: String)
    ensures
        text@ == hex_lower(key@),
        text@.len() == 64,
        forall|i: int| 0 <= i < 64 ==> is_hex_lower_char(#[trigger] text@[i]),
{
    let text = hex_encode(key.as_slice());
    proof {
        assert forall|i: int| 0 <= i < 64 implies is_hex_lower_char(#[trigger] text@[i]) by {
            let b = key@[i / 2];
            assert(0 <= b / 16 < 16 && 0 <= b % 16 < 16);
        }
    }
    text
}

} // verus!
