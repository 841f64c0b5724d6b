//! The text form of a connection ticket: its bytes in unpadded base32,
//! written in lowercase, and read back case-insensitively.
use vstd::prelude::*;

verus! {

#[verifier::external_type_specification]
#[verifier::external_body]
pub struct ExDecodeError(data_encoding::DecodeError);

/// Bit `p` of `b`, most significant bit of each byte first; 0 past the end.
pub open spec fn bit_at(b: Seq<u8>, p: int) -> int {
    if 0 <= p < 8 * b.len() {
        ((b[p / 8] as int) / (vstd::arithmetic::power2::pow2((7 - p % 8) as nat) as int)) % 2
    } else {
        0
    }
}

/// The `i`-th group of five bits of `b`, as a number below 32.
pub open spec fn quintet(b: Seq<u8>, i: int) -> int {
    16 * bit_at(b, 5 * i) + 8 * bit_at(b, 5 * i + 1) + 4 * bit_at(b, 5 * i + 2) + 2 * bit_at(b, 5 * i + 3) + bit_at(b, 5 * i + 4)
}

/// The base32 symbol for a number below 32: `A`-`Z`, then `2`-`7`.
pub open spec fn base32_symbol(v: int) -> char {
    if v < 26 {
        (65 + v) as char
    } else {
        (24 + v) as char
    }
}

/// Unpadded base32 (RFC 4648 alphabet) of `b`: one symbol per five bits, the
/// last group filled up with zero bits.
pub open spec fn base32_nopad(b: Seq<u8>) -> Seq<char> {
    Seq::new(((8 * b.len() + 4) / 5) as nat, |i: int| base32_symbol(quintet(b, i)))
}

/// `c` with an ASCII capital letter turned into its small letter.
pub open spec fn ascii_lower(c: char) -> char {
    if 'A' <= c && c <= 'Z' {
        ((c as u32) + 32) as char
    } else {
        c
    }
}

/// `c` with an ASCII small letter turned into its capital letter.
pub open spec fn ascii_upper(c: char) -> char {
    if 'a' <= c && c <= 'z' {
        ((c as u32) - 32) as char
    } else {
        c
    }
}

/// `s` with every ASCII capital letter turned into its small letter.
pub open spec fn lowercase_text(s: Seq<char>) -> Seq<char> {
    s.map_values(|c: char| ascii_lower(c))
}

/// `s` with every ASCII small letter turned into its capital letter.
pub open spec fn uppercase_text(s: Seq<char>) -> Seq<char> {
    s.map_values(|c: char| ascii_upper(c))
}

/// `data_encoding::BASE32_NOPAD.encode`: see `base32_nopad`.
#[verifier::external_body]
fn base32_nopad_encode(bytes: &[u8]) -> (text: String)
    ensures
        text@ == base32_nopad(bytes@),
{
    data_encoding::BASE32_NOPAD.encode(bytes)
}

/// `data_encoding::BASE32_NOPAD.decode` of the bytes of `text`: it gives back
/// exactly the bytes whose encoding `text` is, and fails on any text that is
/// no such encoding (it checks symbols, length and trailing bits).
#[verifier::external_body]
fn base32_nopad_decode(text: &str) -> (res: Result<Vec<u8>, data_encoding::DecodeError>)
    ensures
        res is Ok || forall|b: Seq<u8>| #[trigger] base32_nopad(b) != text@,
        res matches Ok(v) ==> base32_nopad(v@) == text@,
        res matches Ok(v) ==> forall|b: Seq<u8>| #[trigger] base32_nopad(b) == text@ ==> v@ == b,
{
    data_encoding::BASE32_NOPAD.decode(text.as_bytes())
}

/// `Display` of a `data_encoding::DecodeError`. The text is left unsaid.
#[verifier::external_body]
fn decode_error_text(e: &data_encoding::DecodeError) -> (text: String) {
    e.to_string()
}

/// `String::make_ascii_lowercase`: ASCII capitals become small letters, all
/// other characters stay.
#[verifier::external_body]
fn make_ascii_lowercase(s: &mut String)
    ensures
        final(s)@ == lowercase_text(old(s)@),
{
    s.make_ascii_lowercase()
}

/// `str::to_ascii_uppercase`: ASCII small letters become capitals, all other
/// characters stay.
#[verifier::external_body]
fn to_ascii_uppercase(s: &str) -> (upper: String)
    ensures
        upper@ == uppercase_text(s@),
{
    s.to_ascii_uppercase()
}

/// The text form of a ticket's bytes: unpadded base32, in lowercase.
pub fn ticket_text(bytes: &[u8]) -> (text: String)
    ensures
        text@ == lowercase_text(base32_nopad(bytes@)),
{
    let mut text = base32_nopad_encode(bytes);
    make_ascii_lowercase(&mut text);
    text
}

/// `res` is what reading the ticket text `text` gives: the bytes whose
/// base32 form is `text` in capitals, or an error when there are none.
pub open spec fn reads_ticket_text(text: Seq<char>, res: Result<Vec<u8>, String>) -> bool {
    &&& forall|b: Seq<u8>| #[trigger] base32_nopad(b) == uppercase_text(text) ==> (res matches Ok(v) && v@ == b)
    &&& res matches Ok(v) ==> base32_nopad(v@) == uppercase_text(text)
}

/// The bytes that a ticket's text form stands for, read case-insensitively;
/// text that is no unpadded base32 gives the decoder's error text.
pub fn ticket_bytes(text: &str) -> (res: Result<Vec<u8>, String>)
    ensures
        reads_ticket_text(text@, res),
{
    let upper = to_ascii_uppercase(text);
    match base32_nopad_decode(upper.as_str()) {
        Ok(v) => Ok(v),
        Err(e) => Err(decode_error_text(&e)),
    }
}

/// Every symbol of a base32 text is a capital letter or a digit 2-7.
proof fn lemma_base32_symbols(b: Seq<u8>, i: int)
    requires
        0 <= i < base32_nopad(b).len(),
    ensures
        ascii_upper(ascii_lower(base32_nopad(b)[i])) == base32_nopad(b)[i],
{
    let q = quintet(b, i);
    assert(0 <= bit_at(b, 5 * i) <= 1);
    assert(0 <= bit_at(b, 5 * i + 1) <= 1);
    assert(0 <= bit_at(b, 5 * i + 2) <= 1);
    assert(0 <= bit_at(b, 5 * i + 3) <= 1);
    assert(0 <= bit_at(b, 5 * i + 4) <= 1);
    assert(0 <= q < 32);
}

/// Reading a ticket's text form gives back the ticket's bytes: whatever
/// `ticket_bytes` returns for the text that `ticket_text` makes of `b` is `b`.
pub proof fn law_ticket_text_round_trip(b: Seq<u8>, res: Result<Vec<u8>, String>)
    requires
        reads_ticket_text(lowercase_text(base32_nopad(b)), res),
    ensures
        res matches Ok(v) && v@ == b,
{
    let e = base32_nopad(b);
    assert forall|i: int| 0 <= i < e.len() implies #[trigger] uppercase_text(lowercase_text(e))[i] == e[i] by {
        lemma_base32_symbols(b, i);
    }
    assert(e =~= uppercase_text(lowercase_text(e)));
}

} // verus!
