use vstd::prelude::*;
use vstd::string::StringSliceAdditionalSpecFns;

verus! {

/// The first 32 bytes of `b`, padded with zero bytes up to 32.
pub open spec fn padded32(b: Seq<u8>) -> Seq<u8> {
    Seq::new(32, |i: int| if i < b.len() { b[i] } else { 0u8 })
}

/// Convert a string to a fixed-size 32-byte array: its UTF-8 bytes, cut at 32
/// and padded with zeros when shorter.
pub fn string_to_32_byte_array(s: &str) -> (res: [u8; 32])
    ensures
        res@ == padded32(s.spec_bytes()),
{
    let mut result = [0u8; 32];
    let bytes = s.as_bytes();
    let len: usize = if bytes.len() < 32 { bytes.len() } else { 32 };
    let mut i: usize = 0;
    while i < len
        invariant
            i <= len,
            len <= 32,
            len <= bytes@.len(),
            len == bytes@.len() || len == 32,
            bytes@ == s.spec_bytes(),
            forall|j: int| 0 <= j < i ==> result@[j] == bytes@[j],
            forall|j: int| i <= j < 32 ==> result@[j] == 0u8,
        decreases len - i,
    {
        result[i] = bytes[i];
        i = i + 1;
    }
    assert(result@ =~= padded32(s.spec_bytes()));
    result
}

/// Two strings whose UTF-8 forms agree on their first 32 bytes (or are
/// equal) give the same 32-byte array; a form of up to 32 bytes is kept whole;
/// and two forms of up to 32 bytes without a zero byte (strings without NUL)
/// that give the same array are equal.
pub proof fn law_padded32(a: Seq<u8>, b: Seq<u8>)
    ensures
        (a.len() >= 32 && b.len() >= 32 && a.take(32) == b.take(32)) ==> padded32(a) == padded32(b),
        a.len() <= 32 ==> padded32(a).take(a.len() as int) == a,
        forall|i: int| a.len() <= i < 32 ==> #[trigger] padded32(a)[i] == 0u8,
        (a.len() <= 32 && b.len() <= 32 && padded32(a) == padded32(b)
            && (forall|i: int| 0 <= i < a.len() ==> #[trigger] a[i] != 0u8)
            && (forall|i: int| 0 <= i < b.len() ==> #[trigger] b[i] != 0u8)) ==> a == b,
{
    if a.len() <= 32 && b.len() <= 32 && padded32(a) == padded32(b)
        && (forall|i: int| 0 <= i < a.len() ==> #[trigger] a[i] != 0u8)
        && (forall|i: int| 0 <= i < b.len() ==> #[trigger] b[i] != 0u8) {
        if a.len() < b.len() {
            assert(padded32(a)[a.len() as int] == 0u8);
            assert(padded32(b)[a.len() as int] == b[a.len() as int]);
        } else if b.len() < a.len() {
            assert(padded32(b)[b.len() as int] == 0u8);
            assert(padded32(a)[b.len() as int] == a[b.len() as int]);
        }
        assert forall|i: int| 0 <= i < a.len() implies a[i] == b[i] by {
            assert(padded32(a)[i] == padded32(b)[i]);
        }
        assert(a =~= b);
    }
    if a.len() >= 32 && b.len() >= 32 && a.take(32) == b.take(32) {
        assert forall|i: int| 0 <= i < 32 implies padded32(a)[i] == padded32(b)[i] by {
            assert(a.take(32)[i] == b.take(32)[i]);
        }
        assert(padded32(a) =~= padded32(b));
    }
    if a.len() <= 32 {
        assert(padded32(a).take(a.len() as int) =~= a);
    }
}

} // verus!
