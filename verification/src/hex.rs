//! Hexadecimal text codecs from the `base16ct` crate, and the spec-level
//! meaning they are held to: two digits per byte, high nibble first.
use vstd::prelude::*;

verus! {

/// The sixteen lowercase hex digits, indexed by nibble value.
pub open spec fn hex_digits_lower() -> Seq<char> {
    seq!['0', '1', '2', '3', '4', '5', '6', '7', '8', '9', 'a', 'b', 'c', 'd', 'e', 'f']
}

/// The sixteen uppercase hex digits, indexed by nibble value.
pub open spec fn hex_digits_upper() -> Seq<char> {
    seq!['0', '1', '2', '3', '4', '5', '6', '7', '8', '9', 'A', 'B', 'C', 'D', 'E', 'F']
}

/// The lowercase hex text of a byte string.
pub open spec fn hex_lower(bytes: Seq<u8>) -> Seq<char> {
    Seq::new(
        bytes.len() * 2,
        |i: int|
            if i % 2 == 0 {
                hex_digits_lower()[bytes[i / 2] as int / 16]
            } else {
                hex_digits_lower()[bytes[i / 2] as int % 16]
            },
    )
}

/// The uppercase hex text of a byte string.
pub open spec fn hex_upper(bytes: Seq<u8>) -> Seq<char> {
    Seq::new(
        bytes.len() * 2,
        |i: int|
            if i % 2 == 0 {
                hex_digits_upper()[bytes[i / 2] as int / 16]
            } else {
                hex_digits_upper()[bytes[i / 2] as int % 16]
            },
    )
}

/// Whether `c` is an ASCII hex digit of either case.
pub open spec fn is_hex_char(c: char) -> bool {
    let n = c as int;
    (48 <= n <= 57) || (65 <= n <= 70) || (97 <= n <= 102)
}

/// The nibble value of an ASCII hex digit of either case.
pub open spec fn hex_char_val(c: char) -> int {
    let n = c as int;
    if 48 <= n <= 57 {
        n - 48
    } else if 65 <= n <= 70 {
        n - 55
    } else {
        n - 87
    }
}

/// The bytes a hex text decodes to: one byte per digit pair.
pub open spec fn hex_decode_chars(s: Seq<char>) -> Seq<u8> {
    Seq::new(s.len() / 2, |i: int| (hex_char_val(s[2 * i]) * 16 + hex_char_val(s[2 * i + 1])) as u8)
}

/// Each digit of either table is a hex digit that decodes back to its index.
proof fn lemma_nibble(n: int)
    requires
        0 <= n < 16,
    ensures
        is_hex_char(hex_digits_lower()[n]),
        is_hex_char(hex_digits_upper()[n]),
        hex_char_val(hex_digits_lower()[n]) == n,
        hex_char_val(hex_digits_upper()[n]) == n,
{
    if n < 10 {
        assert(hex_digits_lower()[n] == hex_digits_upper()[n]);
        assert(hex_digits_lower()[n] as int == 48 + n);
    } else if n == 10 {
        assert(hex_digits_lower()[n] == 'a' && hex_digits_upper()[n] == 'A');
    } else if n == 11 {
        assert(hex_digits_lower()[n] == 'b' && hex_digits_upper()[n] == 'B');
    } else if n == 12 {
        assert(hex_digits_lower()[n] == 'c' && hex_digits_upper()[n] == 'C');
    } else if n == 13 {
        assert(hex_digits_lower()[n] == 'd' && hex_digits_upper()[n] == 'D');
    } else if n == 14 {
        assert(hex_digits_lower()[n] == 'e' && hex_digits_upper()[n] == 'E');
    } else {
        assert(hex_digits_lower()[n] == 'f' && hex_digits_upper()[n] == 'F');
    }
}

/// Hex encoding round-trips: decoding the text of a byte string, in either
/// case, gives the byte string back, and every character of the text is a
/// hex digit.
pub proof fn lemma_hex_round_trip(b: Seq<u8>)
    ensures
        hex_lower(b).len() == 2 * b.len(),
        hex_upper(b).len() == 2 * b.len(),
        hex_decode_chars(hex_lower(b)) =~= b,
        hex_decode_chars(hex_upper(b)) =~= b,
        forall|i: int| 0 <= i < 2 * b.len() ==> is_hex_char(#[trigger] hex_lower(b)[i]),
        forall|i: int| 0 <= i < 2 * b.len() ==> is_hex_char(#[trigger] hex_upper(b)[i]),
{
    assert forall|i: int| 0 <= i < 2 * b.len() implies is_hex_char(#[trigger] hex_lower(b)[i])
        && is_hex_char(#[trigger] hex_upper(b)[i]) by {
        let v = b[i / 2] as int;
        assert(0 <= v / 16 < 16 && 0 <= v % 16 < 16);
        lemma_nibble(v / 16);
        lemma_nibble(v % 16);
    }
    assert forall|i: int| 0 <= i < b.len() implies hex_decode_chars(hex_lower(b))[i] == b[i]
        && hex_decode_chars(hex_upper(b))[i] == b[i] by {
        let v = b[i] as int;
        assert(0 <= v / 16 < 16 && 0 <= v % 16 < 16);
        lemma_nibble(v / 16);
        lemma_nibble(v % 16);
        assert(hex_lower(b)[2 * i] == hex_digits_lower()[v / 16]);
        assert(hex_lower(b)[2 * i + 1] == hex_digits_lower()[v % 16]);
        assert(hex_upper(b)[2 * i] == hex_digits_upper()[v / 16]);
        assert(hex_upper(b)[2 * i + 1] == hex_digits_upper()[v % 16]);
        assert((v / 16) * 16 + v % 16 == v);
    }
}

/// Relies on `base16ct::lower::encode_string`: two lowercase hex digits per
/// byte, high nibble first. It panics only above `usize::MAX / 2` input
/// bytes, which the demanded bound stays far below on any platform.
#[verifier::external_body]
pub fn hex_encode_lower(b: &Vec<u8>) -> (r: String)
    requires
        b@.len() <= 0x1000_0000,
    ensures
        r@ == hex_lower(b@),
{
    base16ct::lower::encode_string(b.as_slice())
}

/// Relies on `base16ct::upper::encode_string`: two uppercase hex digits per
/// byte, high nibble first. It panics only above `usize::MAX / 2` input
/// bytes, which the demanded bound stays far below on any platform.
#[verifier::external_body]
pub fn hex_encode_upper(b: &Vec<u8>) -> (r: String)
    requires
        b@.len() <= 0x1000_0000,
    ensures
        r@ == hex_upper(b@),
{
    base16ct::upper::encode_string(b.as_slice())
}

/// Relies on `base16ct::mixed::decode`: on a text of `2 * w` characters it
/// fills `w` bytes, one per digit pair of either case, and rejects the whole
/// input if any character is not a hex digit (a non-ASCII character also
/// makes the byte length odd or overlong, which it rejects as well).
#[verifier::external_body]
pub fn hex_decode_mixed(src: &str, w: usize) -> (r: Option<Vec<u8>>)
    requires
        src@.len() == 2 * w,
    ensures
        r is Some <==> (forall|i: int| 0 <= i < src@.len() ==> is_hex_char(#[trigger] src@[i])),
        r matches Some(v) ==> v@ == hex_decode_chars(src@),
{
    let mut buf = vec![0u8; w];
    match base16ct::mixed::decode(src, &mut buf) {
        Ok(_) => Some(buf),
        Err(_) => None,
    }
}

} // verus!
