use vstd::prelude::*;

verus! {

/// The lowercase ASCII hex digit for a nibble `n < 16`.
pub open spec fn hex_digit(n: int) -> u8 {
    if n < 10 {
        (48 + n) as u8
    } else {
        (97 + n - 10) as u8
    }
}

/// Lowercase hex text of a byte string: two digits per byte, high nibble first.
pub open spec fn hex_of(b: Seq<u8>) -> Seq<u8> {
    Seq::new(
        2 * b.len(),
        |i: int|
            if i % 2 == 0 {
                hex_digit(b[i / 2] as int / 16)
            } else {
                hex_digit(b[i / 2] as int % 16)
            },
    )
}

/// Whether `c` is an ASCII hex digit of either case.
pub open spec fn is_hex_char(c: u8) -> bool {
    (48 <= c <= 57) || (97 <= c <= 102) || (65 <= c <= 70)
}

/// The value of an ASCII hex digit of either case.
pub open spec fn hex_value(c: u8) -> int {
    if 48 <= c <= 57 {
        c - 48
    } else if 97 <= c <= 102 {
        c - 87
    } else {
        c - 55
    }
}

/// The text without a leading `0x` or `0X`.
pub open spec fn strip_0x(s: Seq<u8>) -> Seq<u8> {
    if s.len() >= 2 && s[0] == 48 && (s[1] == 120 || s[1] == 88) {
        s.subrange(2, s.len() as int)
    } else {
        s
    }
}

/// Whether `s` is hex text that decodes: even length, and hex digits only
/// once an optional `0x` prefix is removed.
pub open spec fn is_hex_text(s: Seq<u8>) -> bool {
    s.len() % 2 == 0 && forall|i: int| 0 <= i < strip_0x(s).len() ==> is_hex_char(
        #[trigger] strip_0x(s)[i],
    )
}

/// The bytes that hex text `s` stands for.
pub open spec fn hex_decoded(s: Seq<u8>) -> Seq<u8> {
    let d = strip_0x(s);
    Seq::new(d.len() / 2, |i: int| (hex_value(d[2 * i]) * 16 + hex_value(d[2 * i + 1])) as u8)
}

/// Relies on `alloy_primitives::hex::encode` (the `const-hex` crate): lowercase
/// digits, two per byte, high nibble first, with no prefix.
#[verifier::external_body]
pub(crate) fn encode_hex(b: &[u8]) -> (r: Vec<u8>)
    ensures
        r@ == hex_of(b@),
{
    alloy_primitives::hex::encode(b).into_bytes()
}

/// Relies on `alloy_primitives::hex::decode` (the `const-hex` crate): it fails
/// on odd length, strips one `0x`/`0X` prefix, accepts digits of either case,
/// and fails on any other character.
#[verifier::external_body]
pub(crate) fn decode_hex(s: &[u8]) -> (r: Option<Vec<u8>>)
    ensures
        r is Some <==> is_hex_text(s@),
        r is Some ==> r->0@ == hex_decoded(s@),
{
    alloy_primitives::hex::decode(s).ok()
}

/// Lowercase hex text of `b`.
pub fn to_hex(b: &[u8]) -> (r: Vec<u8>)
    ensures
        r@ == hex_of(b@),
{
    encode_hex(b)
}

} // verus!
