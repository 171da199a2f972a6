//! Hexadecimal text, as the `hex` crate reads and writes it.

use vstd::prelude::*;

verus! {

/// The value of one hexadecimal digit; upper and lower case letters are both accepted.
pub open spec fn hex_digit_value(c: char) -> Option<u8> {
    if '0' <= c && c <= '9' {
        Some((c as u8 - 48) as u8)
    } else if 'a' <= c && c <= 'f' {
        Some((c as u8 - 87) as u8)
    } else if 'A' <= c && c <= 'F' {
        Some((c as u8 - 55) as u8)
    } else {
        None
    }
}

/// Text that decodes to bytes: an even number of hexadecimal digits.
pub open spec fn is_hex_text(s: Seq<char>) -> bool {
    &&& s.len() % 2 == 0
    &&& forall|i: int| 0 <= i < s.len() ==> (#[trigger] hex_digit_value(s[i])) is Some
}

/// The bytes that hexadecimal text stands for, two digits per byte, high digit first.
pub open spec fn hex_decode_text(s: Seq<char>) -> Seq<u8> {
    Seq::new(
        s.len() / 2,
        |i: int|
            (hex_digit_value(s[2 * i])->0 * 16 + hex_digit_value(s[2 * i + 1])->0) as u8,
    )
}

/// The lower case hexadecimal digit of a value below sixteen.
pub open spec fn lower_hex_digit(n: u8) -> char {
    if n < 10 {
        (48 + n) as char
    } else {
        (87 + n) as char
    }
}

/// Lower case hexadecimal text of bytes, two digits per byte, high digit first.
pub open spec fn hex_encode_text(b: Seq<u8>) -> Seq<char> {
    Seq::new(
        2 * b.len(),
        |i: int|
            if i % 2 == 0 {
                lower_hex_digit(b[i / 2] / 16)
            } else {
                lower_hex_digit(b[i / 2] % 16)
            },
    )
}

/// A sequence read back to front.
pub open spec fn reversed<A>(s: Seq<A>) -> Seq<A> {
    Seq::new(s.len(), |i: int| s[s.len() - 1 - i])
}

#[verifier::external_type_specification]
#[verifier::external_body]
pub struct ExFromHexError(hex::FromHexError);

/// `hex::decode`: accepts an even number of hexadecimal digits of either case
/// (checked on the text's bytes, so any other character is refused) and yields
/// one byte per pair of digits, high digit first; any other text is an error.
#[verifier::external_body]
pub(crate) fn hex_decode(s: &str) -> (r: Result<Vec<u8>, hex::FromHexError>)
    ensures
        r is Ok <==> is_hex_text(s@),
        r matches Ok(v) ==> v@ == hex_decode_text(s@),
{
    hex::decode(s)
}

/// `hex::encode`: lower case hexadecimal text of the bytes.
#[verifier::external_body]
pub(crate) fn hex_encode(b: &[u8]) -> (r: String)
    ensures
        r@ == hex_encode_text(b@),
{
    hex::encode(b)
}

/// Decoding the encoding of bytes gives the bytes back.
pub proof fn law_hex_round_trip(b: Seq<u8>)
    ensures
        is_hex_text(hex_encode_text(b)),
        hex_decode_text(hex_encode_text(b)) =~= b,
{
    let e = hex_encode_text(b);
    assert forall|i: int| 0 <= i < e.len() implies (#[trigger] hex_digit_value(e[i])) is Some by {
        let x = if i % 2 == 0 { b[i / 2] / 16 } else { b[i / 2] % 16 };
        assert(x < 16);
    }
    assert forall|i: int| 0 <= i < b.len() implies hex_decode_text(e)[i] == b[i] by {
        let hi = b[i] / 16;
        let lo = b[i] % 16;
        assert((2 * i) / 2 == i);
        assert((2 * i + 1) / 2 == i);
        assert((2 * i) % 2 == 0);
        assert((2 * i + 1) % 2 == 1);
        assert(hex_digit_value(lower_hex_digit(hi)) == Some(hi));
        assert(hex_digit_value(lower_hex_digit(lo)) == Some(lo));
    }
}

/// Bytes read back to front, as a new vector.
pub fn reverse_bytes(b: &Vec<u8>) -> (r: Vec<u8>)
    ensures
        r@ == reversed(b@),
{
    let mut r: Vec<u8> = Vec::new();
    let n = b.len();
    let mut i: usize = n;
    while i > 0
        invariant
            i <= n,
            n == b@.len(),
            r@.len() == n - i,
            forall|j: int| 0 <= j < r@.len() ==> r@[j] == b@[n - 1 - j],
        decreases i,
    {
        i = i - 1;
        r.push(b[i]);
    }
    assert(r@ =~= reversed(b@));
    r
}

} // verus!
