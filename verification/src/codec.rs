//! The Base64 and image-decoding calls that the image handling makes.

use vstd::prelude::*;
use base64::Engine;

verus! {


/// The error text that `image::load_from_memory` gives for the bytes, or
/// `None` where it decodes them to an image.
pub uninterp spec fn image_load_error(bytes: Seq<u8>) -> Option<Seq<char>>;

/// The character of the standard Base64 alphabet for a six-bit value.
pub open spec fn base64_digit(i: int) -> char {
    if i < 26 {
        (65 + i) as char
    } else if i < 52 {
        (97 + i - 26) as char
    } else if i < 62 {
        (48 + i - 52) as char
    } else if i == 62 {
        '+'
    } else {
        '/'
    }
}

/// The standard Base64 encoding with `=` padding: every three bytes become
/// four characters, a last group of one or two bytes is padded.
pub open spec fn base64_encoding(b: Seq<u8>) -> Seq<char>
    decreases b.len(),
{
    if b.len() == 0 {
        seq![]
    } else if b.len() == 1 {
        seq![base64_digit((b[0] as int) / 4), base64_digit(((b[0] as int) % 4) * 16), '=', '=']
    } else if b.len() == 2 {
        seq![
            base64_digit((b[0] as int) / 4),
            base64_digit(((b[0] as int) % 4) * 16 + (b[1] as int) / 16),
            base64_digit(((b[1] as int) % 16) * 4),
            '=',
        ]
    } else {
        seq![
            base64_digit((b[0] as int) / 4),
            base64_digit(((b[0] as int) % 4) * 16 + (b[1] as int) / 16),
            base64_digit(((b[1] as int) % 16) * 4 + (b[2] as int) / 64),
            base64_digit((b[2] as int) % 64),
        ] + base64_encoding(b.skip(3))
    }
}

/// Different six-bit values have different digits, and no digit is `=`.
pub proof fn lemma_base64_digit_injective(i: int, j: int)
    requires
        0 <= i < 64,
        0 <= j < 64,
    ensures
        base64_digit(i) != '=',
        base64_digit(i) == base64_digit(j) ==> i == j,
{
}

/// The encoding has four characters for every group of up to three bytes.
pub proof fn lemma_base64_encoding_len(b: Seq<u8>)
    ensures
        base64_encoding(b).len() == 4 * ((b.len() + 2) / 3),
    decreases b.len(),
{
    if b.len() >= 3 {
        lemma_base64_encoding_len(b.skip(3));
    }
}

/// No two byte strings have the same encoding.
pub proof fn lemma_base64_encoding_injective(a: Seq<u8>, b: Seq<u8>)
    requires
        base64_encoding(a) == base64_encoding(b),
    ensures
        a == b,
    decreases a.len(),
{
    let ea = base64_encoding(a);
    let eb = base64_encoding(b);
    lemma_base64_encoding_len(a);
    lemma_base64_encoding_len(b);
    if a.len() == 0 || b.len() == 0 {
        assert(a.len() == 0 && b.len() == 0);
        assert(a =~= b);
    } else {
        assert(ea[0] == eb[0] && ea[1] == eb[1] && ea[2] == eb[2] && ea[3] == eb[3]);
        let a0 = a[0] as int;
        let b0 = b[0] as int;
        if a.len() >= 2 && b.len() >= 2 {
            let a1 = a[1] as int;
            let b1 = b[1] as int;
            if a.len() >= 3 && b.len() >= 3 {
                let a2 = a[2] as int;
                let b2 = b[2] as int;
                assert(ea[0] == base64_digit(a0 / 4) && eb[0] == base64_digit(b0 / 4));
                assert(ea[1] == base64_digit((a0 % 4) * 16 + a1 / 16));
                assert(eb[1] == base64_digit((b0 % 4) * 16 + b1 / 16));
                assert(ea[2] == base64_digit((a1 % 16) * 4 + a2 / 64));
                assert(eb[2] == base64_digit((b1 % 16) * 4 + b2 / 64));
                assert(ea[3] == base64_digit(a2 % 64) && eb[3] == base64_digit(b2 % 64));
                lemma_base64_digit_injective(a0 / 4, b0 / 4);
                lemma_base64_digit_injective((a0 % 4) * 16 + a1 / 16, (b0 % 4) * 16 + b1 / 16);
                lemma_base64_digit_injective((a1 % 16) * 4 + a2 / 64, (b1 % 16) * 4 + b2 / 64);
                lemma_base64_digit_injective(a2 % 64, b2 % 64);
                assert(a0 == b0 && a1 == b1 && a2 == b2) by (nonlinear_arith)
                    requires
                        0 <= a0 < 256, 0 <= b0 < 256, 0 <= a1 < 256, 0 <= b1 < 256, 0 <= a2 < 256, 0 <= b2 < 256,
                        a0 / 4 == b0 / 4,
                        (a0 % 4) * 16 + a1 / 16 == (b0 % 4) * 16 + b1 / 16,
                        (a1 % 16) * 4 + a2 / 64 == (b1 % 16) * 4 + b2 / 64,
                        a2 % 64 == b2 % 64;
                assert(ea.skip(4) =~= base64_encoding(a.skip(3)));
                assert(eb.skip(4) =~= base64_encoding(b.skip(3)));
                lemma_base64_encoding_injective(a.skip(3), b.skip(3));
                assert(a =~= seq![a[0], a[1], a[2]] + a.skip(3));
                assert(b =~= seq![b[0], b[1], b[2]] + b.skip(3));
            } else if a.len() >= 3 {
                lemma_base64_digit_injective(a2_digit(a), 0);
            } else if b.len() >= 3 {
                lemma_base64_digit_injective(a2_digit(b), 0);
            } else {
                lemma_base64_digit_injective((a1 % 16) * 4, (b1 % 16) * 4);
                lemma_base64_digit_injective(a0 / 4, b0 / 4);
                lemma_base64_digit_injective((a0 % 4) * 16 + a1 / 16, (b0 % 4) * 16 + b1 / 16);
                assert(a0 == b0 && a1 == b1) by (nonlinear_arith)
                    requires
                        0 <= a0 < 256, 0 <= b0 < 256, 0 <= a1 < 256, 0 <= b1 < 256,
                        a0 / 4 == b0 / 4,
                        (a0 % 4) * 16 + a1 / 16 == (b0 % 4) * 16 + b1 / 16,
                        (a1 % 16) * 4 == (b1 % 16) * 4;
                assert(a =~= b);
            }
        } else if a.len() >= 2 {
            lemma_base64_digit_injective(a2_digit2(a), 0);
        } else if b.len() >= 2 {
            lemma_base64_digit_injective(a2_digit2(b), 0);
        } else {
            lemma_base64_digit_injective((a0 % 4) * 16, (b0 % 4) * 16);
            lemma_base64_digit_injective(a0 / 4, b0 / 4);
            assert(a0 == b0) by (nonlinear_arith)
                requires
                    0 <= a0 < 256, 0 <= b0 < 256,
                    a0 / 4 == b0 / 4,
                    (a0 % 4) * 16 == (b0 % 4) * 16;
            assert(a =~= b);
        }
    }
}

/// The value of the third digit of a group of three bytes.
spec fn a2_digit(b: Seq<u8>) -> int {
    ((b[1] as int) % 16) * 4 + (b[2] as int) / 64
}

/// The value of the third digit of a group of two bytes.
spec fn a2_digit2(b: Seq<u8>) -> int {
    ((b[1] as int) % 16) * 4
}

/// What the standard Base64 engine decodes a text to: the bytes whose
/// padded encoding is the text, or `None` where no bytes have it as their
/// encoding (no two byte strings share an encoding).
pub open spec fn base64_decoded(s: Seq<char>) -> Option<Seq<u8>> {
    if exists|b: Seq<u8>| #[trigger] base64_encoding(b) == s {
        Some(choose|b: Seq<u8>| #[trigger] base64_encoding(b) == s)
    } else {
        None
    }
}

/// `STANDARD.decode`: the bytes the text encodes, or `None` where the engine
/// returns an error. The engine (`GeneralPurposeConfig::new`) requires
/// canonical padding and refuses trailing bits, so it accepts exactly the
/// padded encodings of byte strings (`base64_encoding`), and gives back the
/// bytes encoded.
#[verifier::external_body]
pub(crate) fn base64_decode(s: &str) -> (r: Option<Vec<u8>>)
    ensures
        r matches Some(v) ==> base64_decoded(s@) == Some(v@) && base64_encoding(v@) == s@,
        r is None ==> base64_decoded(s@) is None,
{
    base64::engine::general_purpose::STANDARD.decode(s).ok()
}

/// `STANDARD.encode`: the padded standard Base64 encoding of the bytes. The
/// engine panics when the length of the encoding overflows `usize`; the
/// bound rules that out.
#[verifier::external_body]
pub(crate) fn base64_encode(b: &[u8]) -> (r: String)
    requires
        b@.len() <= 0x4000_0000,
    ensures
        r@ == base64_encoding(b@),
{
    base64::engine::general_purpose::STANDARD.encode(b)
}

/// `image::load_from_memory`: `None` when the bytes decode to an image of a
/// format the build supports, else the text of the error. Which bytes
/// decode is named, not spelled out.
#[verifier::external_body]
pub(crate) fn image_decode_error(bytes: &[u8]) -> (r: Option<String>)
    ensures
        r matches Some(e) ==> image_load_error(bytes@) == Some(e@),
        r is None ==> image_load_error(bytes@) is None,
{
    match image::load_from_memory(bytes) {
        Ok(_) => None,
        Err(e) => Some(e.to_string()),
    }
}

} // verus!
