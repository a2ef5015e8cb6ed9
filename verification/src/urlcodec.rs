//! Percent-decoding of query-parameter values, through the `urlencoding`
//! crate, with an exact byte-level specification.

use vstd::prelude::*;
use vstd::utf8::{valid_utf8, encode_utf8, decode_utf8, encode_scalar};

verus! {

/// An ASCII hexadecimal digit, either case.
pub open spec fn is_hex_digit(b: u8) -> bool {
    (0x30 <= b <= 0x39) || (0x41 <= b <= 0x46) || (0x61 <= b <= 0x66)
}

/// The value of an ASCII hexadecimal digit.
pub open spec fn hex_val(b: u8) -> int {
    if 0x30 <= b <= 0x39 {
        b - 0x30
    } else if 0x41 <= b <= 0x46 {
        b - 0x41 + 10
    } else {
        b - 0x61 + 10
    }
}

/// `b` with every `%xx` escape (two hexadecimal digits after a `%` byte,
/// 0x25) replaced by the byte it names; a `%` not followed by two
/// hexadecimal digits stays, and the bytes after it are scanned again.
pub open spec fn pct_decoded(b: Seq<u8>) -> Seq<u8>
    decreases b.len(),
{
    if b.len() == 0 {
        Seq::empty()
    } else if b[0] == 0x25 && b.len() >= 3 && is_hex_digit(b[1]) && is_hex_digit(b[2]) {
        seq![(hex_val(b[1]) * 16 + hex_val(b[2])) as u8] + pct_decoded(b.skip(3))
    } else {
        seq![b[0]] + pct_decoded(b.skip(1))
    }
}

/// The characters of the percent-decoded form of `s`, or `None` when the
/// decoded bytes are not valid UTF-8.
pub open spec fn url_decoded_chars(s: Seq<char>) -> Option<Seq<char>> {
    let d = pct_decoded(encode_utf8(s));
    if valid_utf8(d) {
        Some(decode_utf8(d))
    } else {
        None
    }
}

/// Relies on `urlencoding::decode`: it rewrites each `%xx` hexadecimal
/// escape of the input's UTF-8 bytes to the named byte, keeps a `%` that
/// two such digits do not follow, rescanning the bytes after it, and fails
/// exactly when the rewritten bytes are not valid UTF-8.
#[verifier::external_body]
pub fn url_decode(s: &str) -> (r: Option<String>)
    ensures
        r.deep_view() == url_decoded_chars(s@),
{
    match urlencoding::decode(s) {
        Ok(cow) => Some(cow.into_owned()),
        Err(_) => None,
    }
}

/// Decoding text that holds no `%` gives the text back.
pub proof fn lemma_decode_plain(s: Seq<char>)
    requires
        forall|i: int| 0 <= i < s.len() ==> s[i] != '%',
    ensures
        url_decoded_chars(s) == Some(s),
{
    broadcast use vstd::utf8::encode_utf8_valid_utf8;
    broadcast use vstd::utf8::encode_utf8_decode_utf8;

    lemma_encode_no_pct(s);
    lemma_pct_free_identity(encode_utf8(s));
}

/// UTF-8 text without the `%` character encodes to bytes without 0x25.
proof fn lemma_encode_no_pct(s: Seq<char>)
    requires
        forall|i: int| 0 <= i < s.len() ==> s[i] != '%',
    ensures
        forall|i: int| 0 <= i < encode_utf8(s).len() ==> encode_utf8(s)[i] != 0x25,
    decreases s.len(),
{
    if s.len() > 0 {
        let c = s[0] as u32;
        assert(c != 0x25) by {
            vstd::utf8::char_u32_cast(s[0], s[0] as u32);
            vstd::utf8::char_u32_cast('%', '%' as u32);
            assert(('%' as u32) == 0x25);
        }
        lemma_scalar_no_pct(c);
        lemma_encode_no_pct(s.drop_first());
        assert forall|i: int| 0 <= i < encode_utf8(s).len() implies encode_utf8(s)[i] != 0x25 by {
            if i < encode_scalar(c).len() {
                assert(encode_utf8(s)[i] == encode_scalar(c)[i]);
            } else {
                assert(encode_utf8(s)[i] == encode_utf8(s.drop_first())[i - encode_scalar(
                    c,
                ).len()]);
            }
        }
    }
}

/// No byte of the encoding of a scalar other than 0x25 is 0x25.
proof fn lemma_scalar_no_pct(c: u32)
    requires
        c != 0x25,
    ensures
        forall|i: int| 0 <= i < encode_scalar(c).len() ==> encode_scalar(c)[i] != 0x25,
{
    assert((c & 0x7F) == c ==> (c & 0x7F) != 0x25) by (bit_vector)
        requires
            c != 0x25,
    ;
    assert(c < 0x80 ==> (c & 0x7F) == c) by (bit_vector);
    assert((0xC0u8 | ((c >> 6) & 0x1F) as u8) != 0x25) by (bit_vector);
    assert((0xE0u8 | ((c >> 12) & 0x0F) as u8) != 0x25) by (bit_vector);
    assert((0xF0u8 | ((c >> 18) & 0x7) as u8) != 0x25) by (bit_vector);
    assert((0x80u8 | (c & 0x3F) as u8) != 0x25) by (bit_vector);
    assert((0x80u8 | ((c >> 6) & 0x3F) as u8) != 0x25) by (bit_vector);
    assert((0x80u8 | ((c >> 12) & 0x3F) as u8) != 0x25) by (bit_vector);
}

/// Percent-decoding bytes without 0x25 changes nothing.
proof fn lemma_pct_free_identity(b: Seq<u8>)
    requires
        forall|i: int| 0 <= i < b.len() ==> b[i] != 0x25,
    ensures
        pct_decoded(b) == b,
    decreases b.len(),
{
    if b.len() > 0 {
        lemma_pct_free_identity(b.skip(1));
        assert(pct_decoded(b) =~= b);
    } else {
        assert(pct_decoded(b) =~= b);
    }
}

} // verus!
