use vstd::prelude::*;

verus! {

use vstd::utf8::{decode_utf8, encode_utf8, valid_utf8};

/// True for the ASCII bytes that a `%XX` escape may use as digits:
/// `0`-`9`, `A`-`F` and `a`-`f`.
pub open spec fn is_hex_byte(b: u8) -> bool {
    (0x30 <= b <= 0x39) || (0x41 <= b <= 0x46) || (0x61 <= b <= 0x66)
}

/// Numeric value of a hexadecimal digit byte.
pub open spec fn hex_value(b: u8) -> int
    recommends
        is_hex_byte(b),
{
    if 0x30 <= b <= 0x39 {
        b - 0x30
    } else if 0x41 <= b <= 0x46 {
        b - 0x41 + 10
    } else {
        b - 0x61 + 10
    }
}

/// One percent-decoding pass over a byte sequence: every `%` that is followed
/// by two hexadecimal digits becomes the byte those digits denote; every other
/// byte is kept as it is.
pub open spec fn percent_decoded(b: Seq<u8>) -> Seq<u8>
    decreases b.len(),
{
    if b.len() == 0 {
        Seq::empty()
    } else if b[0] == 0x25 && b.len() >= 3 && is_hex_byte(b[1]) && is_hex_byte(b[2]) {
        seq![(hex_value(b[1]) * 0x10 + hex_value(b[2])) as u8] + percent_decoded(b.skip(3))
    } else {
        seq![b[0]] + percent_decoded(b.skip(1))
    }
}

/// The text that one percent-decoding pass over the UTF-8 bytes of `s` yields,
/// or `None` when the decoded bytes are not valid UTF-8.
pub open spec fn decoded_text(s: Seq<char>) -> Option<Seq<char>> {
    let b = percent_decoded(encode_utf8(s));
    if valid_utf8(b) {
        Some(decode_utf8(b))
    } else {
        None
    }
}

/// A byte sequence holding no `%` is left unchanged by a decoding pass: text
/// that is already fully decoded is never decoded a second time.
pub proof fn lemma_decode_without_escapes(b: Seq<u8>)
    requires
        !b.contains(0x25u8),
    ensures
        percent_decoded(b) == b,
    decreases b.len(),
{
    if b.len() == 0 {
        assert(percent_decoded(b) =~= b);
    } else {
        assert(b[0] != 0x25) by {
            assert(b.contains(b[0]));
        }
        assert forall|j: int| 0 <= j < b.skip(1).len() implies b.skip(1)[j] != 0x25u8 by {
            assert(b.skip(1)[j] == b[j + 1]);
            assert(b[j + 1] != 0x25) by {
                assert(b.contains(b[j + 1]));
            }
        }
        assert(!b.skip(1).contains(0x25u8));
        lemma_decode_without_escapes(b.skip(1));
        assert(percent_decoded(b) =~= b);
    }
}

/// Relies on `percent_encoding::percent_decode`: each `%` followed by two
/// hexadecimal digit bytes is replaced by the byte they denote, and every
/// other byte passes through unchanged; the result depends on the input alone.
#[verifier::external_body]
fn percent_decode_bytes(b: &[u8]) -> (r: Vec<u8>)
    ensures
        r@ == percent_decoded(b@),
{
    percent_encoding::percent_decode(b).collect()
}

/// Relies on `alloc::string::String::from_utf8`: `Ok` exactly when the bytes
/// are valid UTF-8, in which case the string holds their decoding.
#[verifier::external_body]
fn bytes_to_string(b: Vec<u8>) -> (r: Option<String>)
    ensures
        r is Some <==> valid_utf8(b@),
        r matches Some(s) ==> s@ == decode_utf8(b@),
{
    String::from_utf8(b).ok()
}

/// Percent-decodes `s` exactly once and reads the result as UTF-8 text.
pub fn decode_component(s: &str) -> (r: Option<String>)
    ensures
        match r {
            Some(d) => decoded_text(s@) == Some(d@),
            None => decoded_text(s@) is None,
        },
{
    let bytes = percent_decode_bytes(s.as_bytes());
    bytes_to_string(bytes)
}

} // verus!
