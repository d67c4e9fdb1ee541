//! Text and integer codecs used by every wire format of the runtime.
use vstd::bytes::*;
use vstd::prelude::*;
use vstd::slice::*;
use vstd::string::*;
use vstd::utf8::*;

verus! {

/// Relies on `std::str::from_utf8`: it accepts exactly the byte strings that
/// are well-formed UTF-8, and then lends them out as a `str` with those bytes.
#[verifier::external_body]
fn utf8_str(b: &[u8]) -> (r: Option<&str>)
    ensures
        r is Some <==> valid_utf8(b@),
        r matches Some(s) ==> encode_utf8(s@) == b@,
{
    match std::str::from_utf8(b) {
        Ok(s) => Some(s),
        Err(_) => None,
    }
}

/// The UTF-8 bytes of `s`.
pub fn encode_text(s: &str) -> (r: Vec<u8>)
    ensures
        r@ == encode_utf8(s@),
{
    slice_to_vec(s.as_bytes())
}

/// The text whose UTF-8 encoding is `b`, or `None` when `b` is not
/// well-formed UTF-8 (for instance cut off inside a multi-byte sequence).
pub fn decode_text(b: &[u8]) -> (r: Option<String>)
    ensures
        r is Some <==> valid_utf8(b@),
        r matches Some(s) ==> s@ == decode_utf8(b@),
        r matches Some(s) ==> encode_utf8(s@) == b@,
{
    match utf8_str(b) {
        Some(s) => {
            proof {
                encode_utf8_decode_utf8(s@);
            }
            Some(s.to_owned())
        },
        None => None,
    }
}

/// Decoding the encoding of any text gives that text back.
pub proof fn lemma_text_round_trip(s: Seq<char>)
    ensures
        valid_utf8(encode_utf8(s)),
        decode_utf8(encode_utf8(s)) == s,
{
    encode_utf8_valid_utf8(s);
    encode_utf8_decode_utf8(s);
}

/// The eight little-endian bytes of `x`.
pub open spec fn le64(x: u64) -> Seq<u8> {
    spec_u64_to_le_bytes(x)
}

/// The number written in eight little-endian bytes.
pub open spec fn le64_value(b: Seq<u8>) -> u64 {
    spec_u64_from_le_bytes(b)
}

pub proof fn lemma_le64(x: u64)
    ensures
        le64(x).len() == 8,
        le64_value(le64(x)) == x,
{
    lemma_auto_spec_u64_to_from_le_bytes();
    assert(spec_u64_to_le_bytes(x).len() == 8);
}

/// Appends the eight little-endian bytes of `x` to `out`.
pub fn put_u64(out: &mut Vec<u8>, x: u64)
    ensures
        final(out)@ == old(out)@ + le64(x),
{
    let mut b = u64_to_le_bytes(x);
    out.append(&mut b);
}

/// Reads eight little-endian bytes of `b` from position `at`.
pub fn get_u64(b: &[u8], at: usize) -> (r: u64)
    requires
        at + 8 <= b@.len(),
    ensures
        r == le64_value(b@.subrange(at as int, at + 8)),
{
    let len: usize = b.len();
    let end: usize = len - (len - at - 8);
    let s = slice_subrange(b, at, end);
    u64_from_le_bytes(s)
}

} // verus!
