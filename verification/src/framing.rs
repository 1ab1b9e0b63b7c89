//! Framing primitives shared by both codecs: unpadded standard-alphabet
//! base64, and fixed-width big-endian integers.
use vstd::prelude::*;

verus! {

/// The error type returned by the base64 decoder of the `base64` crate.
#[verifier::external_type_specification]
#[verifier::external_body]
pub struct ExDecodeError(base64::DecodeError);

/// The unpadded standard-alphabet base64 encoding of a byte sequence, as
/// computed by `base64::encode_config` with `STANDARD_NO_PAD`.
pub uninterp spec fn b64_of(data: Seq<u8>) -> Seq<char>;

/// What the base64 decoder of the `base64` crate accepts and returns on a
/// given text, under the `STANDARD_NO_PAD` configuration: `None` where it
/// rejects the text. The decoder is lenient (it also accepts padded forms),
/// so this is not the exact inverse of [`b64_of`]; on encodings produced by
/// [`b64_of`] the two agree.
pub uninterp spec fn b64_decode_of(text: Seq<char>) -> Option<Seq<u8>>;

/// A character of the standard base64 alphabet.
pub open spec fn is_b64_char(c: char) -> bool {
    ('A' <= c && c <= 'Z') || ('a' <= c && c <= 'z') || ('0' <= c && c <= '9') || c == '+' || c
        == '/'
}

/// Every character of the sequence is from the standard base64 alphabet.
pub open spec fn all_b64_chars(s: Seq<char>) -> bool {
    forall|i: int| 0 <= i < s.len() ==> is_b64_char(#[trigger] s[i])
}

/// Relies on `base64::encode_config` with `STANDARD_NO_PAD`: the unpadded
/// standard-alphabet encoding, whose output uses only alphabet characters.
#[verifier::external_body]
fn b64_encode_raw(data: &[u8]) -> (r: String)
    ensures
        r@ == b64_of(data@),
        all_b64_chars(r@),
{
    base64::encode_config(data, base64::STANDARD_NO_PAD)
}

/// Relies on `base64::decode_config` with `STANDARD_NO_PAD`: it inverts
/// `base64::encode_config` on every encoding the latter produces, and its
/// result is a function of the input text alone.
#[verifier::external_body]
fn b64_decode_raw(data: &str) -> (r: Result<Vec<u8>, base64::DecodeError>)
    ensures
        r is Ok <==> b64_decode_of(data@) is Some,
        r matches Ok(v) ==> Some(v@) == b64_decode_of(data@),
        forall|x: Seq<u8>| data@ == b64_of(x) ==> r is Ok && r->Ok_0@ == x,
{
    base64::decode_config(data, base64::STANDARD_NO_PAD)
}

/// Encode bytes as unpadded standard-alphabet base64 text.
pub fn base_64_encode(data: &[u8]) -> (r: String)
    ensures
        r@ == b64_of(data@),
        all_b64_chars(r@),
{
    b64_encode_raw(data)
}

/// Decode unpadded standard-alphabet base64 text into bytes.
pub fn base64_decode(data: &str) -> (r: Result<Vec<u8>, base64::DecodeError>)
    ensures
        r is Ok <==> b64_decode_of(data@) is Some,
        r matches Ok(v) ==> Some(v@) == b64_decode_of(data@),
        forall|x: Seq<u8>| data@ == b64_of(x) ==> r is Ok && r->Ok_0@ == x,
{
    b64_decode_raw(data)
}

/// The two bytes of a 16-bit integer, most significant first.
pub open spec fn be16_bytes(v: u16) -> Seq<u8> {
    seq![(v >> 8) as u8, v as u8]
}

/// The 16-bit integer read from two bytes, most significant first.
pub open spec fn be16_value(b: Seq<u8>) -> u16 {
    ((b[0] as u16) << 8) | (b[1] as u16)
}

/// The four bytes of a 32-bit integer, most significant first.
pub open spec fn be32_bytes(v: u32) -> Seq<u8> {
    seq![(v >> 24) as u8, (v >> 16) as u8, (v >> 8) as u8, v as u8]
}

/// The 32-bit integer read from four bytes, most significant first.
pub open spec fn be32_value(b: Seq<u8>) -> u32 {
    ((b[0] as u32) << 24) | ((b[1] as u32) << 16) | ((b[2] as u32) << 8) | (b[3] as u32)
}

/// Reading back the two big-endian bytes of a 16-bit integer gives the
/// integer.
pub proof fn lemma_be16_round_trip(v: u16)
    ensures
        be16_value(be16_bytes(v)) == v,
{
    assert(((((v >> 8) as u8) as u16) << 8) | ((v as u8) as u16) == v) by (bit_vector);
}

/// Reading back the four big-endian bytes of a 32-bit integer gives the
/// integer.
pub proof fn lemma_be32_round_trip(v: u32)
    ensures
        be32_value(be32_bytes(v)) == v,
{
    assert(((((v >> 24) as u8) as u32) << 24) | ((((v >> 16) as u8) as u32) << 16) | ((((v
        >> 8) as u8) as u32) << 8) | ((v as u8) as u32) == v) by (bit_vector);
}

/// Append the two big-endian bytes of `v` to `out`.
pub fn push_be16(out: &mut Vec<u8>, v: u16)
    ensures
        final(out)@ == old(out)@ + be16_bytes(v),
{
    out.push((v >> 8) as u8);
    out.push(v as u8);
    assert(out@ =~= old(out)@ + be16_bytes(v));
}

/// Append the four big-endian bytes of `v` to `out`.
pub fn push_be32(out: &mut Vec<u8>, v: u32)
    ensures
        final(out)@ == old(out)@ + be32_bytes(v),
{
    out.push((v >> 24) as u8);
    out.push((v >> 16) as u8);
    out.push((v >> 8) as u8);
    out.push(v as u8);
    assert(out@ =~= old(out)@ + be32_bytes(v));
}

/// Relies on `String::from_utf8`: succeeds exactly on well-formed UTF-8 and
/// returns the string whose bytes are the input.
#[verifier::external_body]
pub(crate) fn utf8_to_string(v: Vec<u8>) -> (r: Option<String>)
    ensures
        r matches Some(s) ==> vstd::utf8::valid_utf8(v@) && s@ == vstd::utf8::decode_utf8(v@),
        r is None ==> !vstd::utf8::valid_utf8(v@),
{
    match String::from_utf8(v) {
        Ok(s) => Some(s),
        Err(_) => None,
    }
}

/// Read the 16-bit big-endian integer at `at` in `b`.
pub fn read_be16(b: &[u8], at: usize) -> (r: u16)
    requires
        at + 2 <= b@.len(),
    ensures
        r == be16_value(b@.subrange(at as int, at + 2)),
{
    let r = ((b[at] as u16) << 8) | (b[at + 1] as u16);
    assert(b@.subrange(at as int, at + 2)[0] == b@[at as int]);
    assert(b@.subrange(at as int, at + 2)[1] == b@[at + 1]);
    r
}

/// Read the 32-bit big-endian integer at `at` in `b`.
pub fn read_be32(b: &[u8], at: usize) -> (r: u32)
    requires
        at + 4 <= b@.len(),
    ensures
        r == be32_value(b@.subrange(at as int, at + 4)),
{
    let r = ((b[at] as u32) << 24) | ((b[at + 1] as u32) << 16) | ((b[at + 2] as u32) << 8) | (b[at
        + 3] as u32);
    assert(b@.subrange(at as int, at + 4)[0] == b@[at as int]);
    assert(b@.subrange(at as int, at + 4)[1] == b@[at + 1]);
    assert(b@.subrange(at as int, at + 4)[2] == b@[at + 2]);
    assert(b@.subrange(at as int, at + 4)[3] == b@[at + 3]);
    r
}

} // verus!
