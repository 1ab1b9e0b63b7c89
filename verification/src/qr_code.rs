//! Verification payload codec: the compact, versioned binary record of an
//! interactive device-verification handshake, rendered and scanned as a 2-D
//! barcode.
//!
//! The record layout, big-endian: a 6-byte magic tag, one version byte, one
//! mode byte, the flow id's byte length as two bytes, the flow id in UTF-8,
//! then the two keys and the shared secret as raw bytes. The three trailing
//! fields carry no length prefixes of their own: their boundaries are known
//! only to the verification flow, so the decoder hands them back as one
//! undivided remainder.

use vstd::prelude::*;
use vstd::string::StringSliceAdditionalSpecFns;
use vstd::utf8::{decode_utf8, valid_utf8};

use crate::framing::{
    b64_decode_of, b64_of, base64_decode, be16_bytes, be16_value, lemma_be16_round_trip, push_be16,
    utf8_to_string,
};

verus! {

/// The format version this codec produces and accepts.
pub const QR_VERSION: u8 = 2;

/// The highest mode byte the decoder accepts.
pub const MAX_MODE: u8 = 2;

/// The magic tag opening every verification record: the ASCII bytes of
/// "MATRIX".
pub open spec fn qr_magic() -> Seq<u8> {
    seq![77u8, 65u8, 84u8, 82u8, 73u8, 88u8]
}

/// The barcode type of the `qrcode` crate.
#[verifier::external_type_specification]
#[verifier::external_body]
pub struct ExQrCode(qrcode::QrCode);

/// The error type of the `qrcode` crate, returned when data exceeds the
/// barcode's capacity.
#[verifier::external_type_specification]
#[verifier::external_body]
pub struct ExQrError(qrcode::types::QrError);

/// Error representing a failure while building a verification record or its
/// barcode.
#[derive(Clone, Copy, Debug)]
pub enum EncodingError {
    /// The flow id's byte length does not fit the 16-bit length prefix.
    FlowIdTooLong,
    /// A key or secret argument is not valid base64.
    Base64,
    /// The record does not fit the barcode's capacity.
    Qr(qrcode::types::QrError),
}

/// A structural failure reported by the barcode scanner for one detected
/// region.
#[derive(Clone, Copy, Debug, PartialEq, Eq, Structural)]
pub enum ScanError {
    /// The decoded payload could not be written out.
    Io,
    /// Expected more bits to decode.
    DataUnderflow,
    /// Expected fewer bits to decode.
    DataOverflow,
    /// Unknown data type in the encoding.
    UnknownDataType,
    /// Error correction failed; the code is corrupt.
    DataEcc,
    /// The format information could not be read from either location.
    FormatEcc,
    /// Unsupported or non-existent version read.
    InvalidVersion,
    /// Unsupported or non-existent grid size read.
    InvalidGridSize,
    /// The payload was not encoded as expected.
    Encoding,
}

/// Error representing a failure while decoding a verification record.
#[derive(Clone, Copy, Debug, PartialEq, Eq, Structural)]
pub enum DecodingError {
    /// No decoded payload began with the magic tag.
    Header,
    /// The record's version byte is not the supported version.
    UnsupportedVersion,
    /// The record's mode byte is above the highest known mode.
    UnknownMode,
    /// The record ends before all required fields.
    Truncated,
    /// The flow id is not valid UTF-8.
    InvalidUtf8,
    /// Every detected region failed structurally; the most recent failure.
    Scan(ScanError),
}

/// A decoded verification record: the fixed header fields, and the three
/// trailing byte ranges as one undivided remainder.
#[derive(Clone, Debug, PartialEq, Eq)]
pub struct VerificationRecord {
    /// The mode byte of the handshake.
    pub mode: u8,
    /// The flow id that names the handshake.
    pub flow_id: String,
    /// The two keys and the shared secret, concatenated; opaque to this
    /// codec.
    pub remainder: Vec<u8>,
}

/// The encoded verification record for the given header fields and raw
/// trailing bytes.
pub open spec fn qr_record_of(
    mode: u8,
    flow: Seq<u8>,
    k1: Seq<u8>,
    k2: Seq<u8>,
    secret: Seq<u8>,
) -> Seq<u8> {
    qr_magic() + seq![QR_VERSION, mode] + be16_bytes(flow.len() as u16) + flow + k1 + k2 + secret
}

/// What decoding a buffer yields: the mode, the flow id, and the undivided
/// remainder, or the exact structural failure, for every buffer.
pub open spec fn parse_qr_record(b: Seq<u8>) -> Result<(u8, Seq<char>, Seq<u8>), DecodingError> {
    if b.len() < 6 {
        Err(DecodingError::Truncated)
    } else if b.subrange(0, 6) != qr_magic() {
        Err(DecodingError::Header)
    } else if b.len() < 10 {
        Err(DecodingError::Truncated)
    } else if b[6] != QR_VERSION {
        Err(DecodingError::UnsupportedVersion)
    } else if b[7] > MAX_MODE {
        Err(DecodingError::UnknownMode)
    } else {
        let n = be16_value(b.subrange(8, 10)) as int;
        if b.len() < 10 + n {
            Err(DecodingError::Truncated)
        } else {
            let flow = b.subrange(10, 10 + n);
            if !valid_utf8(flow) {
                Err(DecodingError::InvalidUtf8)
            } else {
                Ok((b[7], decode_utf8(flow), b.subrange(10 + n, b.len() as int)))
            }
        }
    }
}

/// What building a record from a flow id and the three base64 arguments'
/// decodings yields, for every combination.
pub open spec fn to_bytes_result(
    mode: u8,
    flow: Seq<u8>,
    d1: Option<Seq<u8>>,
    d2: Option<Seq<u8>>,
    d3: Option<Seq<u8>>,
) -> Result<Seq<u8>, EncodingError> {
    if flow.len() > 0xFFFF {
        Err(EncodingError::FlowIdTooLong)
    } else {
        match (d1, d2, d3) {
            (Some(a), Some(b), Some(c)) => Ok(qr_record_of(mode, flow, a, b, c)),
            _ => Err(EncodingError::Base64),
        }
    }
}

/// Build the byte form of a verification record. The keys and the secret
/// arrive base64-encoded and are carried as raw bytes; the mode byte is
/// framed as given — judging its meaning belongs to the verification flow.
pub fn to_bytes(
    mode: u8,
    flow_id: &str,
    first_key: &str,
    second_key: &str,
    shared_secret: &str,
) -> (r: Result<Vec<u8>, EncodingError>)
    ensures
        match to_bytes_result(
            mode,
            flow_id.spec_bytes(),
            b64_decode_of(first_key@),
            b64_decode_of(second_key@),
            b64_decode_of(shared_secret@),
        ) {
            Ok(v) => r matches Ok(out) && out@ == v,
            Err(e) => r == Err::<Vec<u8>, EncodingError>(e),
        },
        forall|a: Seq<u8>, b: Seq<u8>, c: Seq<u8>|
            flow_id.spec_bytes().len() <= 0xFFFF && first_key@ == b64_of(a) && second_key@
                == b64_of(b) && shared_secret@ == b64_of(c) ==> (r matches Ok(out) && out@
                == qr_record_of(mode, flow_id.spec_bytes(), a, b, c)),
{
    let flow_bytes = flow_id.as_bytes();
    if flow_bytes.len() > 0xFFFF {
        return Err(EncodingError::FlowIdTooLong);
    }
    let flow_len: u16 = flow_bytes.len() as u16;

    let k1 = match base64_decode(first_key) {
        Ok(v) => v,
        Err(_) => {
            return Err(EncodingError::Base64);
        },
    };
    let k2 = match base64_decode(second_key) {
        Ok(v) => v,
        Err(_) => {
            return Err(EncodingError::Base64);
        },
    };
    let k3 = match base64_decode(shared_secret) {
        Ok(v) => v,
        Err(_) => {
            return Err(EncodingError::Base64);
        },
    };

    let mut out: Vec<u8> = Vec::new();
    out.push(77);
    out.push(65);
    out.push(84);
    out.push(82);
    out.push(73);
    out.push(88);
    out.push(QR_VERSION);
    out.push(mode);
    push_be16(&mut out, flow_len);
    out.extend_from_slice(flow_bytes);
    out.extend_from_slice(k1.as_slice());
    out.extend_from_slice(k2.as_slice());
    out.extend_from_slice(k3.as_slice());
    assert(out@ =~= qr_record_of(mode, flow_id.spec_bytes(), k1@, k2@, k3@));
    Ok(out)
}

/// Decode the byte form of a verification record, rejecting any buffer whose
/// first six bytes are not the magic tag, whose version or mode is unknown,
/// or which ends before all fields; what is returned for every buffer is
/// pinned by [`parse_qr_record`].
pub fn from_bytes(data: &[u8]) -> (r: Result<VerificationRecord, DecodingError>)
    ensures
        match parse_qr_record(data@) {
            Ok((mode, flow, rem)) => r matches Ok(rec) && rec.mode == mode && rec.flow_id@ == flow
                && rec.remainder@ == rem,
            Err(e) => r == Err::<VerificationRecord, DecodingError>(e),
        },
{
    if data.len() < 6 {
        return Err(DecodingError::Truncated);
    }
    if !(data[0] == 77 && data[1] == 65 && data[2] == 84 && data[3] == 82 && data[4] == 73
        && data[5] == 88) {
        proof {
            if data@.subrange(0, 6) == qr_magic() {
                assert(data@.subrange(0, 6)[0] == 77);
                assert(data@.subrange(0, 6)[1] == 65);
                assert(data@.subrange(0, 6)[2] == 84);
                assert(data@.subrange(0, 6)[3] == 82);
                assert(data@.subrange(0, 6)[4] == 73);
                assert(data@.subrange(0, 6)[5] == 88);
            }
        }
        return Err(DecodingError::Header);
    }
    assert(data@.subrange(0, 6) =~= qr_magic());
    if data.len() < 10 {
        return Err(DecodingError::Truncated);
    }
    if data[6] != QR_VERSION {
        return Err(DecodingError::UnsupportedVersion);
    }
    let mode = data[7];
    if mode > MAX_MODE {
        return Err(DecodingError::UnknownMode);
    }
    let n = crate::framing::read_be16(data, 8) as usize;
    if data.len() < 10 + n {
        return Err(DecodingError::Truncated);
    }
    let flow_bytes = vstd::slice::slice_to_vec(vstd::slice::slice_subrange(data, 10, 10 + n));
    let remainder = vstd::slice::slice_to_vec(
        vstd::slice::slice_subrange(data, 10 + n, data.len()),
    );
    match utf8_to_string(flow_bytes) {
        Some(flow_id) => Ok(VerificationRecord { mode, flow_id, remainder }),
        None => Err(DecodingError::InvalidUtf8),
    }
}

/// The payload begins with the magic tag.
pub open spec fn starts_with_magic(b: Seq<u8>) -> bool {
    b.len() >= 6 && b.subrange(0, 6) == qr_magic()
}

/// Whether the bytes begin with the magic tag.
fn slice_has_magic(data: &[u8]) -> (r: bool)
    ensures
        r == starts_with_magic(data@),
{
    if data.len() < 6 {
        return false;
    }
    let r = data[0] == 77 && data[1] == 65 && data[2] == 84 && data[3] == 82 && data[4] == 73
        && data[5] == 88;
    proof {
        if r {
            assert(data@.subrange(0, 6) =~= qr_magic());
        } else {
            if data@.subrange(0, 6) == qr_magic() {
                assert(data@.subrange(0, 6)[0] == 77);
                assert(data@.subrange(0, 6)[1] == 65);
                assert(data@.subrange(0, 6)[2] == 84);
                assert(data@.subrange(0, 6)[3] == 82);
                assert(data@.subrange(0, 6)[4] == 73);
                assert(data@.subrange(0, 6)[5] == 88);
            }
        }
    }
    r
}

/// Some attempt decoded successfully, with or without the tag.
pub open spec fn has_decoded(c: Seq<Result<Vec<u8>, ScanError>>) -> bool
    decreases c.len(),
{
    c.len() > 0 && (c[0] is Ok || has_decoded(c.drop_first()))
}

/// The scan-selection policy over the decode attempts of all detected
/// barcode regions, in detection order: the first successfully decoded
/// payload that begins with the magic tag is accepted. Where nothing is
/// accepted but at least one region decoded (without the tag), the failure
/// is a bare header error; only where every attempt failed structurally is
/// the most recent of those failures propagated. No regions at all is a
/// header error too.
pub open spec fn select_result(c: Seq<Result<Vec<u8>, ScanError>>) -> Result<Vec<u8>, DecodingError>
    decreases c.len(),
{
    if c.len() == 0 {
        Err(DecodingError::Header)
    } else {
        match c[0] {
            Ok(v) => if starts_with_magic(v@) {
                Ok(v)
            } else {
                match select_result(c.drop_first()) {
                    Ok(w) => Ok(w),
                    Err(_) => Err(DecodingError::Header),
                }
            },
            Err(e) => match select_result(c.drop_first()) {
                Ok(w) => Ok(w),
                Err(r) => if has_decoded(c.drop_first()) {
                    Err(DecodingError::Header)
                } else {
                    match r {
                        DecodingError::Header => Err(DecodingError::Scan(e)),
                        other => Err(other),
                    }
                },
            },
        }
    }
}

/// Whatever the policy accepts begins with the magic tag.
pub proof fn lemma_selected_has_magic(c: Seq<Result<Vec<u8>, ScanError>>)
    ensures
        select_result(c) matches Ok(v) ==> starts_with_magic(v@),
    decreases c.len(),
{
    if c.len() > 0 {
        lemma_selected_has_magic(c.drop_first());
    }
}

/// Apply the scan-selection policy to the decode attempts of the detected
/// barcode regions, in detection order. Tolerates extra regions and partial
/// occlusion in a live camera frame: one tag-carrying decode among the
/// candidates is enough.
pub fn select_decoded(candidates: Vec<Result<Vec<u8>, ScanError>>) -> (r: Result<
    Vec<u8>,
    DecodingError,
>)
    ensures
        r == select_result(candidates@),
        r matches Ok(v) ==> starts_with_magic(v@),
{
    let ghost orig = candidates@;
    let mut rest = candidates;
    let mut result: Result<Vec<u8>, DecodingError> = Err(DecodingError::Header);
    let mut seen_decoded: bool = false;
    proof {
        assert(orig.skip(orig.len() as int) =~= Seq::<Result<Vec<u8>, ScanError>>::empty());
    }
    while rest.len() > 0
        invariant
            rest@.len() <= orig.len(),
            rest@ == orig.subrange(0, rest@.len() as int),
            result == select_result(orig.skip(rest@.len() as int)),
            seen_decoded == has_decoded(orig.skip(rest@.len() as int)),
        decreases rest@.len(),
    {
        let ghost old_rest = rest@;
        let c = rest.pop().unwrap();
        let ghost i = rest@.len() as int;
        proof {
            assert(old_rest.len() == i + 1);
            assert(c == old_rest[i]);
            assert(old_rest[i] == orig.subrange(0, i + 1)[i]);
            assert(c == orig[i]);
            assert(orig.skip(i)[0] == orig[i]);
            assert(orig.skip(i).drop_first() =~= orig.skip(i + 1));
            assert(rest@ =~= orig.subrange(0, i));
        }
        match c {
            Ok(v) => {
                if slice_has_magic(v.as_slice()) {
                    result = Ok(v);
                } else {
                    result = match result {
                        Ok(w) => Ok(w),
                        Err(_) => Err(DecodingError::Header),
                    };
                }
                seen_decoded = true;
            },
            Err(e) => {
                result = match result {
                    Ok(w) => Ok(w),
                    Err(prev) => if seen_decoded {
                        Err(DecodingError::Header)
                    } else {
                        match prev {
                            DecodingError::Header => Err(DecodingError::Scan(e)),
                            other => Err(other),
                        }
                    },
                };
            },
        }
    }
    proof {
        assert(orig.skip(0) =~= orig);
        lemma_selected_has_magic(orig);
    }
    result
}

/// Whether a byte payload fits the capacity of some barcode version at the
/// encoder's error-correction level: exactly when `qrcode::QrCode::new`
/// succeeds, which is a function of the data alone.
pub uninterp spec fn fits_qr(data: Seq<u8>) -> bool;

/// Relies on `qrcode::QrCode::new`: encodes the data into the smallest
/// barcode that holds it at error-correction level M, deterministically in
/// the data, and fails exactly when no barcode version has the capacity.
#[verifier::external_body]
fn qr_new(data: Vec<u8>) -> (r: Result<qrcode::QrCode, qrcode::types::QrError>)
    ensures
        r is Ok <==> fits_qr(data@),
{
    qrcode::QrCode::new(data)
}

/// Build the verification record and wrap it in a 2-D barcode at the
/// encoder's chosen parameters; succeeds exactly when the record fits some
/// barcode version's capacity, and fails with a recoverable capacity error
/// otherwise.
pub fn to_qr_code(
    mode: u8,
    flow_id: &str,
    first_key: &str,
    second_key: &str,
    shared_secret: &str,
) -> (r: Result<qrcode::QrCode, EncodingError>)
    ensures
        match to_bytes_result(
            mode,
            flow_id.spec_bytes(),
            b64_decode_of(first_key@),
            b64_decode_of(second_key@),
            b64_decode_of(shared_secret@),
        ) {
            Err(e) => r == Err::<qrcode::QrCode, EncodingError>(e),
            Ok(v) => {
                &&& (r is Ok <==> fits_qr(v))
                &&& (r matches Err(e) ==> e is Qr)
            },
        },
{
    let data = match to_bytes(mode, flow_id, first_key, second_key, shared_secret) {
        Ok(d) => d,
        Err(e) => {
            return Err(e);
        },
    };
    match qr_new(data) {
        Ok(q) => Ok(q),
        Err(e) => Err(EncodingError::Qr(e)),
    }
}

/// Round trip of the verification record codec: for every mode up to the
/// highest known one, every flow id whose UTF-8 form fits the 16-bit length
/// prefix, and arbitrary bytes for the three trailing fields, decoding the
/// encoded record returns the mode, the flow id, and the three fields
/// concatenated in order.
pub proof fn lemma_verification_round_trip(
    mode: u8,
    flow: Seq<char>,
    k1: Seq<u8>,
    k2: Seq<u8>,
    secret: Seq<u8>,
)
    requires
        mode <= MAX_MODE,
        vstd::utf8::encode_utf8(flow).len() <= 0xFFFF,
    ensures
        parse_qr_record(qr_record_of(mode, vstd::utf8::encode_utf8(flow), k1, k2, secret)) == Ok::<
            (u8, Seq<char>, Seq<u8>),
            DecodingError,
        >((mode, flow, k1 + k2 + secret)),
{
    broadcast use vstd::utf8::encode_utf8_valid_utf8, vstd::utf8::encode_utf8_decode_utf8;

    let fb = vstd::utf8::encode_utf8(flow);
    let b = qr_record_of(mode, fb, k1, k2, secret);
    assert(b.len() == 10 + fb.len() + k1.len() + k2.len() + secret.len());
    assert(b.subrange(0, 6) =~= qr_magic());
    assert(b[6] == QR_VERSION);
    assert(b[7] == mode);
    assert(b.subrange(8, 10) =~= be16_bytes(fb.len() as u16));
    lemma_be16_round_trip(fb.len() as u16);
    assert(b.subrange(10, 10 + fb.len() as int) =~= fb);
    assert(b.subrange(10 + fb.len() as int, b.len() as int) =~= k1 + k2 + secret);
}

/// Bad-header rejection: a buffer whose first six bytes are not the magic
/// tag is always rejected with a header error, however well-formed the rest.
pub proof fn lemma_bad_header_rejected(b: Seq<u8>)
    requires
        b.len() >= 6,
        b.subrange(0, 6) != qr_magic(),
    ensures
        parse_qr_record(b) == Err::<(u8, Seq<char>, Seq<u8>), DecodingError>(DecodingError::Header),
{
}

} // verus!
