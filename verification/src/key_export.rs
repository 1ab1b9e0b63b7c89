//! Key export codec: passphrase-based authenticated encryption of a
//! serialized room-key list into a portable armored text block, and its
//! inverse.
//!
//! The on-wire payload is `version (1 byte) ‖ salt (16) ‖ iv (16) ‖ rounds
//! (4, big-endian) ‖ ciphertext ‖ mac (32)`, where the MAC authenticates
//! every byte from the version through the end of the ciphertext. The
//! payload travels base64-encoded between two fixed marker lines.

use vstd::prelude::*;
use vstd::string::StringSliceAdditionalSpecFns;
use vstd::slice::{slice_subrange, slice_to_vec};
use vstd::utf8::{decode_utf8, valid_utf8};

use crate::crypto::{
    aes256_ctr_apply, aes256_ctr_keystream, derive_keys, hmac_sha256_verify,
    hmac32, kdf_of, lemma_xor_involution, random_bytes_16, xor_bytes,
};
use crate::framing::{
    all_b64_chars, b64_decode_of, b64_of, base64_decode, base_64_encode, be32_bytes, be32_value,
    lemma_be32_round_trip, push_be32, read_be32, utf8_to_string,
};

verus! {

/// The format version this codec produces and accepts.
pub const EXPORT_VERSION: u8 = 1;

/// Error representing a failure during key export or import.
#[derive(Clone, Copy, Debug, PartialEq, Eq, Structural)]
pub enum KeyExportError {
    /// The key export doesn't contain valid marker lines.
    InvalidHeaders,
    /// The key export has been encrypted with an unsupported version.
    UnsupportedVersion,
    /// The MAC of the encrypted payload is invalid.
    InvalidMac,
    /// The decrypted key export isn't valid UTF-8.
    InvalidUtf8,
    /// The key export string isn't valid base64.
    Decode,
    /// The payload is too short to contain all required fields.
    Truncated,
}

/// The cipher key: the first half of the derived key material.
pub open spec fn cipher_key_of(dk: Seq<u8>) -> Seq<u8> {
    dk.subrange(0, 32)
}

/// The authentication key: the second half of the derived key material.
pub open spec fn mac_key_of(dk: Seq<u8>) -> Seq<u8> {
    dk.subrange(32, 64)
}

/// The encrypted export payload built from a plaintext, a passphrase, a
/// round count, and the randomness drawn for salt and initial counter block.
pub open spec fn export_payload_of(
    pt: Seq<u8>,
    pass: Seq<u8>,
    rounds: u32,
    salt: Seq<u8>,
    iv: Seq<u8>,
) -> Seq<u8> {
    let dk = kdf_of(pass, salt, rounds);
    let ct = xor_bytes(pt, aes256_ctr_keystream(cipher_key_of(dk), iv, pt.len()));
    let body = seq![EXPORT_VERSION] + salt + iv + be32_bytes(rounds) + ct;
    body + hmac32(mac_key_of(dk), body)
}

/// What decrypting a decoded payload with a passphrase yields: the exact
/// result, success or typed failure, for every payload.
pub open spec fn parse_export_payload(p: Seq<u8>, pass: Seq<u8>) -> Result<Seq<u8>, KeyExportError> {
    if p.len() < 69 {
        Err(KeyExportError::Truncated)
    } else if p[0] != EXPORT_VERSION {
        Err(KeyExportError::UnsupportedVersion)
    } else {
        let salt = p.subrange(1, 17);
        let iv = p.subrange(17, 33);
        let rounds = be32_value(p.subrange(33, 37));
        let ct = p.subrange(37, p.len() - 32);
        let mac = p.subrange(p.len() - 32, p.len() as int);
        let dk = kdf_of(pass, salt, rounds);
        if mac != hmac32(mac_key_of(dk), p.subrange(0, p.len() - 32)) {
            Err(KeyExportError::InvalidMac)
        } else {
            let pt = xor_bytes(ct, aes256_ctr_keystream(cipher_key_of(dk), iv, ct.len()));
            if !valid_utf8(pt) {
                Err(KeyExportError::InvalidUtf8)
            } else {
                Ok(pt)
            }
        }
    }
}

/// The result of decrypting matches what the payload model prescribes for
/// the decoded payload `v`.
pub open spec fn decrypts_to(r: Result<String, KeyExportError>, v: Seq<u8>, pass: Seq<u8>) -> bool {
    match parse_export_payload(v, pass) {
        Ok(pt) => r matches Ok(s) && s@ == decode_utf8(pt),
        Err(e) => r == Err::<String, KeyExportError>(e),
    }
}

/// `r` is the base64 text of an export payload built from this plaintext,
/// passphrase and round count with some well-formed fresh salt and counter
/// block (16 bytes each, the counter block's top bit cleared).
pub open spec fn is_fresh_payload_b64(r: Seq<char>, pt: Seq<u8>, pass: Seq<u8>, rounds: u32) -> bool {
    exists|salt: Seq<u8>, iv: Seq<u8>|
        {
            &&& salt.len() == 16
            &&& iv.len() == 16
            &&& iv[0] < 128
            &&& r == b64_of(export_payload_of(pt, pass, rounds, salt, iv))
        }
}

/// `r` is the armored text of such a fresh export payload, and stripping the
/// armor returns exactly that payload's base64 text.
pub open spec fn is_fresh_export(r: Seq<char>, pt: Seq<u8>, pass: Seq<u8>, rounds: u32) -> bool {
    exists|salt: Seq<u8>, iv: Seq<u8>|
        {
            &&& salt.len() == 16
            &&& iv.len() == 16
            &&& iv[0] < 128
            &&& r == armor_of(b64_of(export_payload_of(pt, pass, rounds, salt, iv)))
            &&& strip_lines(r) == b64_of(export_payload_of(pt, pass, rounds, salt, iv))
        }
}

/// Encrypt a plaintext with a passphrase into the base64 text of a fresh
/// export payload (no marker lines). Salt and initial counter block are
/// drawn from the system randomness source, so two calls on the same inputs
/// differ; the counter block's top bit is cleared so the block counter
/// cannot wrap over the full plaintext length.
pub fn encrypt_helper(plaintext: &str, passphrase: &str, rounds: u32) -> (r: String)
    ensures
        all_b64_chars(r@),
        is_fresh_payload_b64(r@, plaintext.spec_bytes(), passphrase.spec_bytes(), rounds),
{
    let salt = random_bytes_16();
    let iv_raw = random_bytes_16();

    let mut iv: Vec<u8> = Vec::new();
    iv.push(iv_raw[0] & 0x7f);
    let mut i: usize = 1;
    while i < 16
        invariant
            1 <= i <= 16,
            iv_raw@.len() == 16,
            iv@.len() == i,
            iv@[0] == iv_raw@[0] & 0x7f,
            forall|j: int| 1 <= j < i ==> iv@[j] == iv_raw@[j],
        decreases 16 - i,
    {
        iv.push(iv_raw[i]);
        i += 1;
    }
    assert(iv@[0] < 128) by {
        let x = iv_raw@[0];
        assert(x & 0x7f < 128) by (bit_vector);
    }

    let dk = derive_keys(passphrase.as_bytes(), salt.as_slice(), rounds);
    let ck = slice_subrange(dk.as_slice(), 0, 32);
    let mk = slice_subrange(dk.as_slice(), 32, 64);

    let mut data = slice_to_vec(plaintext.as_bytes());
    aes256_ctr_apply(ck, iv.as_slice(), &mut data);

    let ghost dk_spec = kdf_of(passphrase.spec_bytes(), salt@, rounds);
    assert(ck@ == cipher_key_of(dk_spec));
    assert(mk@ == mac_key_of(dk_spec));

    let mut payload: Vec<u8> = Vec::new();
    payload.push(EXPORT_VERSION);
    payload.extend_from_slice(salt.as_slice());
    payload.extend_from_slice(iv.as_slice());
    push_be32(&mut payload, rounds);
    payload.extend_from_slice(data.as_slice());

    let ghost body = seq![EXPORT_VERSION] + salt@ + iv@ + be32_bytes(rounds) + data@;
    assert(payload@ =~= body);

    let mac = crate::crypto::hmac_sha256(mk, payload.as_slice());
    payload.extend_from_slice(mac.as_slice());
    assert(mac@ == hmac32(mac_key_of(dk_spec), body));
    assert(payload@ =~= body + hmac32(mac_key_of(dk_spec), body));
    assert(payload@ == export_payload_of(
        plaintext.spec_bytes(),
        passphrase.spec_bytes(),
        rounds,
        salt@,
        iv@,
    ));

    let r = base_64_encode(payload.as_slice());
    assert(r@ == b64_of(
        export_payload_of(plaintext.spec_bytes(), passphrase.spec_bytes(), rounds, salt@, iv@),
    ));
    assert(is_fresh_payload_b64(r@, plaintext.spec_bytes(), passphrase.spec_bytes(), rounds)) by {
        assert({
            &&& salt@.len() == 16
            &&& iv@.len() == 16
            &&& iv@[0] < 128
            &&& r@ == b64_of(
                export_payload_of(
                    plaintext.spec_bytes(),
                    passphrase.spec_bytes(),
                    rounds,
                    salt@,
                    iv@,
                ),
            )
        });
    }
    r
}

/// Decrypt the base64 text of an export payload (no marker lines) with a
/// passphrase. The MAC over every byte up to the end of the ciphertext is
/// checked before any decryption; what is returned for every input is pinned
/// by [`parse_export_payload`].
pub fn decrypt_helper(payload: &str, passphrase: &str) -> (r: Result<String, KeyExportError>)
    ensures
        b64_decode_of(payload@) is None ==> r == Err::<String, KeyExportError>(
            KeyExportError::Decode,
        ),
        b64_decode_of(payload@) matches Some(v) ==> decrypts_to(r, v, passphrase.spec_bytes()),
        forall|x: Seq<u8>| payload@ == b64_of(x) ==> decrypts_to(r, x, passphrase.spec_bytes()),
{
    let decoded = match base64_decode(payload) {
        Ok(d) => d,
        Err(_) => {
            return Err(KeyExportError::Decode);
        },
    };
    let n = decoded.len();
    if n < 69 {
        return Err(KeyExportError::Truncated);
    }
    if decoded[0] != EXPORT_VERSION {
        return Err(KeyExportError::UnsupportedVersion);
    }

    let salt = slice_subrange(decoded.as_slice(), 1, 17);
    let iv = slice_subrange(decoded.as_slice(), 17, 33);
    let rounds = read_be32(decoded.as_slice(), 33);

    let dk = derive_keys(passphrase.as_bytes(), salt, rounds);
    let ck = slice_subrange(dk.as_slice(), 0, 32);
    let mk = slice_subrange(dk.as_slice(), 32, 64);

    let body = slice_subrange(decoded.as_slice(), 0, n - 32);
    let mac = slice_subrange(decoded.as_slice(), n - 32, n);

    let ghost dk_spec = kdf_of(passphrase.spec_bytes(), decoded@.subrange(1, 17), rounds);
    assert(salt@ == decoded@.subrange(1, 17));
    assert(ck@ == cipher_key_of(dk_spec));
    assert(mk@ == mac_key_of(dk_spec));

    if !hmac_sha256_verify(mk, body, mac) {
        assert(mac@ != hmac32(mac_key_of(dk_spec), decoded@.subrange(0, n - 32)));
        return Err(KeyExportError::InvalidMac);
    }
    assert(mac@ == hmac32(mac_key_of(dk_spec), decoded@.subrange(0, n - 32)));

    let mut ct = slice_to_vec(slice_subrange(decoded.as_slice(), 37, n - 32));
    aes256_ctr_apply(ck, iv, &mut ct);

    match utf8_to_string(ct) {
        Some(s) => Ok(s),
        None => Err(KeyExportError::InvalidUtf8),
    }
}

/// The marker line that opens an armored export.
pub open spec fn export_header() -> Seq<char> {
    "-----BEGIN MEGOLM SESSION DATA-----"@
}

/// The marker line that closes an armored export.
pub open spec fn export_footer() -> Seq<char> {
    "-----END MEGOLM SESSION DATA-----"@
}

/// Whitespace, as trimmed from around the armored text: the Unicode
/// White_Space code points, the set `str::trim_start` and `str::trim_end`
/// remove.
pub open spec fn is_ws(c: char) -> bool {
    ('\u{0009}' <= c && c <= '\u{000d}') || c == ' ' || c == '\u{0085}' || c == '\u{00a0}' || c
        == '\u{1680}' || ('\u{2000}' <= c && c <= '\u{200a}') || c == '\u{2028}' || c
        == '\u{2029}' || c == '\u{202f}' || c == '\u{205f}' || c == '\u{3000}'
}

/// `s` begins with `p`.
pub open spec fn seq_starts_with(s: Seq<char>, p: Seq<char>) -> bool {
    p.len() <= s.len() && s.subrange(0, p.len() as int) == p
}

/// `s` ends with `p`.
pub open spec fn seq_ends_with(s: Seq<char>, p: Seq<char>) -> bool {
    p.len() <= s.len() && s.subrange(s.len() - p.len(), s.len() as int) == p
}

/// `s` without its leading whitespace.
pub open spec fn trim_front(s: Seq<char>) -> Seq<char>
    decreases s.len(),
{
    if s.len() > 0 && is_ws(s[0]) {
        trim_front(s.drop_first())
    } else {
        s
    }
}

/// `s` without its trailing whitespace.
pub open spec fn trim_back(s: Seq<char>) -> Seq<char>
    decreases s.len(),
{
    if s.len() > 0 && is_ws(s[s.len() - 1]) {
        trim_back(s.drop_last())
    } else {
        s
    }
}

/// The text carries the armor: after trimming, it begins with the opening
/// marker and ends with the closing one.
pub open spec fn has_armor(t: Seq<char>) -> bool {
    seq_starts_with(trim_front(t), export_header()) && seq_ends_with(trim_back(t), export_footer())
}

/// The index of the first line feed in `s`, or `s.len()` if there is none.
pub open spec fn first_newline(s: Seq<char>) -> int
    decreases s.len(),
{
    if s.len() == 0 {
        0
    } else if s[0] == '\n' {
        0
    } else {
        1 + first_newline(s.drop_first())
    }
}

/// The index of the first line feed is never past the end.
proof fn lemma_first_newline_le(s: Seq<char>)
    ensures
        0 <= first_newline(s) <= s.len(),
    decreases s.len(),
{
    if s.len() > 0 && s[0] != '\n' {
        lemma_first_newline_le(s.drop_first());
    }
}

/// A line without its trailing carriage return, if it has one.
pub open spec fn chomp_cr(l: Seq<char>) -> Seq<char> {
    if l.len() > 0 && l[l.len() - 1] == '\r' {
        l.drop_last()
    } else {
        l
    }
}

/// A line belongs to the payload unless it begins with one of the markers.
pub open spec fn keep_line(l: Seq<char>) -> bool {
    !(seq_starts_with(l, export_header()) || seq_starts_with(l, export_footer()))
}

/// The concatenation of all lines of `s` that do not begin with a marker:
/// the base64 payload of an armored text.
pub open spec fn strip_lines(s: Seq<char>) -> Seq<char>
    decreases s.len(),
    via strip_lines_decreases
{
    if s.len() == 0 {
        Seq::empty()
    } else {
        let n = first_newline(s);
        let line = chomp_cr(s.subrange(0, n));
        let rest = if n < s.len() {
            s.subrange(n + 1, s.len() as int)
        } else {
            Seq::empty()
        };
        (if keep_line(line) {
            line
        } else {
            Seq::empty()
        }) + strip_lines(rest)
    }
}

#[via_fn]
proof fn strip_lines_decreases(s: Seq<char>) {
    lemma_first_newline_le(s);
}

/// The armored form of a base64 payload: the payload between the two marker
/// lines, joined by line feeds.
pub open spec fn armor_of(payload: Seq<char>) -> Seq<char> {
    export_header() + seq!['\n'] + payload + seq!['\n'] + export_footer()
}

/// Round trip of the payload codec: decrypting an export payload with the
/// passphrase it was built with recovers the plaintext exactly, for every
/// plaintext that is well-formed UTF-8, every passphrase, every round count,
/// and every 16-byte salt and counter block.
pub proof fn lemma_export_round_trip(
    pt: Seq<u8>,
    pass: Seq<u8>,
    rounds: u32,
    salt: Seq<u8>,
    iv: Seq<u8>,
)
    requires
        salt.len() == 16,
        iv.len() == 16,
        valid_utf8(pt),
    ensures
        parse_export_payload(export_payload_of(pt, pass, rounds, salt, iv), pass) == Ok::<Seq<u8>, KeyExportError>(pt),
{
    let dk = kdf_of(pass, salt, rounds);
    let ks = aes256_ctr_keystream(cipher_key_of(dk), iv, pt.len());
    let ct = xor_bytes(pt, ks);
    let body = seq![EXPORT_VERSION] + salt + iv + be32_bytes(rounds) + ct;
    let mac = hmac32(mac_key_of(dk), body);
    let p = export_payload_of(pt, pass, rounds, salt, iv);

    assert(ct.len() == pt.len());
    assert(body.len() == 37 + pt.len());
    assert(p.len() == 69 + pt.len());
    assert(p[0] == EXPORT_VERSION);
    assert(p.subrange(1, 17) =~= salt);
    assert(p.subrange(17, 33) =~= iv);
    assert(p.subrange(33, 37) =~= be32_bytes(rounds));
    lemma_be32_round_trip(rounds);
    assert(p.subrange(0, p.len() - 32) =~= body);
    assert(p.subrange(p.len() - 32, p.len() as int) =~= mac);
    assert(p.subrange(37, p.len() - 32) =~= ct);
    lemma_xor_involution(pt, ks);
}

/// Round trip of the whole export codec: for every plaintext that is
/// well-formed UTF-8, every passphrase and round count, and every 16-byte
/// salt and counter block, the armored text of the resulting payload carries
/// the armor, stripping the armor returns the payload's base64 text exactly,
/// and decrypting the payload with the same passphrase recovers the
/// plaintext. The base64 text itself is related to the payload by the
/// encoder's contract, which also supplies the alphabet fact assumed here.
pub proof fn lemma_armored_export_round_trip(
    pt: Seq<u8>,
    pass: Seq<u8>,
    rounds: u32,
    salt: Seq<u8>,
    iv: Seq<u8>,
    b: Seq<char>,
)
    requires
        salt.len() == 16,
        iv.len() == 16,
        valid_utf8(pt),
        b == b64_of(export_payload_of(pt, pass, rounds, salt, iv)),
        all_b64_chars(b),
    ensures
        has_armor(armor_of(b)),
        strip_lines(armor_of(b)) == b,
        parse_export_payload(export_payload_of(pt, pass, rounds, salt, iv), pass) == Ok::<
            Seq<u8>,
            KeyExportError,
        >(pt),
{
    lemma_armor_round_trip(b);
    lemma_export_round_trip(pt, pass, rounds, salt, iv);
}

/// A payload too short for all fixed-width fields is rejected as truncated,
/// whatever it holds.
pub proof fn lemma_truncated_gate(p: Seq<u8>, pass: Seq<u8>)
    requires
        p.len() < 69,
    ensures
        parse_export_payload(p, pass) == Err::<Seq<u8>, KeyExportError>(KeyExportError::Truncated),
{
}

/// Version gating: a payload whose version byte differs from the codec's
/// current version always fails with an unsupported-version error, whatever
/// the rest of the payload holds.
pub proof fn lemma_version_gate(p: Seq<u8>, pass: Seq<u8>)
    requires
        p.len() >= 69,
        p[0] != EXPORT_VERSION,
    ensures
        parse_export_payload(p, pass) == Err::<Seq<u8>, KeyExportError>(
            KeyExportError::UnsupportedVersion,
        ),
{
}

/// Authentication gating: whenever the stored MAC is not the tag of the
/// authenticated region under the key derived from the supplied passphrase —
/// as after tampering with ciphertext or MAC, or under a passphrase whose
/// derived key differs — decryption fails with an authentication error and
/// no plaintext is produced.
pub proof fn lemma_mac_gate(p: Seq<u8>, pass: Seq<u8>)
    requires
        p.len() >= 69,
        p[0] == EXPORT_VERSION,
        p.subrange(p.len() - 32, p.len() as int) != hmac32(
            mac_key_of(
                kdf_of(pass, p.subrange(1, 17), be32_value(p.subrange(33, 37))),
            ),
            p.subrange(0, p.len() - 32),
        ),
    ensures
        parse_export_payload(p, pass) == Err::<Seq<u8>, KeyExportError>(KeyExportError::InvalidMac),
{
}

/// The first line feed of `s` is at `n` exactly when nothing before `n` is a
/// line feed and `n` is one or the end.
proof fn lemma_first_newline_at(s: Seq<char>, n: int)
    requires
        0 <= n <= s.len(),
        forall|k: int| 0 <= k < n ==> s[k] != '\n',
        n < s.len() ==> s[n] == '\n',
    ensures
        first_newline(s) == n,
    decreases s.len(),
{
    if s.len() == 0 {
    } else if s[0] == '\n' {
        assert(n == 0);
    } else {
        assert(n >= 1);
        lemma_first_newline_at(s.drop_first(), n - 1);
    }
}

/// Trimming and line filtering undo the armor exactly: an armored base64
/// payload carries the armor, and stripping it returns the payload.
pub proof fn lemma_armor_round_trip(b: Seq<char>)
    requires
        all_b64_chars(b),
    ensures
        has_armor(armor_of(b)),
        strip_lines(armor_of(b)) == b,
{
    reveal_strlit("-----BEGIN MEGOLM SESSION DATA-----");
    reveal_strlit("-----END MEGOLM SESSION DATA-----");
    let hdr = export_header();
    let ftr = export_footer();
    let a = armor_of(b);
    assert(hdr.len() == 35);
    assert(ftr.len() == 33);
    assert(a.len() == 70 + b.len());

    // The armor carries its markers: nothing to trim at either end.
    assert(a[0] == '-');
    assert(trim_front(a) == a);
    assert(a[a.len() - 1] == '-');
    assert(trim_back(a) == a);
    assert(a.subrange(0, 35) =~= hdr);
    assert(seq_starts_with(trim_front(a), hdr));
    assert(a.subrange(a.len() - 33, a.len() as int) =~= ftr);
    assert(seq_ends_with(trim_back(a), ftr));

    // First line: the opening marker, dropped by the filter.
    assert(forall|k: int| 0 <= k < 35 ==> a[k] == hdr[k]);
    assert(forall|k: int| 0 <= k < 35 ==> hdr[k] != '\n');
    assert(a[35] == '\n');
    lemma_first_newline_at(a, 35);
    let line1 = chomp_cr(a.subrange(0, 35));
    assert(hdr[34] != '\r');
    assert(line1 =~= hdr);
    assert(line1.subrange(0, 35) =~= hdr);
    assert(seq_starts_with(line1, hdr));
    let rest1 = a.subrange(36, a.len() as int);
    assert(strip_lines(a) == strip_lines(rest1));

    // Second line: the payload itself, kept. Base64 characters are never
    // line feeds, carriage returns, or the '-' the markers begin with.
    assert(rest1 =~= b + seq!['\n'] + ftr);
    assert(forall|k: int| 0 <= k < b.len() ==> rest1[k] == b[k]);
    assert(forall|k: int| 0 <= k < b.len() ==> rest1[k] != '\n');
    assert(rest1[b.len() as int] == '\n');
    lemma_first_newline_at(rest1, b.len() as int);
    let line2 = chomp_cr(rest1.subrange(0, b.len() as int));
    assert(rest1.subrange(0, b.len() as int) =~= b);
    assert(b.len() > 0 ==> b[b.len() - 1] != '\r');
    assert(line2 =~= b);
    assert(b.len() >= 35 ==> b[0] != hdr[0]);
    assert(!seq_starts_with(line2, hdr));
    assert(b.len() >= 33 ==> b[0] != ftr[0]);
    assert(!seq_starts_with(line2, ftr));
    assert(keep_line(line2));
    let rest2 = rest1.subrange(b.len() as int + 1, rest1.len() as int);
    assert(strip_lines(rest1) == b + strip_lines(rest2));

    // Third line: the closing marker, dropped, and nothing follows it.
    assert(rest2 =~= ftr);
    assert(forall|k: int| 0 <= k < 33 ==> rest2[k] != '\n');
    lemma_first_newline_at(rest2, 33);
    let line3 = chomp_cr(rest2.subrange(0, 33));
    assert(rest2.subrange(0, 33) =~= ftr);
    assert(ftr[32] != '\r');
    assert(line3 =~= ftr);
    assert(line3.subrange(0, 33) =~= ftr);
    assert(seq_starts_with(line3, ftr));
    assert(strip_lines(rest2) == strip_lines(Seq::<char>::empty()));
    assert(strip_lines(a) =~= b);
}

fn export_header_str() -> (r: &'static str)
    ensures
        r@ == export_header(),
{
    "-----BEGIN MEGOLM SESSION DATA-----"
}

fn export_footer_str() -> (r: &'static str)
    ensures
        r@ == export_footer(),
{
    "-----END MEGOLM SESSION DATA-----"
}

fn is_ws_char(c: char) -> (r: bool)
    ensures
        r == is_ws(c),
{
    ('\u{0009}' <= c && c <= '\u{000d}') || c == ' ' || c == '\u{0085}' || c == '\u{00a0}' || c
        == '\u{1680}' || ('\u{2000}' <= c && c <= '\u{200a}') || c == '\u{2028}' || c
        == '\u{2029}' || c == '\u{202f}' || c == '\u{205f}' || c == '\u{3000}'
}

/// Whether the characters of `text` from `from` to `to` begin with `marker`.
fn marker_starts_at(text: &str, from: usize, to: usize, marker: &str) -> (r: bool)
    requires
        from <= to <= text@.len(),
    ensures
        r == seq_starts_with(text@.subrange(from as int, to as int), marker@),
{
    let mlen = marker.unicode_len();
    if to - from < mlen {
        return false;
    }
    let mut k: usize = 0;
    while k < mlen
        invariant
            0 <= k <= mlen,
            mlen == marker@.len(),
            from + mlen <= to <= text@.len(),
            forall|t: int| 0 <= t < k ==> text@[from + t] == marker@[t],
        decreases mlen - k,
    {
        if text.get_char(from + k) != marker.get_char(k) {
            proof {
                let sub = text@.subrange(from as int, to as int);
                if sub.subrange(0, mlen as int) == marker@ {
                    assert(sub.subrange(0, mlen as int)[k as int] == marker@[k as int]);
                    assert(false);
                }
            }
            return false;
        }
        k += 1;
    }
    proof {
        let sub = text@.subrange(from as int, to as int);
        assert(sub.subrange(0, mlen as int) =~= marker@);
    }
    true
}

/// Whether the text carries the armor markers around it.
fn check_armor(text: &str) -> (r: bool)
    ensures
        r == has_armor(text@),
{
    let len = text.unicode_len();
    assert(text@.subrange(0, len as int) =~= text@);

    let mut lo: usize = 0;
    while lo < len && is_ws_char(text.get_char(lo))
        invariant
            0 <= lo <= len,
            len == text@.len(),
            trim_front(text@) == trim_front(text@.subrange(lo as int, len as int)),
        decreases len - lo,
    {
        proof {
            let cur = text@.subrange(lo as int, len as int);
            assert(cur[0] == text@[lo as int]);
            assert(cur.drop_first() =~= text@.subrange(lo as int + 1, len as int));
        }
        lo += 1;
    }
    proof {
        let cur = text@.subrange(lo as int, len as int);
        assert(trim_front(cur) == cur);
    }

    let mut hi: usize = len;
    while hi > 0 && is_ws_char(text.get_char(hi - 1))
        invariant
            0 <= hi <= len,
            len == text@.len(),
            trim_back(text@) == trim_back(text@.subrange(0, hi as int)),
        decreases hi,
    {
        proof {
            let cur = text@.subrange(0, hi as int);
            assert(cur[cur.len() - 1] == text@[hi - 1]);
            assert(cur.drop_last() =~= text@.subrange(0, hi as int - 1));
        }
        hi -= 1;
    }
    proof {
        let cur = text@.subrange(0, hi as int);
        assert(trim_back(cur) == cur);
    }

    let hdr = export_header_str();
    let ftr = export_footer_str();
    let starts = marker_starts_at(text, lo, len, hdr);
    assert(starts == seq_starts_with(trim_front(text@), export_header()));

    let flen = ftr.unicode_len();
    let ends: bool = if hi >= flen {
        let e = marker_starts_at(text, hi - flen, hi, ftr);
        proof {
            let tb = text@.subrange(0, hi as int);
            let tail = text@.subrange(hi as int - flen as int, hi as int);
            assert(tb.subrange(tb.len() - flen, tb.len() as int) =~= tail);
            assert(tail.subrange(0, flen as int) =~= tail);
        }
        e
    } else {
        false
    };
    assert(ends == seq_ends_with(trim_back(text@), export_footer()));
    starts && ends
}

/// The base64 payload of an armored text: every line not beginning with a
/// marker, concatenated.
fn strip_armor_lines(text: &str) -> (r: String)
    ensures
        r@ == strip_lines(text@),
{
    let len = text.unicode_len();
    let hdr = export_header_str();
    let ftr = export_footer_str();
    let mut out = String::new();
    assert(text@.subrange(0, len as int) =~= text@);
    assert(out@ + strip_lines(text@) =~= strip_lines(text@));
    let mut i: usize = 0;
    while i < len
        invariant
            0 <= i <= len,
            len == text@.len(),
            hdr@ == export_header(),
            ftr@ == export_footer(),
            strip_lines(text@) == out@ + strip_lines(text@.subrange(i as int, len as int)),
        decreases len - i,
    {
        let ghost suf = text@.subrange(i as int, len as int);

        let mut j: usize = i;
        while j < len && text.get_char(j) != '\n'
            invariant
                i <= j <= len,
                len == text@.len(),
                forall|t: int| i <= t < j ==> text@[t] != '\n',
            decreases len - j,
        {
            j += 1;
        }
        proof {
            assert(forall|k: int| 0 <= k < j - i ==> suf[k] == text@[i + k]);
            lemma_first_newline_at(suf, j as int - i as int);
        }

        let line_end: usize = if j > i && text.get_char(j - 1) == '\r' {
            j - 1
        } else {
            j
        };
        let ghost n = j as int - i as int;
        let ghost line = suf.subrange(0, n);
        let ghost cline = chomp_cr(line);
        proof {
            assert(line =~= text@.subrange(i as int, j as int));
            if line_end < j {
                assert(line[line.len() - 1] == text@[j - 1]);
                assert(cline =~= text@.subrange(i as int, line_end as int));
            } else {
                assert(cline =~= text@.subrange(i as int, line_end as int));
            }
        }

        let keep = !(marker_starts_at(text, i, line_end, hdr) || marker_starts_at(
            text,
            i,
            line_end,
            ftr,
        ));
        assert(keep == keep_line(cline));
        if keep {
            out.append(text.substring_char(i, line_end));
        }

        let ghost out_mid = out@;
        let next: usize = if j < len {
            j + 1
        } else {
            len
        };
        proof {
            let rest = if n < suf.len() {
                suf.subrange(n + 1, suf.len() as int)
            } else {
                Seq::<char>::empty()
            };
            assert(strip_lines(suf) == (if keep_line(cline) {
                cline
            } else {
                Seq::<char>::empty()
            }) + strip_lines(rest));
            assert(rest =~= text@.subrange(next as int, len as int));
        }
        i = next;
    }
    assert(text@.subrange(len as int, len as int) =~= Seq::<char>::empty());
    out
}

/// Encrypt a serialized room-key list with a passphrase into armored export
/// text: the base64 of a fresh payload between the two marker lines. Fresh
/// randomness is drawn for salt and counter block on every call, so the
/// result is never deterministic in its inputs.
pub fn encrypt_key_export(keys: &str, passphrase: &str, rounds: u32) -> (r: String)
    ensures
        has_armor(r@),
        is_fresh_export(r@, keys.spec_bytes(), passphrase.spec_bytes(), rounds),
{
    let body = encrypt_helper(keys, passphrase, rounds);
    let mut out = export_header_str().to_owned();
    out.append("\n");
    out.append(body.as_str());
    out.append("\n");
    out.append(export_footer_str());
    proof {
        reveal_strlit("\n");
        assert(out@ =~= armor_of(body@));
        lemma_armor_round_trip(body@);
        let (salt, iv) = choose|salt: Seq<u8>, iv: Seq<u8>|
            {
                &&& salt.len() == 16
                &&& iv.len() == 16
                &&& iv[0] < 128
                &&& body@ == b64_of(
                    export_payload_of(keys.spec_bytes(), passphrase.spec_bytes(), rounds, salt, iv),
                )
            };
        assert({
            &&& salt.len() == 16
            &&& iv.len() == 16
            &&& iv[0] < 128
            &&& out@ == armor_of(
                b64_of(
                    export_payload_of(keys.spec_bytes(), passphrase.spec_bytes(), rounds, salt, iv),
                ),
            )
            &&& strip_lines(out@) == b64_of(
                export_payload_of(keys.spec_bytes(), passphrase.spec_bytes(), rounds, salt, iv),
            )
        });
        assert(is_fresh_export(out@, keys.spec_bytes(), passphrase.spec_bytes(), rounds));
    }
    out
}

/// Decrypt an armored key export with a passphrase into the serialized
/// room-key list. Fails with `InvalidHeaders` when the marker lines are
/// missing, `Decode` when the payload between them is not base64,
/// `Truncated`/`UnsupportedVersion` on a malformed or alien payload,
/// `InvalidMac` when authentication fails (checked before any decryption),
/// and `InvalidUtf8` when the decrypted bytes are not text.
pub fn decrypt_key_export(text: &str, passphrase: &str) -> (r: Result<String, KeyExportError>)
    ensures
        !has_armor(text@) ==> r == Err::<String, KeyExportError>(KeyExportError::InvalidHeaders),
        has_armor(text@) ==> {
            let payload = strip_lines(text@);
            &&& (b64_decode_of(payload) is None ==> r == Err::<String, KeyExportError>(
                KeyExportError::Decode,
            ))
            &&& (b64_decode_of(payload) matches Some(v) ==> decrypts_to(
                r,
                v,
                passphrase.spec_bytes(),
            ))
            &&& forall|x: Seq<u8>|
                payload == b64_of(x) ==> decrypts_to(r, x, passphrase.spec_bytes())
        },
{
    if !check_armor(text) {
        return Err(KeyExportError::InvalidHeaders);
    }
    let payload = strip_armor_lines(text);
    decrypt_helper(payload.as_str(), passphrase)
}

} // verus!
