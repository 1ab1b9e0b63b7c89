//! Trusted boundary to the cryptographic primitives of the export codec:
//! PBKDF2 key stretching, HMAC-SHA-256 authentication, AES-256 counter-mode
//! encryption, and the system randomness source.

use aes_ctr::cipher::{NewStreamCipher, SyncStreamCipher};
use aes_ctr::Aes256Ctr;
use hmac::{Hmac, Mac, NewMac};
use pbkdf2::pbkdf2;
use sha2::{Sha256, Sha512};
use vstd::prelude::*;

verus! {

/// The 64-byte key material that PBKDF2 with HMAC-SHA-512 derives from a
/// passphrase, a salt and a round count. A function of its arguments alone.
pub uninterp spec fn kdf_of(pass: Seq<u8>, salt: Seq<u8>, rounds: u32) -> Seq<u8>;

/// The 32-byte HMAC-SHA-256 tag of `data` under `key`. A function of its
/// arguments alone.
pub uninterp spec fn hmac_sha256_of(key: Seq<u8>, data: Seq<u8>) -> Seq<u8>;

/// The first `len` bytes of the AES-256 counter-mode keystream for the given
/// 32-byte key and 16-byte initial counter block. A function of its arguments
/// alone.
pub uninterp spec fn aes256_ctr_keystream(key: Seq<u8>, iv: Seq<u8>, len: nat) -> Seq<u8>;

/// The HMAC-SHA-256 tag, pinned to its real width of 32 bytes (the width is
/// guaranteed by the trusted wrappers but is not visible on the bare name,
/// so specifications use this form).
pub open spec fn hmac32(key: Seq<u8>, data: Seq<u8>) -> Seq<u8> {
    let t = hmac_sha256_of(key, data);
    if t.len() == 32 {
        t
    } else {
        Seq::new(32, |i: int| 0u8)
    }
}

/// `a` combined bytewise by exclusive or with `b` (which a counter-mode
/// cipher does with its keystream).
pub open spec fn xor_bytes(a: Seq<u8>, b: Seq<u8>) -> Seq<u8> {
    Seq::new(a.len(), |i: int| a[i] ^ b[i])
}

/// Applying the same mask twice by exclusive or gives the original bytes
/// back; this is why one counter-mode pass both encrypts and decrypts.
pub proof fn lemma_xor_involution(a: Seq<u8>, k: Seq<u8>)
    ensures
        xor_bytes(xor_bytes(a, k), k) == a,
{
    assert(forall|x: u8, y: u8| (x ^ y) ^ y == x) by (bit_vector);
    assert(xor_bytes(xor_bytes(a, k), k) =~= a);
}

/// Relies on `pbkdf2::pbkdf2` with `Hmac<Sha512>`: fills the output buffer
/// (here always 64 bytes) deterministically from the passphrase, salt and
/// round count.
#[verifier::external_body]
pub(crate) fn derive_keys(pass: &[u8], salt: &[u8], rounds: u32) -> (r: Vec<u8>)
    ensures
        r@ == kdf_of(pass@, salt@, rounds),
        r@.len() == 64,
{
    let mut out = vec![0u8; 64];
    pbkdf2::<Hmac<Sha512>>(pass, salt, rounds, &mut out);
    out
}

/// Relies on `Hmac::<Sha256>` of the `hmac` crate (`new_from_slice`, which
/// accepts every key length, then `update` and `finalize`): computes the
/// 32-byte HMAC-SHA-256 tag of `data` under `key`.
#[verifier::external_body]
pub(crate) fn hmac_sha256(key: &[u8], data: &[u8]) -> (r: Vec<u8>)
    ensures
        r@ == hmac_sha256_of(key@, data@),
        r@.len() == 32,
{
    let mut mac = Hmac::<Sha256>::new_from_slice(key).expect("HMAC accepts all key sizes");
    mac.update(data);
    mac.finalize().into_bytes().to_vec()
}

/// Relies on `Hmac::<Sha256>` and its `verify`, which compares the computed
/// 32-byte tag against the given one in constant time and accepts exactly
/// when they are equal.
#[verifier::external_body]
pub(crate) fn hmac_sha256_verify(key: &[u8], data: &[u8], tag: &[u8]) -> (r: bool)
    ensures
        r == (tag@ == hmac32(key@, data@)),
{
    let mut mac = Hmac::<Sha256>::new_from_slice(key).expect("HMAC accepts all key sizes");
    mac.update(data);
    mac.verify(tag).is_ok()
}

/// Relies on `Aes256Ctr` of the `aes-ctr` crate: `new_var` accepts a 32-byte
/// key with a 16-byte nonce, and `apply_keystream` combines the buffer
/// bytewise by exclusive or with the keystream determined by key and nonce.
#[verifier::external_body]
pub(crate) fn aes256_ctr_apply(key: &[u8], iv: &[u8], data: &mut Vec<u8>)
    requires
        key@.len() == 32,
        iv@.len() == 16,
    ensures
        final(data)@ == xor_bytes(old(data)@, aes256_ctr_keystream(key@, iv@, old(data)@.len())),
{
    let mut cipher = Aes256Ctr::new_var(key, iv).expect("Valid key and nonce lengths");
    cipher.apply_keystream(data.as_mut_slice());
}

/// Relies on `getrandom::getrandom`: fills the buffer from the system
/// randomness source; aborts the process if that source is unavailable,
/// because falling back to weaker randomness would be unsafe.
#[verifier::external_body]
pub(crate) fn random_bytes_16() -> (r: Vec<u8>)
    ensures
        r@.len() == 16,
{
    let mut out = vec![0u8; 16];
    getrandom::getrandom(&mut out).expect("Can't generate randomness");
    out
}

} // verus!
