use matrix_exchange::{
    base64_decode, base_64_encode, decrypt_helper, decrypt_key_export, encrypt_helper,
    encrypt_key_export, KeyExportError,
};

const PASSPHRASE: &str = "1234";

const TEST_EXPORT: &str = "-----BEGIN MEGOLM SESSION DATA-----
Af7mGhlzQ+eGvHu93u0YXd3D/+vYMs3E7gQqOhuCtkvGAAAAASH7pEdWvFyAP1JUisAcpEo
Xke2Q7Kr9hVl/SCc6jXBNeJCZcrUbUV4D/tRQIl3E9L4fOk928YI1J+3z96qiH0uE7hpsCI
CkHKwjPU+0XTzFdIk1X8H7sZ+MD/2Sg/q3y8rtUjz7uEj4GUTnb+9SCOTVmJsRfqgUpM1CU
bDLytHf1JkohY4tWEgpsCc67xdzgodjr12qYrfg/zNm3LGpxlrffJknw4rk5QFTj4kMbqbD
ZZgDTni+HxRTDGge2J620lMOiznvXX+H09Rwruqx5aJvvaaKd86jWRpiO2oSFqHn4u5ONl9
41uzm62Sj0eIm6ZbA9NQs87jQw4LxsejhZVL+NdjIg80zVSBTWhTdo0DTnbFSNP4ReOiz0U
XosOF8A5T8Vdx2nvA0GXltfcHKVKQYh/LJAkNQ7P9UYL4ae/5TtQZkhB1KxCLTRWqADCl53
uBMGpG53EMgY6G6K2DEIOkcv7sdXQF5WpemiSWZqJRWj+cjfs9BpCTbkp/rszWFl2TniWpR
RqIbT2jORlN4rTvdtF0F4z1pqP4qWyR3sLNTkXm9CFRzWADNG0RDZKxbCoo6RPvtaCTfaHo
SwfvzBS6CjfAG+FOugpV48o7+XetaUUPZ6/tZSPhCdeV8eP9q5r0QwWeXFogzoNzWt4HYx9
MdXxzD+f0mtg5gzehrrEEARwI2bCvPpHxlt/Na9oW/GBpkjwR1LSKgg4CtpRyWngPjdEKpZ
GYW19pdjg0qdXNk/eqZsQTsNWVo6A
-----END MEGOLM SESSION DATA-----
";

fn export_wihtout_headers() -> String {
    TEST_EXPORT
        .lines()
        .filter(|l| !l.starts_with("-----"))
        .collect()
}

#[test]
fn test_decode() {
    let export = export_wihtout_headers();
    assert!(base64_decode(&export).is_ok());
}

#[test]
fn test_encrypt_decrypt() {
    let data = "It's a secret to everybody";

    let encrypted = encrypt_helper(data, PASSPHRASE, 10);
    let decrypted = decrypt_helper(&encrypted, PASSPHRASE).unwrap();

    assert_eq!(data, decrypted);
}

#[test]
fn test_real_decrypt() {
    let imported = decrypt_key_export(TEST_EXPORT, PASSPHRASE).expect("Can't decrypt key export");
    assert!(!imported.is_empty())
}

#[test]
fn armored_round_trip() {
    let keys = "[{\"algorithm\":\"m.megolm.v1.aes-sha2\",\"room_id\":\"!test:localhost\"}]";
    for rounds in [1u32, 2, 10] {
        let armored = encrypt_key_export(keys, "passphrase with spaces", rounds);
        assert!(armored.starts_with("-----BEGIN MEGOLM SESSION DATA-----\n"));
        assert!(armored.ends_with("\n-----END MEGOLM SESSION DATA-----"));
        let back = decrypt_key_export(&armored, "passphrase with spaces").unwrap();
        assert_eq!(keys, back);
    }
}

#[test]
fn round_trip_with_surrounding_whitespace() {
    let keys = "[]";
    let armored = encrypt_key_export(keys, "pw", 1);
    let padded = format!("\n\n{} \n\n", armored);
    let back = decrypt_key_export(&padded, "pw").unwrap();
    assert_eq!(keys, back);
}

#[test]
fn round_trip_with_unicode_whitespace() {
    // Exotic Unicode whitespace after the closing marker is trimmed just as
    // ASCII whitespace is.
    let keys = "[]";
    let armored = encrypt_key_export(keys, "pw", 1);
    let padded = format!("{}{}", armored, "\u{00a0}\u{2028}\u{3000}");
    let back = decrypt_key_export(&padded, "pw").unwrap();
    assert_eq!(keys, back);

    let padded = format!("{}{}", armored, "\u{000b}\u{000c}\u{0085}");
    let back = decrypt_key_export(&padded, "pw").unwrap();
    assert_eq!(keys, back);
}

#[test]
fn fresh_randomness_each_export() {
    let a = encrypt_key_export("[]", "pw", 1);
    let b = encrypt_key_export("[]", "pw", 1);
    assert_ne!(a, b);
}

#[test]
fn missing_headers_rejected() {
    let r = decrypt_key_export("not an export at all", "pw");
    assert_eq!(r.unwrap_err(), KeyExportError::InvalidHeaders);

    let body = encrypt_helper("[]", "pw", 1);
    let r = decrypt_key_export(&body, "pw");
    assert_eq!(r.unwrap_err(), KeyExportError::InvalidHeaders);

    let only_header = format!("-----BEGIN MEGOLM SESSION DATA-----\n{}", body);
    let r = decrypt_key_export(&only_header, "pw");
    assert_eq!(r.unwrap_err(), KeyExportError::InvalidHeaders);
}

#[test]
fn invalid_base64_rejected() {
    let armored = "-----BEGIN MEGOLM SESSION DATA-----\n???***\n-----END MEGOLM SESSION DATA-----";
    let r = decrypt_key_export(armored, "pw");
    assert_eq!(r.unwrap_err(), KeyExportError::Decode);
}

#[test]
fn truncated_payload_rejected() {
    let short = base_64_encode(&[1u8; 68]);
    let r = decrypt_helper(&short, "pw");
    assert_eq!(r.unwrap_err(), KeyExportError::Truncated);
}

#[test]
fn version_gating() {
    let body = encrypt_helper("[]", "pw", 1);
    let mut payload = base64_decode(&body).unwrap();
    for version in [0u8, 2, 3, 255] {
        payload[0] = version;
        let r = decrypt_helper(&base_64_encode(&payload), "pw");
        assert_eq!(r.unwrap_err(), KeyExportError::UnsupportedVersion);
    }
}

#[test]
fn tamper_detection_every_byte() {
    let body = encrypt_helper("It's a secret to everybody", "test", 1);
    let payload = base64_decode(&body).unwrap();
    // Flip each byte of the ciphertext and of the MAC in turn.
    for i in 37..payload.len() {
        let mut tampered = payload.clone();
        tampered[i] ^= 0x01;
        let r = decrypt_helper(&base_64_encode(&tampered), "test");
        assert_eq!(r.unwrap_err(), KeyExportError::InvalidMac, "byte {} went unnoticed", i);
    }
}

#[test]
fn wrong_passphrase_fails_authentication() {
    let body = encrypt_helper("[]", "1234", 2);
    let r = decrypt_helper(&body, "0000");
    assert_eq!(r.unwrap_err(), KeyExportError::InvalidMac);
}

#[test]
fn one_entry_scenario() {
    let keys = "[{\"algorithm\":\"m.megolm.v1.aes-sha2\",\"session_id\":\"abc\"}]";
    let armored = encrypt_key_export(keys, "1234", 10);
    let back = decrypt_key_export(&armored, "1234").unwrap();
    assert_eq!(keys, back);
    let r = decrypt_key_export(&armored, "0000");
    assert_eq!(r.unwrap_err(), KeyExportError::InvalidMac);
}

#[test]
fn base64_codec_known_values() {
    assert_eq!(base_64_encode(&[1, 2, 3]), "AQID");
    assert_eq!(base64_decode("AQID").unwrap(), vec![1, 2, 3]);
    assert_eq!(base_64_encode(b"hello"), "aGVsbG8");
    assert_eq!(base64_decode("aGVsbG8").unwrap(), b"hello".to_vec());
    assert!(base64_decode("!!!").is_err());
}
