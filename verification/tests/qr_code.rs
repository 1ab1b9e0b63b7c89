use matrix_exchange::{
    base_64_encode, from_bytes, qr_code::select_decoded, qr_code::to_qr_code, to_bytes,
    DecodingError, EncodingError, ScanError,
};

#[test]
fn to_bytes_exact_layout() {
    let k1 = base_64_encode(b"key one");
    let k2 = base_64_encode(b"key two");
    let secret = base_64_encode(b"a shared secret!");
    let data = to_bytes(0, "$flow", &k1, &k2, &secret).unwrap();

    let mut expected: Vec<u8> = Vec::new();
    expected.extend_from_slice(b"MATRIX");
    expected.push(2); // format version
    expected.push(0); // mode
    expected.extend_from_slice(&[0, 5]); // flow id length, big-endian
    expected.extend_from_slice(b"$flow");
    expected.extend_from_slice(b"key one");
    expected.extend_from_slice(b"key two");
    expected.extend_from_slice(b"a shared secret!");
    assert_eq!(data, expected);
}

#[test]
fn verification_round_trip_all_modes() {
    let k1 = base_64_encode(b"first");
    let k2 = base_64_encode(b"second");
    let secret = base_64_encode(b"secretsecret");
    for mode in [0u8, 1, 2] {
        let data = to_bytes(mode, "$event_id:localhost", &k1, &k2, &secret).unwrap();
        let rec = from_bytes(&data).unwrap();
        assert_eq!(rec.mode, mode);
        assert_eq!(rec.flow_id, "$event_id:localhost");
        assert_eq!(rec.remainder, b"firstsecondsecretsecret".to_vec());
    }
}

#[test]
fn flow_id_length_limit() {
    let k = base_64_encode(b"k");
    let long = "x".repeat(65536);
    let r = to_bytes(0, &long, &k, &k, &k);
    assert!(matches!(r, Err(EncodingError::FlowIdTooLong)));

    let just_fits = "x".repeat(65535);
    let data = to_bytes(0, &just_fits, &k, &k, &k).unwrap();
    let rec = from_bytes(&data).unwrap();
    assert_eq!(rec.flow_id, just_fits);
}

#[test]
fn invalid_base64_key_rejected() {
    let good = base_64_encode(b"k");
    assert!(matches!(to_bytes(0, "f", "!!!", &good, &good), Err(EncodingError::Base64)));
    assert!(matches!(to_bytes(0, "f", &good, "!!!", &good), Err(EncodingError::Base64)));
    assert!(matches!(to_bytes(0, "f", &good, &good, "!!!"), Err(EncodingError::Base64)));
}

#[test]
fn bad_header_rejected() {
    let k = base_64_encode(b"key");
    let mut data = to_bytes(1, "$flow", &k, &k, &k).unwrap();
    data[0] = b'X';
    assert_eq!(from_bytes(&data).unwrap_err(), DecodingError::Header);

    // Structurally fine otherwise, but the tag is wrong.
    let mut other = data.clone();
    other[0] = b'N';
    assert_eq!(from_bytes(&other).unwrap_err(), DecodingError::Header);
}

#[test]
fn version_and_mode_gating() {
    let k = base_64_encode(b"key");
    let good = to_bytes(1, "$flow", &k, &k, &k).unwrap();

    let mut wrong_version = good.clone();
    wrong_version[6] = 1;
    assert_eq!(from_bytes(&wrong_version).unwrap_err(), DecodingError::UnsupportedVersion);

    let mut wrong_mode = good.clone();
    wrong_mode[7] = 3;
    assert_eq!(from_bytes(&wrong_mode).unwrap_err(), DecodingError::UnknownMode);
}

#[test]
fn truncated_record_rejected() {
    assert_eq!(from_bytes(b"MATR").unwrap_err(), DecodingError::Truncated);
    assert_eq!(from_bytes(b"MATRIX").unwrap_err(), DecodingError::Truncated);
    // Flow id length says 5 bytes but none follow.
    assert_eq!(from_bytes(&[b'M', b'A', b'T', b'R', b'I', b'X', 2, 0, 0, 5]).unwrap_err(),
        DecodingError::Truncated);
}

#[test]
fn scan_policy_accepts_first_tagged_payload() {
    let tagged = b"MATRIX\x02\x00rest".to_vec();
    let untagged = b"something else".to_vec();

    let r = select_decoded(vec![Ok(untagged.clone()), Err(ScanError::DataEcc), Ok(tagged.clone())]);
    assert_eq!(r.unwrap(), tagged);

    let r = select_decoded(vec![Err(ScanError::DataEcc), Ok(tagged.clone()), Ok(untagged.clone())]);
    assert_eq!(r.unwrap(), tagged);
}

#[test]
fn scan_policy_reports_most_recent_error_when_all_fail() {
    let r = select_decoded(vec![Err(ScanError::FormatEcc), Err(ScanError::DataEcc)]);
    assert_eq!(r.unwrap_err(), DecodingError::Scan(ScanError::DataEcc));

    let r = select_decoded(vec![Err(ScanError::DataEcc)]);
    assert_eq!(r.unwrap_err(), DecodingError::Scan(ScanError::DataEcc));
}

#[test]
fn scan_policy_header_error_when_a_region_decoded_untagged() {
    // A tag-less successful decode means the frame held a readable barcode
    // without the tag: a header error, whatever else failed around it.
    let untagged = b"other".to_vec();
    let r = select_decoded(vec![Err(ScanError::DataEcc), Ok(untagged.clone())]);
    assert_eq!(r.unwrap_err(), DecodingError::Header);

    let r = select_decoded(vec![
        Err(ScanError::FormatEcc),
        Ok(untagged.clone()),
        Err(ScanError::DataEcc),
    ]);
    assert_eq!(r.unwrap_err(), DecodingError::Header);

    let r = select_decoded(vec![Ok(untagged.clone()), Err(ScanError::DataEcc)]);
    assert_eq!(r.unwrap_err(), DecodingError::Header);
}

#[test]
fn scan_policy_header_error_without_failures() {
    assert_eq!(select_decoded(vec![]).unwrap_err(), DecodingError::Header);
    let r = select_decoded(vec![Ok(b"untagged".to_vec()), Ok(b"also untagged".to_vec())]);
    assert_eq!(r.unwrap_err(), DecodingError::Header);
}

#[test]
fn barcode_generation_and_capacity() {
    let k = base_64_encode(&[7u8; 32]);
    let secret = base_64_encode(&[9u8; 32]);
    assert!(to_qr_code(0, "$flow:example.org", &k, &k, &secret).is_ok());

    // Far beyond the largest barcode capacity.
    let huge = base_64_encode(&vec![1u8; 8192]);
    let r = to_qr_code(0, "$flow", &k, &k, &huge);
    assert!(matches!(r, Err(EncodingError::Qr(_))));
}

#[test]
fn non_utf8_flow_id_rejected() {
    let data = [b'M', b'A', b'T', b'R', b'I', b'X', 2, 0, 0, 2, 0xff, 0xfe, 1, 2, 3];
    assert_eq!(from_bytes(&data).unwrap_err(), DecodingError::InvalidUtf8);
}
