use std::collections::HashSet;

use matrix_exchange::{
    DeviceIdOrAllDevices, IncomingResponse, KeysQueryRequest, KeysUploadRequest, OutgoingRequest,
    OutgoingRequests, OutgoingVerificationRequest, RequestId, RoomMessageRequest,
    SignatureUploadRequest, ToDeviceRequest,
};
use matrix_exchange::requests::{
    KeysUploadResponse, RoomMessageResponse, SignatureUploadResponse, ToDeviceResponse,
    UserDevices,
};

#[test]
fn request_identity_uniqueness() {
    let mut seen: HashSet<RequestId> = HashSet::new();
    for _ in 0..100_000 {
        assert!(seen.insert(RequestId::new()));
    }
    assert_eq!(seen.len(), 100_000);
}

#[test]
fn uuid_string_shape() {
    let id = RequestId::new();
    let s = id.to_uuid_string();
    assert_eq!(s.len(), 36);
    let bytes = s.as_bytes();
    for (i, b) in bytes.iter().enumerate() {
        if i == 8 || i == 13 || i == 18 || i == 23 {
            assert_eq!(*b, b'-');
        } else {
            assert!(b.is_ascii_hexdigit() && !b.is_ascii_uppercase());
        }
    }
    // Version and variant bits of the classic random layout.
    assert_eq!(bytes[14], b'4');
    assert!(matches!(bytes[19], b'8' | b'9' | b'a' | b'b'));
    // Equal identifiers render equally; the rendering is injective enough to
    // tell two fresh ones apart.
    assert_eq!(s, id.to_uuid_string());
    assert_ne!(s, RequestId::new().to_uuid_string());
}

#[test]
fn to_device_request_fields() {
    let req = ToDeviceRequest::new(
        "@alice:example.org".to_string(),
        DeviceIdOrAllDevices::DeviceId("DEVICEID".to_string()),
        "m.key.verification.request".to_string(),
        "{\"from_device\":\"ABCD\"}".to_string(),
    );
    assert_eq!(req.event_type, "m.key.verification.request");
    assert_eq!(req.message_count(), 1);
    assert_eq!(req.messages[0].user_id, "@alice:example.org");
    assert_eq!(
        req.messages[0].device,
        DeviceIdOrAllDevices::DeviceId("DEVICEID".to_string())
    );
    assert_eq!(req.messages[0].content, "{\"from_device\":\"ABCD\"}");
    assert_eq!(req.txn_id_string(), req.txn_id.to_uuid_string());
}

#[test]
fn keys_query_request_defaults() {
    let req = KeysQueryRequest::new(vec![UserDevices {
        user_id: "@bob:example.org".to_string(),
        device_ids: vec![],
    }]);
    assert!(req.timeout_ms.is_none());
    assert!(req.token.is_none());
    assert_eq!(req.device_keys.len(), 1);
    assert_eq!(req.device_keys[0].user_id, "@bob:example.org");
}

#[test]
fn unified_request_conversions() {
    let td = ToDeviceRequest::new(
        "@alice:example.org".to_string(),
        DeviceIdOrAllDevices::AllDevices,
        "m.room_key_request".to_string(),
        "{}".to_string(),
    );
    let unified: OutgoingRequests = td.clone().into();
    let view = unified.to_device().unwrap();
    assert_eq!(view.message_count(), 1);
    assert_eq!(view.txn_id_string(), td.txn_id_string());

    let query: OutgoingRequests = KeysQueryRequest::new(vec![]).into();
    assert!(query.to_device().is_none());

    let upload: OutgoingRequests = KeysUploadRequest { body: "{}".to_string() }.into();
    assert!(matches!(upload, OutgoingRequests::KeysUpload(_)));

    let sig: OutgoingRequests = SignatureUploadRequest { body: "{}".to_string() }.into();
    assert!(matches!(sig, OutgoingRequests::SignatureUpload(_)));

    let room: OutgoingRequests = RoomMessageRequest {
        room_id: "!room:example.org".to_string(),
        txn_id: RequestId::new(),
        content: "{}".to_string(),
    }
    .into();
    assert!(matches!(room, OutgoingRequests::RoomMessage(_)));
}

#[test]
fn verification_request_keeps_transaction_id() {
    let td = ToDeviceRequest::new(
        "@alice:example.org".to_string(),
        DeviceIdOrAllDevices::AllDevices,
        "m.key.verification.start".to_string(),
        "{}".to_string(),
    );
    let txn_id = td.txn_id;
    let verification: OutgoingVerificationRequest = td.into();
    assert_eq!(verification.request_id(), txn_id);

    let envelope: OutgoingRequest = verification.into();
    assert_eq!(*envelope.request_id(), txn_id);
    assert!(matches!(envelope.request(), OutgoingRequests::ToDeviceRequest(_)));

    let room = RoomMessageRequest {
        room_id: "!room:example.org".to_string(),
        txn_id: RequestId::new(),
        content: "{}".to_string(),
    };
    let room_txn = room.txn_id;
    let verification: OutgoingVerificationRequest = room.into();
    assert_eq!(verification.request_id(), room_txn);
    let envelope: OutgoingRequest = verification.into();
    assert_eq!(*envelope.request_id(), room_txn);
    assert!(matches!(envelope.request(), OutgoingRequests::RoomMessage(_)));
}

#[test]
fn signature_upload_gets_fresh_id() {
    let a = OutgoingRequest::from_signature_upload(SignatureUploadRequest {
        body: "{}".to_string(),
    });
    let b = OutgoingRequest::from_signature_upload(SignatureUploadRequest {
        body: "{}".to_string(),
    });
    assert!(matches!(a.request(), OutgoingRequests::SignatureUpload(_)));
    assert_ne!(a.request_id(), b.request_id());
}

#[test]
fn incoming_response_conversions() {
    let upload = KeysUploadResponse { one_time_key_counts: vec![("signed_curve25519".to_string(), 50)] };
    assert!(matches!(IncomingResponse::from(&upload), IncomingResponse::KeysUpload(_)));

    let to_device = ToDeviceResponse {};
    assert!(matches!(IncomingResponse::from(&to_device), IncomingResponse::ToDevice(_)));

    let sig = SignatureUploadResponse { body: "{}".to_string() };
    assert!(matches!(IncomingResponse::from(&sig), IncomingResponse::SignatureUpload(_)));

    let room = RoomMessageResponse { event_id: "$event:example.org".to_string() };
    match IncomingResponse::from(&room) {
        IncomingResponse::RoomMessage(r) => assert_eq!(r.event_id, "$event:example.org"),
        _ => panic!("wrong variant"),
    }
}

#[test]
fn new_request_correlation_ids() {
    let td = ToDeviceRequest::new(
        "@alice:example.org".to_string(),
        DeviceIdOrAllDevices::AllDevices,
        "m.key.verification.key".to_string(),
        "{}".to_string(),
    );
    let txn_id = td.txn_id;
    let envelope = OutgoingRequest::new(OutgoingRequests::ToDeviceRequest(td));
    assert_eq!(*envelope.request_id(), txn_id);

    let room = RoomMessageRequest {
        room_id: "!room:example.org".to_string(),
        txn_id: RequestId::new(),
        content: "{}".to_string(),
    };
    let room_txn = room.txn_id;
    let envelope = OutgoingRequest::new(OutgoingRequests::RoomMessage(room));
    assert_eq!(*envelope.request_id(), room_txn);

    let a = OutgoingRequest::new(OutgoingRequests::KeysQuery(KeysQueryRequest::new(vec![])));
    let b = OutgoingRequest::new(OutgoingRequests::KeysQuery(KeysQueryRequest::new(vec![])));
    assert_ne!(a.request_id(), b.request_id());
}
