//! Outgoing request / incoming response correlator: the typed envelope and
//! identity scheme that lets the surrounding client match an asynchronously
//! delivered network response to the operation that triggered it, and that
//! unifies the request kinds behind one dispatch surface.
//!
//! The correlator performs no network work itself: the client keeps the
//! mapping from request id to pending state and resolves it when the
//! transport call for that exact request completes. Payload bodies produced
//! by the external crypto engine are carried here as opaque serialized text.

use vstd::prelude::*;

use crate::crypto::random_bytes_16;

verus! {

/// The 128-bit identifier that correlates one outgoing request with its
/// response. Drawn from the system randomness source at construction, with
/// the version and variant bits of the classic random-identifier layout set,
/// so uniqueness follows from its width rather than from shared state.
#[derive(Clone, Copy, Debug, PartialEq, Eq, Hash, PartialOrd, Ord, Structural)]
pub struct RequestId {
    value: u128,
}

/// The lower-case hexadecimal character for a value below 16.
pub open spec fn hex_char(n: u8) -> char {
    "0123456789abcdef"@[n as int]
}

/// The two lower-case hexadecimal characters of one byte.
pub open spec fn hex_pair(b: u8) -> Seq<char> {
    seq![hex_char(b >> 4), hex_char(b & 0x0f)]
}

/// The lower-case hexadecimal form of a byte sequence.
pub open spec fn hex_of(s: Seq<u8>) -> Seq<char>
    decreases s.len(),
{
    if s.len() == 0 {
        Seq::empty()
    } else {
        hex_pair(s[0]) + hex_of(s.drop_first())
    }
}

/// The sixteen bytes of a 128-bit identifier, most significant first.
pub open spec fn bytes16_of(v: u128) -> Seq<u8> {
    Seq::new(16, |i: int| (v >> (((15 - i) * 8) as u32)) as u8)
}

/// The canonical hyphenated text form of a 128-bit identifier: the classic
/// 8-4-4-4-12 grouping of its thirty-two hexadecimal digits.
pub open spec fn uuid_str_of(v: u128) -> Seq<char> {
    let b = bytes16_of(v);
    hex_of(b.subrange(0, 4)) + seq!['-'] + hex_of(b.subrange(4, 6)) + seq!['-'] + hex_of(
        b.subrange(6, 8),
    ) + seq!['-'] + hex_of(b.subrange(8, 10)) + seq!['-'] + hex_of(b.subrange(10, 16))
}

/// Append the lower-case hexadecimal form of `data` to `out`.
fn hex_append(out: &mut String, data: &[u8])
    ensures
        final(out)@ == old(out)@ + hex_of(data@),
{
    let alphabet = "0123456789abcdef";
    proof {
        reveal_strlit("0123456789abcdef");
    }
    let ghost base = out@;
    let len = data.len();
    assert(data@.skip(0) =~= data@);
    let mut i: usize = 0;
    while i < len
        invariant
            0 <= i <= len,
            len == data@.len(),
            alphabet@ == "0123456789abcdef"@,
            alphabet.is_ascii(),
            alphabet@.len() == 16,
            base + hex_of(data@) =~= out@ + hex_of(data@.skip(i as int)),
        decreases len - i,
    {
        let b = data[i];
        let hi = (b >> 4) as usize;
        let lo = (b & 0x0f) as usize;
        assert((b >> 4) < 16 && (b & 0x0f) < 16) by (bit_vector);
        out.append(alphabet.substring_ascii(hi, hi + 1));
        out.append(alphabet.substring_ascii(lo, lo + 1));
        proof {
            let suf = data@.skip(i as int);
            assert(suf[0] == data@[i as int]);
            assert(suf.drop_first() =~= data@.skip(i as int + 1));
            assert(alphabet@.subrange(hi as int, hi as int + 1) =~= seq![hex_char(b >> 4)]);
            assert(alphabet@.subrange(lo as int, lo as int + 1) =~= seq![hex_char(b & 0x0f)]);
            assert(hex_of(suf) == hex_pair(data@[i as int]) + hex_of(suf.drop_first()));
            assert(base + hex_of(data@) =~= out@ + hex_of(data@.skip(i as int + 1)));
        }
        i += 1;
    }
    assert(data@.skip(len as int) =~= Seq::<u8>::empty());
    assert(final(out)@ =~= base + hex_of(data@));
}

impl RequestId {
    /// The identifier's 128-bit value.
    pub closed spec fn spec_value(&self) -> u128 {
        self.value
    }

    /// Draw a fresh identifier from the system randomness source, then set
    /// the version and variant bits of the classic random-identifier layout.
    /// Two calls are never related: nothing ties the result to any earlier
    /// one, which is what makes it safe under concurrent generation.
    pub fn new() -> (r: RequestId)
        ensures
            (r.spec_value() >> 76) & 0xf == 4,
            (r.spec_value() >> 62) & 0x3 == 2,
    {
        let raw = random_bytes_16();
        let mut acc: u128 = 0;
        let mut i: usize = 0;
        while i < 16
            invariant
                0 <= i <= 16,
                raw@.len() == 16,
            decreases 16 - i,
        {
            acc = (acc << 8) | (raw[i] as u128);
            i += 1;
        }
        let masked = (acc & !(0xfu128 << 76)) | (0x4u128 << 76);
        let value = (masked & !(0x3u128 << 62)) | (0x2u128 << 62);
        assert((value >> 76) & 0xf == 4 && (value >> 62) & 0x3 == 2) by (bit_vector)
            requires
                masked == (acc & !(0xfu128 << 76)) | (0x4u128 << 76),
                value == (masked & !(0x3u128 << 62)) | (0x2u128 << 62),
        ;
        RequestId { value }
    }

    /// The canonical hyphenated text form of the identifier; equal
    /// identifiers give equal text.
    pub fn to_uuid_string(&self) -> (r: String)
        ensures
            r@ == uuid_str_of(self.spec_value()),
    {
        let v = self.value;
        let mut bytes: Vec<u8> = Vec::new();
        let mut i: usize = 0;
        while i < 16
            invariant
                0 <= i <= 16,
                bytes@.len() == i,
                forall|j: int| 0 <= j < i ==> bytes@[j] == bytes16_of(v)[j],
        decreases 16 - i,
        {
            let sh: u32 = ((15 - i) * 8) as u32;
            bytes.push((v >> sh) as u8);
            i += 1;
        }
        assert(bytes@ =~= bytes16_of(v));

        let mut out = String::new();
        let dash = "-";
        proof {
            reveal_strlit("-");
        }
        hex_append(&mut out, vstd::slice::slice_subrange(bytes.as_slice(), 0, 4));
        out.append(dash);
        hex_append(&mut out, vstd::slice::slice_subrange(bytes.as_slice(), 4, 6));
        out.append(dash);
        hex_append(&mut out, vstd::slice::slice_subrange(bytes.as_slice(), 6, 8));
        out.append(dash);
        hex_append(&mut out, vstd::slice::slice_subrange(bytes.as_slice(), 8, 10));
        out.append(dash);
        hex_append(&mut out, vstd::slice::slice_subrange(bytes.as_slice(), 10, 16));
        assert(out@ =~= uuid_str_of(v));
        out
    }
}

/// The target of one to-device message: a single device, or every device of
/// the user.
#[derive(Clone, Debug, PartialEq, Eq)]
pub enum DeviceIdOrAllDevices {
    /// One device, named by its id.
    DeviceId(String),
    /// Every device of the user.
    AllDevices,
}

/// The targets name the same device set.
pub open spec fn same_device(a: DeviceIdOrAllDevices, b: DeviceIdOrAllDevices) -> bool {
    match (a, b) {
        (DeviceIdOrAllDevices::DeviceId(x), DeviceIdOrAllDevices::DeviceId(y)) => x@ == y@,
        (DeviceIdOrAllDevices::AllDevices, DeviceIdOrAllDevices::AllDevices) => true,
        _ => false,
    }
}

/// One message of a to-device request: a recipient user, a target device
/// set, and the event content as opaque serialized text.
#[derive(Clone, Debug)]
pub struct TargetedMessage {
    /// The user that should receive the event.
    pub user_id: String,
    /// The device or devices of that user that should receive it.
    pub device: DeviceIdOrAllDevices,
    /// The event content, serialized by the caller; all messages of one
    /// request share the request's event type.
    pub content: String,
}

/// The messages address the same (user, device set) pair.
pub open spec fn same_target(a: TargetedMessage, b: TargetedMessage) -> bool {
    a.user_id@ == b.user_id@ && same_device(a.device, b.device)
}

/// A to-device request: an event type, the transaction id that doubles as
/// the request's correlation id, and the targeted messages.
#[derive(Clone, Debug)]
pub struct ToDeviceRequest {
    /// Type of event being sent to each device.
    pub event_type: String,
    /// A request identifier unique to the access token used to send the
    /// request.
    pub txn_id: RequestId,
    /// The messages, one per (user, device set) pair.
    pub messages: Vec<TargetedMessage>,
}

impl ToDeviceRequest {
    /// Each (user, device set) pair appears at most once.
    pub open spec fn wf(&self) -> bool {
        forall|i: int, j: int|
            0 <= i < j < self.messages@.len() ==> !same_target(
                self.messages@[i],
                self.messages@[j],
            )
    }

    /// Create a new owned to-device request addressed to one recipient, with
    /// a fresh transaction id.
    pub fn new(
        recipient: String,
        recipient_device: DeviceIdOrAllDevices,
        event_type: String,
        content: String,
    ) -> (r: ToDeviceRequest)
        ensures
            r.wf(),
            r.event_type == event_type,
            r.messages@.len() == 1,
            r.messages@[0].user_id == recipient,
            r.messages@[0].device == recipient_device,
            r.messages@[0].content == content,
    {
        let mut messages: Vec<TargetedMessage> = Vec::new();
        messages.push(TargetedMessage { user_id: recipient, device: recipient_device, content });
        ToDeviceRequest { event_type, txn_id: RequestId::new(), messages }
    }

    /// The transaction id as its canonical hyphenated text.
    pub fn txn_id_string(&self) -> (r: String)
        ensures
            r@ == uuid_str_of(self.txn_id.spec_value()),
    {
        self.txn_id.to_uuid_string()
    }

    /// The number of unique messages this request contains: one per (user,
    /// device set) pair. A message to all devices of a user still counts
    /// once.
    pub fn message_count(&self) -> (r: usize)
        ensures
            r == self.messages@.len(),
    {
        self.messages.len()
    }
}

/// The devices of one user whose keys a query asks for; an empty list asks
/// for all of them.
#[derive(Clone, Debug)]
pub struct UserDevices {
    /// The user whose keys are queried.
    pub user_id: String,
    /// The device ids to query; empty for all devices of the user.
    pub device_ids: Vec<String>,
}

/// A request for the device and cross-signing keys of other users.
#[derive(Clone, Debug)]
pub struct KeysQueryRequest {
    /// How long the server may wait for remote answers, in milliseconds.
    pub timeout_ms: Option<u64>,
    /// The keys to be downloaded, per user.
    pub device_keys: Vec<UserDevices>,
    /// The sync token of the device-update notification that triggered this
    /// query, if any.
    pub token: Option<String>,
}

impl KeysQueryRequest {
    /// Each queried user appears at most once, as the map-keyed form of this
    /// request guarantees.
    pub open spec fn wf(&self) -> bool {
        forall|i: int, j: int|
            0 <= i < j < self.device_keys@.len() ==> self.device_keys@[i].user_id@
                != self.device_keys@[j].user_id@
    }

    /// A query for the given users' keys, one entry per user, with no
    /// timeout and no token.
    pub fn new(device_keys: Vec<UserDevices>) -> (r: KeysQueryRequest)
        requires
            forall|i: int, j: int|
                0 <= i < j < device_keys@.len() ==> device_keys@[i].user_id@
                    != device_keys@[j].user_id@,
        ensures
            r.wf(),
            r.timeout_ms is None,
            r.device_keys == device_keys,
            r.token is None,
    {
        KeysQueryRequest { timeout_ms: None, device_keys, token: None }
    }
}

/// A request uploading device and one-time keys, as one opaque serialized
/// body produced by the external crypto engine.
#[derive(Clone, Debug)]
pub struct KeysUploadRequest {
    /// The serialized body of the upload call.
    pub body: String,
}

/// A request uploading signatures, as one opaque serialized body produced by
/// the external crypto engine.
#[derive(Clone, Debug)]
pub struct SignatureUploadRequest {
    /// The serialized body of the upload call.
    pub body: String,
}

/// A request publishing the public cross-signing identity: the key triplet,
/// each key as opaque serialized text.
#[derive(Clone, Debug)]
pub struct UploadSigningKeysRequest {
    /// The user's master key.
    pub master_key: Option<String>,
    /// The user's self-signing key, signed with the master key.
    pub self_signing_key: Option<String>,
    /// The user's user-signing key, signed with the master key.
    pub user_signing_key: Option<String>,
}

/// A request sending one event into a room; the transaction id doubles as
/// the request's correlation id.
#[derive(Clone, Debug)]
pub struct RoomMessageRequest {
    /// The room to send the event to.
    pub room_id: String,
    /// The transaction id, unique per access token; the server uses it for
    /// idempotency.
    pub txn_id: RequestId,
    /// The event content to send, serialized by the caller.
    pub content: String,
}

/// Enum over the different outgoing requests the correlator can carry.
#[derive(Clone, Debug)]
pub enum OutgoingRequests {
    /// The keys upload request, uploading device and one-time keys.
    KeysUpload(KeysUploadRequest),
    /// The keys query request, fetching the device and cross-signing keys of
    /// other users.
    KeysQuery(KeysQueryRequest),
    /// The to-device request, used for key requests and forwards and for
    /// interactive device verification.
    ToDeviceRequest(ToDeviceRequest),
    /// The signature upload request, sent after a successful device or user
    /// verification.
    SignatureUpload(SignatureUploadRequest),
    /// A room message request, usually sending in-room interactive
    /// verification events.
    RoomMessage(RoomMessageRequest),
}

impl OutgoingRequests {
    /// The to-device view of this request: a safe downcast, `None` for every
    /// other variant.
    pub fn to_device(&self) -> (r: Option<&ToDeviceRequest>)
        ensures
            match *self {
                OutgoingRequests::ToDeviceRequest(ref t) => r matches Some(x) && *x == *t,
                _ => r is None,
            },
    {
        match self {
            OutgoingRequests::ToDeviceRequest(r) => Some(r),
            _ => None,
        }
    }
}

impl vstd::std_specs::convert::FromSpecImpl<KeysUploadRequest> for OutgoingRequests {
    open spec fn obeys_from_spec() -> bool {
        true
    }

    open spec fn from_spec(r: KeysUploadRequest) -> Self {
        OutgoingRequests::KeysUpload(r)
    }
}

impl From<KeysUploadRequest> for OutgoingRequests {
    fn from(request: KeysUploadRequest) -> Self {
        OutgoingRequests::KeysUpload(request)
    }
}

impl vstd::std_specs::convert::FromSpecImpl<KeysQueryRequest> for OutgoingRequests {
    open spec fn obeys_from_spec() -> bool {
        true
    }

    open spec fn from_spec(r: KeysQueryRequest) -> Self {
        OutgoingRequests::KeysQuery(r)
    }
}

impl From<KeysQueryRequest> for OutgoingRequests {
    fn from(request: KeysQueryRequest) -> Self {
        OutgoingRequests::KeysQuery(request)
    }
}

impl vstd::std_specs::convert::FromSpecImpl<ToDeviceRequest> for OutgoingRequests {
    open spec fn obeys_from_spec() -> bool {
        true
    }

    open spec fn from_spec(r: ToDeviceRequest) -> Self {
        OutgoingRequests::ToDeviceRequest(r)
    }
}

impl From<ToDeviceRequest> for OutgoingRequests {
    fn from(request: ToDeviceRequest) -> Self {
        OutgoingRequests::ToDeviceRequest(request)
    }
}

impl vstd::std_specs::convert::FromSpecImpl<SignatureUploadRequest> for OutgoingRequests {
    open spec fn obeys_from_spec() -> bool {
        true
    }

    open spec fn from_spec(r: SignatureUploadRequest) -> Self {
        OutgoingRequests::SignatureUpload(r)
    }
}

impl From<SignatureUploadRequest> for OutgoingRequests {
    fn from(request: SignatureUploadRequest) -> Self {
        OutgoingRequests::SignatureUpload(request)
    }
}

impl vstd::std_specs::convert::FromSpecImpl<RoomMessageRequest> for OutgoingRequests {
    open spec fn obeys_from_spec() -> bool {
        true
    }

    open spec fn from_spec(r: RoomMessageRequest) -> Self {
        OutgoingRequests::RoomMessage(r)
    }
}

impl From<RoomMessageRequest> for OutgoingRequests {
    fn from(request: RoomMessageRequest) -> Self {
        OutgoingRequests::RoomMessage(request)
    }
}

/// The response notifying how many one-time keys the server now holds.
#[derive(Clone, Debug)]
pub struct KeysUploadResponse {
    /// For each key algorithm, the number of one-time keys on the server.
    pub one_time_key_counts: Vec<(String, u64)>,
}

/// The response carrying other users' device and cross-signing keys; its
/// body is read by the external key-tracking store, not here.
#[derive(Clone, Debug)]
pub struct KeysQueryResponse {
    /// The serialized response body.
    pub body: String,
}

/// The response to a to-device send: the protocol defines it empty.
#[derive(Clone, Debug)]
pub struct ToDeviceResponse {}

/// The response carrying claimed one-time keys of other users.
#[derive(Clone, Debug)]
pub struct KeysClaimResponse {
    /// The serialized response body.
    pub body: String,
}

/// The response confirming the cross-signing identity upload.
#[derive(Clone, Debug)]
pub struct SigningKeysUploadResponse {
    /// The serialized response body.
    pub body: String,
}

/// The response to a signature upload.
#[derive(Clone, Debug)]
pub struct SignatureUploadResponse {
    /// The serialized response body.
    pub body: String,
}

/// The response to an in-room message send.
#[derive(Clone, Debug)]
pub struct RoomMessageResponse {
    /// The id the server assigned to the sent event.
    pub event_id: String,
}

/// Enum over all the incoming responses the correlator discriminates: a
/// read-only, borrowed view over a response the transport produced, valid as
/// long as its owner holds the response.
#[derive(Debug)]
pub enum IncomingResponse<'a> {
    /// The keys upload response, giving the number of uploaded one-time
    /// keys.
    KeysUpload(&'a KeysUploadResponse),
    /// The keys query response, giving the device and cross-signing keys of
    /// other users.
    KeysQuery(&'a KeysQueryResponse),
    /// The to-device response, an empty response.
    ToDevice(&'a ToDeviceResponse),
    /// The key claiming response, giving fresh one-time keys of other users.
    KeysClaim(&'a KeysClaimResponse),
    /// The cross-signing keys upload response, marking the private identity
    /// as shared.
    SigningKeysUpload(&'a SigningKeysUploadResponse),
    /// The cross-signing signature upload response.
    SignatureUpload(&'a SignatureUploadResponse),
    /// A room message response, usually for interactive verification.
    RoomMessage(&'a RoomMessageResponse),
}

impl<'a> vstd::std_specs::convert::FromSpecImpl<&'a KeysUploadResponse> for IncomingResponse<'a> {
    open spec fn obeys_from_spec() -> bool {
        true
    }

    open spec fn from_spec(r: &'a KeysUploadResponse) -> Self {
        IncomingResponse::KeysUpload(r)
    }
}

impl<'a> From<&'a KeysUploadResponse> for IncomingResponse<'a> {
    fn from(response: &'a KeysUploadResponse) -> Self {
        IncomingResponse::KeysUpload(response)
    }
}

impl<'a> vstd::std_specs::convert::FromSpecImpl<&'a KeysQueryResponse> for IncomingResponse<'a> {
    open spec fn obeys_from_spec() -> bool {
        true
    }

    open spec fn from_spec(r: &'a KeysQueryResponse) -> Self {
        IncomingResponse::KeysQuery(r)
    }
}

impl<'a> From<&'a KeysQueryResponse> for IncomingResponse<'a> {
    fn from(response: &'a KeysQueryResponse) -> Self {
        IncomingResponse::KeysQuery(response)
    }
}

impl<'a> vstd::std_specs::convert::FromSpecImpl<&'a ToDeviceResponse> for IncomingResponse<'a> {
    open spec fn obeys_from_spec() -> bool {
        true
    }

    open spec fn from_spec(r: &'a ToDeviceResponse) -> Self {
        IncomingResponse::ToDevice(r)
    }
}

impl<'a> From<&'a ToDeviceResponse> for IncomingResponse<'a> {
    fn from(response: &'a ToDeviceResponse) -> Self {
        IncomingResponse::ToDevice(response)
    }
}

impl<'a> vstd::std_specs::convert::FromSpecImpl<&'a KeysClaimResponse> for IncomingResponse<'a> {
    open spec fn obeys_from_spec() -> bool {
        true
    }

    open spec fn from_spec(r: &'a KeysClaimResponse) -> Self {
        IncomingResponse::KeysClaim(r)
    }
}

impl<'a> From<&'a KeysClaimResponse> for IncomingResponse<'a> {
    fn from(response: &'a KeysClaimResponse) -> Self {
        IncomingResponse::KeysClaim(response)
    }
}

impl<'a> vstd::std_specs::convert::FromSpecImpl<&'a SignatureUploadResponse> for IncomingResponse<'a> {
    open spec fn obeys_from_spec() -> bool {
        true
    }

    open spec fn from_spec(r: &'a SignatureUploadResponse) -> Self {
        IncomingResponse::SignatureUpload(r)
    }
}

impl<'a> From<&'a SignatureUploadResponse> for IncomingResponse<'a> {
    fn from(response: &'a SignatureUploadResponse) -> Self {
        IncomingResponse::SignatureUpload(response)
    }
}

impl<'a> vstd::std_specs::convert::FromSpecImpl<&'a RoomMessageResponse> for IncomingResponse<'a> {
    open spec fn obeys_from_spec() -> bool {
        true
    }

    open spec fn from_spec(r: &'a RoomMessageResponse) -> Self {
        IncomingResponse::RoomMessage(r)
    }
}

impl<'a> From<&'a RoomMessageResponse> for IncomingResponse<'a> {
    fn from(response: &'a RoomMessageResponse) -> Self {
        IncomingResponse::RoomMessage(response)
    }
}

/// Outgoing request envelope: the unique id that a response must be matched
/// under, and the actual request.
#[derive(Clone, Debug)]
pub struct OutgoingRequest {
    /// The unique id of the request; a response satisfies the request only
    /// if the transport call that returned it was given this exact request.
    pub request_id: RequestId,
    /// The underlying outgoing request.
    pub request: OutgoingRequests,
}

impl OutgoingRequest {
    /// Get the unique id of this request.
    pub fn request_id(&self) -> (r: &RequestId)
        ensures
            *r == self.request_id,
    {
        &self.request_id
    }

    /// Get the underlying outgoing request.
    pub fn request(&self) -> (r: &OutgoingRequests)
        ensures
            *r == self.request,
    {
        &self.request
    }

    /// Wrap a request under its correlation id: a fresh unique one, except
    /// that the to-device and in-room variants keep their transaction id, so
    /// the remote party's echo can be matched by the messaging protocol too.
    pub fn new(request: OutgoingRequests) -> (res: OutgoingRequest)
        ensures
            res.request == request,
            match request {
                OutgoingRequests::ToDeviceRequest(t) => res.request_id == t.txn_id,
                OutgoingRequests::RoomMessage(m) => res.request_id == m.txn_id,
                _ => (res.request_id.spec_value() >> 76) & 0xf == 4 && (res.request_id.spec_value()
                    >> 62) & 0x3 == 2,
            },
    {
        let request_id = match &request {
            OutgoingRequests::ToDeviceRequest(t) => t.txn_id,
            OutgoingRequests::RoomMessage(m) => m.txn_id,
            _ => RequestId::new(),
        };
        OutgoingRequest { request_id, request }
    }

    /// Wrap a signature upload under a fresh unique id.
    pub fn from_signature_upload(r: SignatureUploadRequest) -> (res: OutgoingRequest)
        ensures
            res.request == OutgoingRequests::SignatureUpload(r),
            (res.request_id.spec_value() >> 76) & 0xf == 4,
            (res.request_id.spec_value() >> 62) & 0x3 == 2,
    {
        OutgoingRequest { request_id: RequestId::new(), request: OutgoingRequests::SignatureUpload(r) }
    }
}

/// An enum over the different outgoing verification-based requests.
#[derive(Clone, Debug)]
pub enum OutgoingVerificationRequest {
    /// The to-device verification request variant.
    ToDevice(ToDeviceRequest),
    /// The in-room verification request variant.
    InRoom(RoomMessageRequest),
}

impl OutgoingVerificationRequest {
    /// The transaction id of the underlying request.
    pub open spec fn spec_request_id(&self) -> RequestId {
        match *self {
            OutgoingVerificationRequest::ToDevice(ref t) => t.txn_id,
            OutgoingVerificationRequest::InRoom(ref r) => r.txn_id,
        }
    }

    /// Get the unique id of this request: the transaction id it was built
    /// with, so the remote party's echo can be matched by the messaging
    /// protocol too.
    pub fn request_id(&self) -> (r: RequestId)
        ensures
            r == self.spec_request_id(),
    {
        match self {
            OutgoingVerificationRequest::ToDevice(t) => t.txn_id,
            OutgoingVerificationRequest::InRoom(r) => r.txn_id,
        }
    }
}

impl vstd::std_specs::convert::FromSpecImpl<ToDeviceRequest> for OutgoingVerificationRequest {
    open spec fn obeys_from_spec() -> bool {
        true
    }

    open spec fn from_spec(r: ToDeviceRequest) -> Self {
        OutgoingVerificationRequest::ToDevice(r)
    }
}

impl From<ToDeviceRequest> for OutgoingVerificationRequest {
    fn from(r: ToDeviceRequest) -> Self {
        OutgoingVerificationRequest::ToDevice(r)
    }
}

impl vstd::std_specs::convert::FromSpecImpl<RoomMessageRequest> for OutgoingVerificationRequest {
    open spec fn obeys_from_spec() -> bool {
        true
    }

    open spec fn from_spec(r: RoomMessageRequest) -> Self {
        OutgoingVerificationRequest::InRoom(r)
    }
}

impl From<RoomMessageRequest> for OutgoingVerificationRequest {
    fn from(r: RoomMessageRequest) -> Self {
        OutgoingVerificationRequest::InRoom(r)
    }
}

impl vstd::std_specs::convert::FromSpecImpl<OutgoingVerificationRequest> for OutgoingRequests {
    open spec fn obeys_from_spec() -> bool {
        true
    }

    open spec fn from_spec(r: OutgoingVerificationRequest) -> Self {
        match r {
            OutgoingVerificationRequest::ToDevice(t) => OutgoingRequests::ToDeviceRequest(t),
            OutgoingVerificationRequest::InRoom(m) => OutgoingRequests::RoomMessage(m),
        }
    }
}

impl From<OutgoingVerificationRequest> for OutgoingRequests {
    fn from(request: OutgoingVerificationRequest) -> Self {
        match request {
            OutgoingVerificationRequest::ToDevice(r) => OutgoingRequests::ToDeviceRequest(r),
            OutgoingVerificationRequest::InRoom(r) => OutgoingRequests::RoomMessage(r),
        }
    }
}

impl vstd::std_specs::convert::FromSpecImpl<OutgoingVerificationRequest> for OutgoingRequest {
    open spec fn obeys_from_spec() -> bool {
        true
    }

    open spec fn from_spec(r: OutgoingVerificationRequest) -> Self {
        OutgoingRequest {
            request_id: r.spec_request_id(),
            request: <OutgoingRequests as vstd::std_specs::convert::FromSpec<
                OutgoingVerificationRequest,
            >>::from_spec(r),
        }
    }
}

impl From<OutgoingVerificationRequest> for OutgoingRequest {
    fn from(r: OutgoingVerificationRequest) -> Self {
        let request_id = r.request_id();
        OutgoingRequest { request_id, request: r.into() }
    }
}

} // verus!
