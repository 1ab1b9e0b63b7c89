//! Secure-exchange core of an end-to-end-encrypted messaging client.
//!
//! Three components: a passphrase-based key export codec producing armored
//! text, a compact binary codec for device-verification payloads (carried as
//! 2-D barcodes), and the typed envelope that correlates outgoing network
//! requests with their responses.

pub mod crypto;
pub mod framing;
pub mod key_export;
pub mod qr_code;
pub mod requests;

pub use framing::base64_decode;
pub use framing::base_64_encode;
pub use key_export::decrypt_helper;
pub use key_export::decrypt_key_export;
pub use key_export::encrypt_helper;
pub use key_export::encrypt_key_export;
pub use key_export::KeyExportError;
pub use qr_code::from_bytes;
pub use qr_code::to_bytes;
pub use qr_code::DecodingError;
pub use qr_code::EncodingError;
pub use qr_code::ScanError;
pub use qr_code::VerificationRecord;
pub use requests::DeviceIdOrAllDevices;
pub use requests::IncomingResponse;
pub use requests::KeysQueryRequest;
pub use requests::KeysUploadRequest;
pub use requests::OutgoingRequest;
pub use requests::OutgoingRequests;
pub use requests::OutgoingVerificationRequest;
pub use requests::RequestId;
pub use requests::RoomMessageRequest;
pub use requests::SignatureUploadRequest;
pub use requests::ToDeviceRequest;
pub use requests::UploadSigningKeysRequest;
