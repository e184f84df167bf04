//! The records exchanged between the desktop client, its front end and the
//! relay, with their mathematical models.
use vstd::prelude::*;

use crate::codec::opt_text;

verus! {

/// What the client knows of its own registration.
pub struct RemoteSyncConfig {
    pub endpoint: Option<String>,
    pub device_id: Option<String>,
    pub server_device_id: Option<String>,
    pub label: Option<String>,
    pub account_uin: Option<String>,
    pub key_version: Option<i32>,
    pub registered: bool,
}

/// The outcome of registering this device with the relay.
pub struct RemoteDeviceRegistration {
    pub endpoint: String,
    pub device_id: String,
    pub server_device_id: String,
    pub account_uin: String,
    pub key_version: i32,
    pub created_at: String,
}

/// A pairing code issued by the relay for another device to claim.
pub struct RemotePairingInvitation {
    pub pairing_id: String,
    pub code: String,
    pub expires_at: String,
    pub initiator_device_id: String,
    pub initiator_public_key: String,
}

/// A pairing between two devices, as the client presents it.
pub struct RemotePairing {
    pub pairing_id: String,
    pub initiator_device_id: String,
    pub initiator_public_key: Option<String>,
    pub claimant_device_id: Option<String>,
    pub claimant_public_key: Option<String>,
    pub status: String,
    pub expires_at: String,
    pub created_at: String,
    pub accepted_at: Option<String>,
}

/// One end-to-end encrypted record change.
pub struct RemoteEncryptedChange {
    pub record_id: String,
    pub operation: String,
    pub revision: i64,
    pub key_version: i32,
    pub sender_key_version: i32,
    pub target_uin: String,
    pub source_uin: Option<String>,
    pub ciphertext_b64: String,
    pub nonce_b64: String,
    pub aad_b64: Option<String>,
    pub payload_digest: String,
    pub changed_at: i64,
    pub deleted_at: Option<i64>,
}

/// The model of [`RemoteEncryptedChange`].
pub struct ChangeView {
    pub record_id: Seq<char>,
    pub operation: Seq<char>,
    pub revision: i64,
    pub key_version: i32,
    pub sender_key_version: i32,
    pub target_uin: Seq<char>,
    pub source_uin: Option<Seq<char>>,
    pub ciphertext_b64: Seq<char>,
    pub nonce_b64: Seq<char>,
    pub aad_b64: Option<Seq<char>>,
    pub payload_digest: Seq<char>,
    pub changed_at: i64,
    pub deleted_at: Option<i64>,
}

impl View for RemoteEncryptedChange {
    type V = ChangeView;

    open spec fn view(&self) -> ChangeView {
        ChangeView {
            record_id: self.record_id@,
            operation: self.operation@,
            revision: self.revision,
            key_version: self.key_version,
            sender_key_version: self.sender_key_version,
            target_uin: self.target_uin@,
            source_uin: opt_text(self.source_uin),
            ciphertext_b64: self.ciphertext_b64@,
            nonce_b64: self.nonce_b64@,
            aad_b64: opt_text(self.aad_b64),
            payload_digest: self.payload_digest@,
            changed_at: self.changed_at,
            deleted_at: self.deleted_at,
        }
    }
}

/// A position in a pairing's change stream.
pub struct RemoteSyncCursor {
    pub stream_id: String,
    pub position: String,
    pub issued_at: i64,
}

/// A change the relay refused because it already holds a newer or a
/// different version of the record.
pub struct RemoteSyncConflict {
    pub record_id: String,
    pub local_revision: i64,
    pub remote_revision: i64,
    pub local_digest: String,
    pub remote_digest: String,
}

/// The relay's answer to an upload.
pub struct RemotePushResponse {
    pub accepted: usize,
    pub rejected: usize,
    pub next_cursor: RemoteSyncCursor,
    pub conflicts: Vec<RemoteSyncConflict>,
}

/// The relay's answer to a download.
pub struct RemotePullResponse {
    pub changes: Vec<RemoteEncryptedChange>,
    pub next_cursor: RemoteSyncCursor,
    pub has_more: bool,
}

/// A record to encrypt for a peer account. `payload` holds the JSON text of
/// the record.
pub struct EncryptRemotePayloadRequest {
    pub target_uin: String,
    pub peer_public_key: String,
    pub target_key_version: i32,
    pub sender_key_version: i32,
    pub record_id: String,
    pub operation: String,
    pub revision: i64,
    pub payload: Vec<u8>,
    pub deleted_at: Option<i64>,
}

/// The model of [`EncryptRemotePayloadRequest`].
pub struct EncryptRequestView {
    pub target_uin: Seq<char>,
    pub peer_public_key: Seq<char>,
    pub target_key_version: i32,
    pub sender_key_version: i32,
    pub record_id: Seq<char>,
    pub operation: Seq<char>,
    pub revision: i64,
    pub payload: Seq<u8>,
    pub deleted_at: Option<i64>,
}

impl View for EncryptRemotePayloadRequest {
    type V = EncryptRequestView;

    open spec fn view(&self) -> EncryptRequestView {
        EncryptRequestView {
            target_uin: self.target_uin@,
            peer_public_key: self.peer_public_key@,
            target_key_version: self.target_key_version,
            sender_key_version: self.sender_key_version,
            record_id: self.record_id@,
            operation: self.operation@,
            revision: self.revision,
            payload: self.payload@,
            deleted_at: self.deleted_at,
        }
    }
}

/// A received change to decrypt; `source_uin`, when not blank, names the
/// sending account in place of the one the change carries.
pub struct DecryptRemotePayloadRequest {
    pub source_uin: String,
    pub change: RemoteEncryptedChange,
}

/// What an evidence package carries that the batch encryption reads: the
/// package number when it is a JSON string, and the JSON texts of the other
/// package fields that go into every record, where present.
pub struct RecoveryPackageFields {
    pub package_id: Option<String>,
    pub schema_version: Option<Vec<u8>>,
    pub exporter_uin: Option<Vec<u8>>,
    pub target_uin: Option<Vec<u8>>,
    pub created_at: Option<Vec<u8>>,
}

/// One observation of an evidence package: its stable event key when that is
/// a JSON string, and its JSON text.
pub struct RecoveryObservation {
    pub event_key: Option<String>,
    pub json: Vec<u8>,
}

/// A batch of evidence observations to encrypt for a peer account.
pub struct EncryptRemoteBatchRequest {
    pub target_uin: String,
    pub peer_public_key: String,
    pub target_key_version: i32,
    pub sender_key_version: i32,
    pub package: RecoveryPackageFields,
    pub observations: Vec<RecoveryObservation>,
}

/// A published public key of an account.
pub struct RemoteAccountPublicKey {
    pub key_version: i32,
    pub public_key: String,
    pub device_id: String,
    pub label: Option<String>,
    pub registered_at: String,
}

} // verus!
