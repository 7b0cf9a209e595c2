//! Row types of the relational store. Timestamps are unix milliseconds;
//! the transport layer converts to and from textual dates.

use vstd::prelude::*;

verus! {

/// Bit set in `User::roles` marking a server administrator.
pub const ROLE_ADMIN: i64 = 1;

/// User record. `fingerprint` is stable across key rotations;
/// `public_key` mirrors the current head of the rotation chain.
pub struct User {
    pub id: String,
    pub public_key: Vec<u8>,
    pub fingerprint: String,
    pub display_name: String,
    pub roles: i64,
    pub is_owner: bool,
    pub totp_secret_encrypted: Option<Vec<u8>>,
    pub totp_enrolled: bool,
    pub created_at: i64,
    pub updated_at: i64,
}

/// Encrypted identity blob for server-side recovery, opaque to the server.
pub struct IdentityBlobRow {
    pub fingerprint: String,
    pub encrypted_blob: Vec<u8>,
    pub created_at: i64,
    pub updated_at: i64,
}

/// Key rotation record: genesis or rotation.
pub struct RotationRecordRow {
    pub id: String,
    pub fingerprint: String,
    pub record_type: String,
    pub prev_key: Option<Vec<u8>>,
    pub new_key: Vec<u8>,
    pub reason: Option<String>,
    pub signature_old: Option<Vec<u8>>,
    pub signature_new: Vec<u8>,
    pub cancellation_deadline: Option<i64>,
    pub cancelled: bool,
    pub created_at: i64,
}

/// Refresh token record; only the SHA-256 hash of the token is kept.
pub struct RefreshTokenRow {
    pub id: String,
    pub user_id: String,
    pub token_hash: String,
    pub device_info: Option<String>,
    pub expires_at: i64,
    pub created_at: i64,
}

/// Server settings key-value pair.
pub struct ServerSetting {
    pub key: String,
    pub value: String,
}

/// One-shot authentication challenge, held in memory only.
pub struct ChallengeRow {
    pub id: String,
    pub challenge_bytes: Vec<u8>,
    pub expires_at: i64,
}

/// Channel category: a flat grouping.
pub struct Category {
    pub id: String,
    pub name: String,
    pub position: i64,
    pub created_at: i64,
}

/// Text or voice channel within a category.
pub struct Channel {
    pub id: String,
    pub name: String,
    pub channel_type: String,
    pub category_id: String,
    pub position: i64,
    pub topic: Option<String>,
    pub max_participants: Option<i64>,
    pub created_at: i64,
}

/// Role with bitwise permission flags.
pub struct Role {
    pub id: String,
    pub name: String,
    pub permissions: u32,
    pub color: Option<String>,
    pub position: i64,
    pub is_default: bool,
    pub created_at: i64,
    pub updated_at: i64,
}

/// Assignment of a role to a user.
pub struct UserRole {
    pub user_id: String,
    pub role_id: String,
    pub assigned_at: i64,
}

/// Ban record, keyed by fingerprint so bans survive key rotation.
pub struct Ban {
    pub id: String,
    pub fingerprint: String,
    pub banned_by: String,
    pub reason: Option<String>,
    pub expires_at: Option<i64>,
    pub created_at: i64,
}

/// Invite code with optional expiry and use limit.
pub struct Invite {
    pub code: String,
    pub created_by: String,
    pub max_uses: Option<i64>,
    pub use_count: i64,
    pub expires_at: Option<i64>,
    pub created_at: i64,
}

/// Channel message with the server-assigned per-channel sequence.
pub struct Message {
    pub id: i64,
    pub channel_id: String,
    pub sender_pubkey: String,
    pub message_type: i32,
    pub payload: Option<Vec<u8>>,
    pub timestamp: i64,
    pub sequence_hint: i64,
    pub server_sequence: i64,
    pub signature: Vec<u8>,
    pub created_at: i64,
    pub content_text: Option<String>,
    pub edited: bool,
    pub edit_timestamp: Option<i64>,
    pub deleted: bool,
    pub reply_to_id: Option<String>,
}

/// Emoji reaction on a message; the triple is unique.
pub struct Reaction {
    pub id: i64,
    pub message_id: i64,
    pub user_pubkey: String,
    pub emoji: String,
    pub created_at: i64,
}

/// Per-user per-channel read position.
pub struct LastRead {
    pub user_id: String,
    pub channel_id: String,
    pub last_sequence: i64,
    pub updated_at: i64,
}

/// X25519 public key published for DM key exchange.
pub struct DmPublicKey {
    pub ed25519_pubkey: String,
    pub x25519_pubkey: Vec<u8>,
    pub published_at: i64,
    pub updated_at: i64,
}

/// One-to-one DM conversation; participants are stored in lexicographic
/// order so the pair is unique regardless of who opened it.
pub struct DmConversation {
    pub id: String,
    pub participant_a: String,
    pub participant_b: String,
    pub created_at: i64,
    pub last_message_at: Option<i64>,
}

/// Encrypted DM message; the server stores the ciphertext untouched.
pub struct DmMessage {
    pub id: String,
    pub conversation_id: String,
    pub sender_pubkey: String,
    pub encrypted_payload: Vec<u8>,
    pub nonce: Vec<u8>,
    pub ephemeral_pubkey: Option<Vec<u8>>,
    pub timestamp: i64,
    pub server_sequence: i64,
    pub sender_display_name: Option<String>,
    pub created_at: i64,
}

/// Offline delivery queue entry for a DM.
pub struct DmOfflineQueueEntry {
    pub id: i64,
    pub recipient_pubkey: String,
    pub dm_message_id: String,
    pub queued_at: i64,
    pub delivered: bool,
}

/// Content-addressed block metadata; the encrypted bytes live beside it.
pub struct BlockRow {
    pub hash: String,
    pub size: i64,
    pub encrypted_size: i64,
    pub channel_id: Option<String>,
    pub created_at: i64,
    pub expires_at: i64,
}

} // verus!
