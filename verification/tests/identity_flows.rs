//! End-to-end identity flows against the in-memory store with real
//! Ed25519 keys: registration, challenge/response, refresh rotation, key
//! rotation with cancellation, and bans surviving rotation.

use ed25519_dalek::{Signer, SigningKey};
use sha2::Digest;
use united_server::auth::{
    issue_access_token, issue_challenge, issue_refresh_token, store_refresh_token,
    validate_access_token, validate_and_consume_refresh_token, verify_challenge, ChallengeStore,
    VerifyApiRequest,
};
use united_server::admin::maybe_generate_setup_token;
use united_server::errors::ApiError;
use united_server::identity::{
    cancel_rotation, get_rotation_chain, register, rotate_key, CancelRotationRequest,
    RegisterApiRequest, RotateKeyRequest,
};
use united_server::moderation::{ban_user, check_ban, unban_user, BanRequest};
use united_server::state::ServerDb;

fn keypair(seed: u8) -> SigningKey {
    SigningKey::from_bytes(&[seed; 32])
}

fn fingerprint_of(vk_bytes: &[u8]) -> String {
    // base-32 of the first 20 bytes of SHA-256 over the genesis key
    let digest = sha2::Sha256::digest(vk_bytes);
    let mut out = String::new();
    let alphabet = b"ABCDEFGHIJKLMNOPQRSTUVWXYZ234567";
    for chunk in digest[..20].chunks(5) {
        let mut acc: u64 = 0;
        for b in chunk {
            acc = (acc << 8) | *b as u64;
        }
        for i in (0..8).rev() {
            out.push(alphabet[((acc >> (5 * i)) & 31) as usize] as char);
        }
    }
    out
}

fn register_user(
    db: &mut ServerDb,
    key: &SigningKey,
    name: &str,
    setup_token: Option<String>,
    now: i64,
) -> united_server::identity::RegisterApiResponse {
    let vk = key.verifying_key();
    let req = RegisterApiRequest {
        public_key: hex::encode(vk.as_bytes()),
        fingerprint: fingerprint_of(vk.as_bytes()),
        display_name: name.to_string(),
        encrypted_blob: hex::encode(b"test-blob"),
        setup_token,
        invite_code: None,
        genesis_signature: hex::encode(key.sign(b"genesis").to_bytes()),
    };
    register(db, &req, "open", now).unwrap()
}

#[test]
fn owner_registration_and_full_auth_round_trip() {
    let mut db = ServerDb::new();
    let mut challenges = ChallengeStore::new();
    let token = maybe_generate_setup_token(&mut db).unwrap();

    let alice = keypair(7);
    let out = register_user(&mut db, &alice, "Alice", Some(token), 1000);
    assert!(out.is_owner);
    // the owning registration seeds the starter template
    assert_eq!(db.categories.len(), 2);
    assert_eq!(db.channels.len(), 3);

    // challenge -> sign -> verify
    let ch = issue_challenge(&mut challenges, 2000);
    let bytes = hex::decode(&ch.challenge_bytes).unwrap();
    let sig = alice.sign(&bytes);
    let vreq = VerifyApiRequest {
        challenge_id: ch.challenge_id,
        public_key: hex::encode(alice.verifying_key().as_bytes()),
        signature: hex::encode(sig.to_bytes()),
        fingerprint: fingerprint_of(alice.verifying_key().as_bytes()),
    };
    let ident = verify_challenge(&db, &mut challenges, &vreq, 2500).unwrap();
    assert_eq!(ident.user_id, out.user_id);
    assert!(ident.is_owner);

    // refresh rotation is single-use
    let (token, hash) = issue_refresh_token();
    store_refresh_token(&mut db, &ident.user_id, &hash, None, 3000);
    let uid = validate_and_consume_refresh_token(&mut db, &token, 3500).unwrap();
    assert_eq!(uid, ident.user_id);
    assert_eq!(
        validate_and_consume_refresh_token(&mut db, &token, 3600),
        Err(ApiError::Unauthorized)
    );
}

#[test]
fn access_tokens_round_trip_under_the_secret() {
    let secret = vec![9u8; 32];
    let now_secs = std::time::SystemTime::now()
        .duration_since(std::time::UNIX_EPOCH)
        .unwrap()
        .as_secs() as i64;
    let token = issue_access_token(&secret, "user-1", "FP1", true, false, now_secs).unwrap();
    let claims = validate_access_token(&secret, &token).expect("fresh token validates");
    assert_eq!(claims.sub, "user-1");
    assert_eq!(claims.fingerprint, "FP1");
    assert!(claims.is_owner);
    assert!(!claims.is_admin);
    assert_eq!(claims.exp, claims.iat + 900);
    // a different secret rejects the token
    assert!(validate_access_token(&vec![8u8; 32], &token).is_none());
    // an expired token is rejected
    let stale = issue_access_token(&secret, "user-1", "FP1", true, false, 1000).unwrap();
    assert!(validate_access_token(&secret, &stale).is_none());
}

#[test]
fn challenge_is_single_use_and_expires() {
    let mut db = ServerDb::new();
    let mut challenges = ChallengeStore::new();
    let alice = keypair(9);
    register_user(&mut db, &alice, "Solo", None, 100);

    let ch = issue_challenge(&mut challenges, 1000);
    let bytes = hex::decode(&ch.challenge_bytes).unwrap();
    let sig = alice.sign(&bytes);
    let vreq = VerifyApiRequest {
        challenge_id: ch.challenge_id.clone(),
        public_key: hex::encode(alice.verifying_key().as_bytes()),
        signature: hex::encode(sig.to_bytes()),
        fingerprint: fingerprint_of(alice.verifying_key().as_bytes()),
    };
    assert!(verify_challenge(&db, &mut challenges, &vreq, 2000).is_ok());
    // consumed: the same challenge id now fails
    assert_eq!(
        verify_challenge(&db, &mut challenges, &vreq, 2100).unwrap_err(),
        ApiError::BadRequest
    );

    // an expired challenge is gone
    let ch2 = issue_challenge(&mut challenges, 5000);
    let bytes2 = hex::decode(&ch2.challenge_bytes).unwrap();
    let sig2 = alice.sign(&bytes2);
    let vreq2 = VerifyApiRequest {
        challenge_id: ch2.challenge_id,
        public_key: hex::encode(alice.verifying_key().as_bytes()),
        signature: hex::encode(sig2.to_bytes()),
        fingerprint: fingerprint_of(alice.verifying_key().as_bytes()),
    };
    assert_eq!(
        verify_challenge(&db, &mut challenges, &vreq2, 5000 + 60001).unwrap_err(),
        ApiError::Gone
    );
}

#[test]
fn duplicate_fingerprint_and_name_conflict() {
    let mut db = ServerDb::new();
    let alice = keypair(11);
    register_user(&mut db, &alice, "Alice", None, 100);

    let vk = alice.verifying_key();
    let req = RegisterApiRequest {
        public_key: hex::encode(vk.as_bytes()),
        fingerprint: fingerprint_of(vk.as_bytes()),
        display_name: "Other".to_string(),
        encrypted_blob: hex::encode(b"b"),
        setup_token: None,
        invite_code: None,
        genesis_signature: hex::encode(alice.sign(b"genesis").to_bytes()),
    };
    assert_eq!(register(&mut db, &req, "open", 200).unwrap_err(), ApiError::Conflict);

    let bob = keypair(12);
    let req2 = RegisterApiRequest {
        public_key: hex::encode(bob.verifying_key().as_bytes()),
        fingerprint: fingerprint_of(bob.verifying_key().as_bytes()),
        display_name: "Alice".to_string(),
        encrypted_blob: hex::encode(b"b"),
        setup_token: None,
        invite_code: None,
        genesis_signature: hex::encode(bob.sign(b"genesis").to_bytes()),
    };
    assert_eq!(register(&mut db, &req2, "open", 300).unwrap_err(), ApiError::Conflict);
}

#[test]
fn invite_only_mode_requires_token_or_invite() {
    let mut db = ServerDb::new();
    let bob = keypair(21);
    let req = RegisterApiRequest {
        public_key: hex::encode(bob.verifying_key().as_bytes()),
        fingerprint: fingerprint_of(bob.verifying_key().as_bytes()),
        display_name: "Bob".to_string(),
        encrypted_blob: hex::encode(b"b"),
        setup_token: None,
        invite_code: None,
        genesis_signature: hex::encode(bob.sign(b"genesis").to_bytes()),
    };
    assert_eq!(
        register(&mut db, &req, "invite-only", 100).unwrap_err(),
        ApiError::Forbidden
    );
}

fn rotation_request(old_key: &SigningKey, new_key: &SigningKey, reason: &str) -> RotateKeyRequest {
    let prev = old_key.verifying_key().to_bytes().to_vec();
    let new = new_key.verifying_key().to_bytes().to_vec();
    let mut payload = Vec::new();
    payload.extend_from_slice(b"rotate:");
    payload.extend_from_slice(&prev);
    payload.extend_from_slice(b":");
    payload.extend_from_slice(&new);
    payload.extend_from_slice(b":");
    payload.extend_from_slice(reason.as_bytes());
    RotateKeyRequest {
        prev_key: hex::encode(&prev),
        new_key: hex::encode(&new),
        reason: reason.to_string(),
        signature_old: hex::encode(old_key.sign(&payload).to_bytes()),
        signature_new: hex::encode(new_key.sign(&payload).to_bytes()),
    }
}

#[test]
fn rotation_then_cancellation_restores_key_and_sessions() {
    let mut db = ServerDb::new();
    let k1 = keypair(31);
    let k2 = keypair(32);
    let out = register_user(&mut db, &k1, "RotationTestUser", None, 1000);
    let fp = fingerprint_of(k1.verifying_key().as_bytes());

    // sessions exist before the rotation
    let (_t, hash) = issue_refresh_token();
    store_refresh_token(&mut db, &out.user_id, &hash, None, 1100);
    assert_eq!(db.refresh_tokens.len(), 1);

    let req = rotation_request(&k1, &k2, "scheduled");
    let resp = rotate_key(&mut db, &out.user_id, &req, 2000).unwrap();
    assert!(resp.accepted);
    assert_eq!(resp.cancellation_deadline, 2000 + 259200000);
    // active key replaced and sessions cleared
    assert_eq!(db.users[0].public_key, k2.verifying_key().to_bytes().to_vec());
    assert_eq!(db.refresh_tokens.len(), 0);

    // a second rotation inside the window is rejected
    let req2 = rotation_request(&k2, &keypair(33), "scheduled");
    assert_eq!(rotate_key(&mut db, &out.user_id, &req2, 3000).unwrap_err(), ApiError::Conflict);

    // the chain shows genesis plus one live rotation
    let chain = get_rotation_chain(&db, &fp).unwrap();
    assert_eq!(chain.chain.len(), 2);
    assert_eq!(chain.chain[0].record_type, "genesis");
    assert_eq!(chain.chain[1].record_type, "rotation");
    assert!(!chain.chain[1].cancelled);

    // cancel, signed by the old key over "cancel_rotation:{fingerprint}"
    let mut cancel_payload = b"cancel_rotation:".to_vec();
    cancel_payload.extend_from_slice(fp.as_bytes());
    let creq = CancelRotationRequest {
        signature_old_key: hex::encode(k1.sign(&cancel_payload).to_bytes()),
    };
    let cresp = cancel_rotation(&mut db, &out.user_id, &creq, 4000).unwrap();
    assert!(cresp.cancelled);

    // key restored, chain keeps the record as cancelled
    assert_eq!(db.users[0].public_key, k1.verifying_key().to_bytes().to_vec());
    let chain2 = get_rotation_chain(&db, &fp).unwrap();
    assert_eq!(chain2.chain.len(), 2);
    assert!(chain2.chain[1].cancelled);
}

#[test]
fn rotation_rejects_bad_reason_and_wrong_prev_key() {
    let mut db = ServerDb::new();
    let k1 = keypair(41);
    let k2 = keypair(42);
    let out = register_user(&mut db, &k1, "U", None, 100);

    let mut bad = rotation_request(&k1, &k2, "scheduled");
    bad.reason = "because".to_string();
    assert_eq!(rotate_key(&mut db, &out.user_id, &bad, 200).unwrap_err(), ApiError::BadRequest);

    // prev key not matching the current key
    let wrong = rotation_request(&k2, &keypair(43), "scheduled");
    assert_eq!(rotate_key(&mut db, &out.user_id, &wrong, 300).unwrap_err(), ApiError::BadRequest);
}

#[test]
fn ban_survives_rotation() {
    let mut db = ServerDb::new();
    let admin = keypair(51);
    let target = keypair(52);
    let admin_out = register_user(&mut db, &admin, "Admin", None, 100);
    let target_out = register_user(&mut db, &target, "Target", None, 200);
    let fp = fingerprint_of(target.verifying_key().as_bytes());

    ban_user(
        &mut db,
        &admin_out.user_id,
        &BanRequest { user_id: target_out.user_id.clone(), reason: Some("spam".to_string()), expires_at: None },
        300,
    )
    .unwrap();
    assert!(check_ban(&mut db, &fp, 400).is_some());

    // the banned user rotates to a fresh key; the ban still holds
    let req = rotation_request(&target, &keypair(53), "compromise");
    rotate_key(&mut db, &target_out.user_id, &req, 500).unwrap();
    assert!(check_ban(&mut db, &fp, 600).is_some());

    unban_user(&mut db, &fp);
    assert!(check_ban(&mut db, &fp, 700).is_none());
}

#[test]
fn ban_expiry_is_lazy_and_owner_protected() {
    let mut db = ServerDb::new();
    let token = maybe_generate_setup_token(&mut db).unwrap();
    let owner = keypair(61);
    let user = keypair(62);
    let owner_out = register_user(&mut db, &owner, "Owner", Some(token), 100);
    let user_out = register_user(&mut db, &user, "TempBan", None, 200);
    let fp = fingerprint_of(user.verifying_key().as_bytes());

    // cannot ban the owner
    assert_eq!(
        ban_user(
            &mut db,
            &user_out.user_id,
            &BanRequest { user_id: owner_out.user_id.clone(), reason: None, expires_at: None },
            300,
        )
        .unwrap_err(),
        ApiError::Forbidden
    );

    ban_user(
        &mut db,
        &owner_out.user_id,
        &BanRequest { user_id: user_out.user_id.clone(), reason: None, expires_at: Some(1000) },
        300,
    )
    .unwrap();
    assert!(check_ban(&mut db, &fp, 500).is_some());
    assert!(check_ban(&mut db, &fp, 1500).is_none());
}
