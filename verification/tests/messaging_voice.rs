//! Channel messaging, invites, voice, presence, permissions, gossip and
//! direct messages, driven through the public operations.

use base64::Engine;
use ed25519_dalek::{Signer, SigningKey};
use hmac::KeyInit;
use hmac::Mac;
use sha2::Digest;
use united_server::admin::{
    get_server_info, maybe_generate_setup_token, update_server_settings, UpdateSettingsRequest,
};
use united_server::chat::{
    add_reaction, create_message, delete_message, edit_message, get_channel_messages,
    get_last_read, get_reactions, next_sequence, parse_role_mentions, parse_user_mentions,
    remove_reaction, update_last_read, CreateMessageRequest, EditMessageRequest, HistoryQuery,
};
use united_server::dm::{
    ack_offline_messages, create_conversation, get_dm_messages, get_offline_messages,
    publish_dm_key, get_dm_key, send_dm_message, AckOfflineRequest, DmHistoryQuery, DmRouting,
    SendDmRequest,
};
use united_server::errors::ApiError;
use united_server::gossip::{
    canonical_bytes, extract_channel_id, handle_gossip_message, sign_envelope, verify_envelope,
    GossipEnvelope,
};
use united_server::identity::{register, RegisterApiRequest};
use united_server::invites::{
    consume_invite, create_invite, delete_invite, generate_code, invite_valid,
};
use united_server::perms::{compute_user_permissions, Permissions, PERM_ADMIN, PERM_ALL};
use united_server::presence::{ConnectionRegistry, PresenceMap, PresenceStatus};
use united_server::roles::{assign_role, create_role, delete_role, remove_role,
    require_permission, update_role, AssignRoleRequest, CreateRoleRequest, RemoveRoleRequest,
    UpdateRoleRequest};
use united_server::state::ServerDb;
use united_server::channels::{gossipsub_topic, next_position};
use united_server::voice::{
    generate_turn_credentials, get_ice_servers, VoiceParticipantInfo, VoiceState,
};

fn keypair(seed: u8) -> SigningKey {
    SigningKey::from_bytes(&[seed; 32])
}

fn register_named(db: &mut ServerDb, seed: u8, name: &str, token: Option<String>, now: i64) -> String {
    let key = keypair(seed);
    let vk = key.verifying_key();
    let digest: Vec<u8> = sha2::Sha256::digest(vk.as_bytes()).to_vec();
    let req = RegisterApiRequest {
        public_key: hex::encode(vk.as_bytes()),
        fingerprint: hex::encode(&digest[..20]),
        display_name: name.to_string(),
        encrypted_blob: hex::encode(b"blob"),
        setup_token: token,
        invite_code: None,
        genesis_signature: hex::encode(key.sign(b"genesis").to_bytes()),
    };
    register(db, &req, "open", now).unwrap().user_id
}

#[test]
fn message_fan_out_sequencing_and_history() {
    let mut db = ServerDb::new();
    let token = maybe_generate_setup_token(&mut db).unwrap();
    let owner = register_named(&mut db, 1, "Owner", Some(token), 100);
    let cid = db.channels[0].id.clone();

    assert_eq!(next_sequence(&db, &cid), 1);
    let m1 = create_message(
        &mut db,
        &owner,
        &cid,
        &CreateMessageRequest { content: "  first  ".to_string(), reply_to_id: None },
        200,
    )
    .unwrap();
    // content is stored trimmed
    assert_eq!(m1.content, "first");
    let m2 = create_message(
        &mut db,
        &owner,
        &cid,
        &CreateMessageRequest { content: "second".to_string(), reply_to_id: None },
        300,
    )
    .unwrap();
    assert_eq!(m1.server_sequence, 1);
    assert_eq!(m2.server_sequence, 2);

    let hist = get_channel_messages(&db, &cid, &HistoryQuery { before: None, limit: Some(10) });
    assert_eq!(hist.messages.len(), 2);
    assert_eq!(hist.messages[0].server_sequence, 2);
    assert_eq!(hist.messages[1].server_sequence, 1);
    assert!(!hist.has_more);

    // paging below the oldest sequence returns the empty list
    let empty = get_channel_messages(&db, &cid, &HistoryQuery { before: Some(1), limit: Some(10) });
    assert_eq!(empty.messages.len(), 0);

    // blank and oversized content are rejected
    assert_eq!(
        create_message(
            &mut db,
            &owner,
            &cid,
            &CreateMessageRequest { content: "   ".to_string(), reply_to_id: None },
            400,
        )
        .unwrap_err(),
        ApiError::BadRequest
    );
    let long = "x".repeat(4001);
    assert_eq!(
        create_message(
            &mut db,
            &owner,
            &cid,
            &CreateMessageRequest { content: long, reply_to_id: None },
            500,
        )
        .unwrap_err(),
        ApiError::PayloadTooLarge
    );
}

#[test]
fn edit_delete_reactions_and_last_read() {
    let mut db = ServerDb::new();
    let token = maybe_generate_setup_token(&mut db).unwrap();
    let owner = register_named(&mut db, 2, "Owner", Some(token), 100);
    let other = register_named(&mut db, 3, "Other", None, 150);
    let cid = db.channels[0].id.clone();

    let m = create_message(
        &mut db,
        &owner,
        &cid,
        &CreateMessageRequest { content: "hello".to_string(), reply_to_id: None },
        200,
    )
    .unwrap();

    // only the sender may edit
    assert_eq!(
        edit_message(
            &mut db,
            &other,
            &cid,
            m.id,
            &EditMessageRequest { content: "hacked".to_string() },
            300,
        )
        .unwrap_err(),
        ApiError::Forbidden
    );
    edit_message(
        &mut db,
        &owner,
        &cid,
        m.id,
        &EditMessageRequest { content: "hello again".to_string() },
        300,
    )
    .unwrap();

    // reactions: idempotent insert, removal requires ownership
    add_reaction(&mut db, &m.sender_pubkey, m.id, "star", 400).unwrap();
    add_reaction(&mut db, &m.sender_pubkey, m.id, "star", 450).unwrap();
    assert_eq!(db.reactions.len(), 1);
    add_reaction(&mut db, "pk-other", m.id, "star", 460).unwrap();
    add_reaction(&mut db, "pk-other", m.id, "wave", 470).unwrap();
    let groups = get_reactions(&db, m.id);
    assert_eq!(groups.len(), 2);
    assert_eq!(groups[0].emoji, "star");
    assert_eq!(groups[0].count, 2);
    assert_eq!(groups[1].emoji, "wave");
    assert_eq!(groups[1].count, 1);
    remove_reaction(&mut db, "pk-other", m.id, "star").unwrap();
    remove_reaction(&mut db, "pk-other", m.id, "wave").unwrap();
    assert_eq!(remove_reaction(&mut db, "someone-else", m.id, "star").unwrap_err(), ApiError::NotFound);
    remove_reaction(&mut db, &m.sender_pubkey, m.id, "star").unwrap();
    assert_eq!(db.reactions.len(), 0);

    // last-read upsert
    update_last_read(&mut db, &owner, &cid, 2, 500);
    assert_eq!(get_last_read(&db, &owner, &cid).last_sequence, 2);
    update_last_read(&mut db, &owner, &cid, 5, 600);
    assert_eq!(get_last_read(&db, &owner, &cid).last_sequence, 5);
    assert_eq!(get_last_read(&db, &other, &cid).last_sequence, 0);

    // a deleted message is a tombstone hidden from history
    delete_message(&mut db, &owner, false, true, &cid, m.id).unwrap();
    let hist = get_channel_messages(&db, &cid, &HistoryQuery { before: None, limit: None });
    assert_eq!(hist.messages.len(), 0);
    assert_eq!(db.messages.len(), 1);
}

#[test]
fn mentions_are_parsed_from_tokens() {
    let users = parse_user_mentions("hi @user:abc and @user:def tail");
    assert_eq!(users, vec!["abc".to_string(), "def".to_string()]);
    let roles = parse_role_mentions("ping @role:mods now");
    assert_eq!(roles, vec!["mods".to_string()]);
    assert!(parse_user_mentions("no mentions here").is_empty());
}

#[test]
fn invite_max_uses_and_expiry() {
    let mut db = ServerDb::new();
    let code = generate_code();
    assert_eq!(code.len(), 8);
    assert!(code.chars().all(|c| c.is_ascii_alphanumeric()));

    create_invite(&mut db, "FIRSTUSE".to_string(), "creator", Some(1), None, 100).unwrap();
    assert!(invite_valid(&db, "FIRSTUSE", 150));
    consume_invite(&mut db, "FIRSTUSE", 200).unwrap();
    // max_uses = 1: the second consumption fails
    assert_eq!(consume_invite(&mut db, "FIRSTUSE", 300).unwrap_err(), ApiError::BadRequest);

    create_invite(&mut db, "EXPIRED1".to_string(), "creator", None, Some(500), 100).unwrap();
    assert_eq!(consume_invite(&mut db, "EXPIRED1", 600).unwrap_err(), ApiError::BadRequest);

    // duplicate codes are refused; deletion removes the invite
    assert_eq!(
        create_invite(&mut db, "FIRSTUSE".to_string(), "creator", None, None, 700).unwrap_err(),
        ApiError::Conflict
    );
    delete_invite(&mut db, "FIRSTUSE");
    assert!(!invite_valid(&db, "FIRSTUSE", 800));
}

#[test]
fn invite_race_honors_max_uses() {
    // five racing consumers against max_uses = 3: exactly three succeed
    let mut db = ServerDb::new();
    create_invite(&mut db, "RACECODE".to_string(), "creator", Some(3), None, 100).unwrap();
    let mut successes = 0;
    for _ in 0..5 {
        if consume_invite(&mut db, "RACECODE", 200).is_ok() {
            successes += 1;
        }
    }
    assert_eq!(successes, 3);
}

#[test]
fn voice_soft_cap_and_membership() {
    let mut voice = VoiceState::new();
    for i in 0..8 {
        let p = VoiceParticipantInfo {
            user_id: format!("user-{}", i),
            display_name: format!("User {}", i),
            pubkey: format!("pk-{}", i),
            muted: false,
            deafened: false,
        };
        let r = voice.join_channel("room", p, None).unwrap();
        assert!(!r.quality_warning);
        assert_eq!(r.existing_participants.len(), i);
    }
    // the ninth joiner sees the quality warning
    let ninth = VoiceParticipantInfo {
        user_id: "user-8".to_string(),
        display_name: "User 8".to_string(),
        pubkey: "pk-8".to_string(),
        muted: false,
        deafened: false,
    };
    let r = voice.join_channel("room", ninth, None).unwrap();
    assert!(r.quality_warning);
    assert_eq!(r.existing_participants.len(), 8);

    // a hard cap turns the next join away
    let tenth = VoiceParticipantInfo {
        user_id: "user-9".to_string(),
        display_name: "User 9".to_string(),
        pubkey: "pk-9".to_string(),
        muted: false,
        deafened: false,
    };
    assert!(voice.join_channel("room", tenth, Some(9)).is_err());

    voice.leave_channel("room", "user-0");
    assert_eq!(voice.get_participants("room").len(), 8);
    let left = voice.leave_all_channels("user-1");
    assert_eq!(left.len(), 1);
}

#[test]
fn turn_credentials_match_independent_derivation() {
    let (username, credential) = generate_turn_credentials("1700000", "alice", "topsecret");
    assert_eq!(username, "1700000:alice");
    let mut mac = hmac::Hmac::<sha1::Sha1>::new_from_slice(b"topsecret").unwrap();
    mac.update(username.as_bytes());
    let expected =
        base64::engine::general_purpose::STANDARD.encode(mac.finalize().into_bytes());
    assert_eq!(credential, expected);

    let servers = get_ice_servers(true, "topsecret", vec!["turn:relay:3478".to_string()], "99", "bob");
    assert_eq!(servers.len(), 2);
    assert_eq!(servers[1].username, "99:bob");
    let stun_only = get_ice_servers(false, "", vec![], "99", "bob");
    assert_eq!(stun_only.len(), 1);
}

#[test]
fn presence_transitions_follow_socket_counts() {
    let mut reg = ConnectionRegistry::new();
    assert!(reg.register_connection("alice"));
    assert!(!reg.register_connection("alice"));
    assert!(!reg.unregister_connection("alice"));
    assert!(reg.unregister_connection("alice"));
    // a user with no sockets going away is a no-op
    assert!(!reg.unregister_connection("alice"));

    let mut presence = PresenceMap::new();
    presence.set("pk1", "Alice", PresenceStatus::Online);
    presence.set("pk1", "Alice", PresenceStatus::Away);
    assert_eq!(presence.all().len(), 1);
    assert_eq!(PresenceStatus::from_str("online"), Some(PresenceStatus::Online));
    assert_eq!(PresenceStatus::from_str("gone"), None);
    assert_eq!(PresenceStatus::Dnd.as_str(), "dnd");
    assert_eq!(PresenceStatus::Offline.as_proto_i32(), 4);
}

#[test]
fn permissions_resolution_and_role_checks() {
    assert_eq!(compute_user_permissions(true, &vec![]).bits, PERM_ALL);
    assert_eq!(compute_user_permissions(false, &vec![1, 4]).bits, 5);
    // the admin bit implies everything
    assert_eq!(compute_user_permissions(false, &vec![PERM_ADMIN]).bits, PERM_ALL);

    let mut db = ServerDb::new();
    let user = register_named(&mut db, 4, "Member", None, 100);
    // the default role grants send only
    assert!(require_permission(&db, &user, false, Permissions { bits: 1 }).is_ok());
    assert!(require_permission(&db, &user, false, Permissions { bits: 8 }).is_err());
    // the owner bypasses
    assert!(require_permission(&db, &user, true, Permissions { bits: PERM_ALL }).is_ok());

    // an assigned role with the ban bit unlocks it
    let role = create_role(
        &mut db,
        &CreateRoleRequest { name: "Mod".to_string(), permissions: 8, color: None },
        200,
    )
    .unwrap();
    assign_role(&mut db, &AssignRoleRequest { user_id: user.clone(), role_id: role.id.clone() }, 300)
        .unwrap();
    assert!(require_permission(&db, &user, false, Permissions { bits: 8 }).is_ok());

    // updating the role's bits takes effect immediately
    update_role(
        &mut db,
        &role.id,
        &UpdateRoleRequest { name: Some("Moderator".to_string()), permissions: Some(12), color: None },
        400,
    )
    .unwrap();
    assert!(require_permission(&db, &user, false, Permissions { bits: 4 }).is_ok());
    assert!(require_permission(&db, &user, false, Permissions { bits: 8 }).is_ok());

    // removing the assignment takes it away again
    remove_role(&mut db, &RemoveRoleRequest { user_id: user.clone(), role_id: role.id.clone() })
        .unwrap();
    assert!(require_permission(&db, &user, false, Permissions { bits: 8 }).is_err());

    // deleting the role drops it and its assignments; the default role stays protected
    assign_role(&mut db, &AssignRoleRequest { user_id: user.clone(), role_id: role.id.clone() }, 500)
        .unwrap();
    delete_role(&mut db, &role.id).unwrap();
    assert_eq!(delete_role(&mut db, &role.id).unwrap_err(), ApiError::NotFound);
    let everyone = db.roles[0].id.clone();
    assert!(db.roles[0].is_default);
    assert_eq!(delete_role(&mut db, &everyone).unwrap_err(), ApiError::BadRequest);
}

#[test]
fn gossip_envelope_round_trip_and_ingest() {
    let seed = vec![5u8; 32];
    let signer = SigningKey::from_bytes(&[5u8; 32]);
    let pubkey = signer.verifying_key().to_bytes().to_vec();

    let env = sign_envelope(&seed, &pubkey, "abcd1234/chan-9", 1, 1111, 7, b"payload".to_vec());
    assert!(verify_envelope(&env).is_ok());

    // tampering breaks the signature
    let tampered = GossipEnvelope {
        sender_pubkey: env.sender_pubkey.clone(),
        signature: env.signature.clone(),
        topic: env.topic.clone(),
        message_type: env.message_type,
        timestamp: env.timestamp,
        sequence_hint: env.sequence_hint,
        payload: b"other".to_vec(),
    };
    assert!(verify_envelope(&tampered).is_err());

    assert_eq!(extract_channel_id("abcd1234/chan-9").unwrap(), "chan-9");
    assert!(extract_channel_id("nochannel").is_err());
    assert!(extract_channel_id("trailing/").is_err());

    // a verified envelope lands under the channel's next sequence
    let mut db = ServerDb::new();
    let seq = handle_gossip_message(&mut db, &env, 2000).unwrap();
    assert_eq!(seq, 1);
    assert_eq!(db.messages[0].channel_id, "chan-9");
    let seq2 = handle_gossip_message(&mut db, &env, 2100).unwrap();
    assert_eq!(seq2, 2);

    // the canonical bytes are the big-endian concatenation of fields
    let canon = canonical_bytes("t", 1, 2, 3, &vec![9]);
    assert_eq!(
        canon,
        vec![b't', 0, 0, 0, 1, 0, 0, 0, 0, 0, 0, 0, 2, 0, 0, 0, 0, 0, 0, 0, 3, 9]
    );

    // the gossip topic is the peer id prefix and the channel id
    assert_eq!(gossipsub_topic("0123456789abcdefXYZ", "chan"), "0123456789abcdef/chan");
    assert_eq!(gossipsub_topic("short", "chan"), "short/chan");
    assert_eq!(next_position(2000), 3000);
}

#[test]
fn dm_conversations_normalize_and_route() {
    let mut db = ServerDb::new();
    register_named(&mut db, 6, "A", None, 100);
    register_named(&mut db, 7, "B", None, 150);
    let pk_a = hex::encode(keypair(6).verifying_key().as_bytes());
    let pk_b = hex::encode(keypair(7).verifying_key().as_bytes());

    let (conv, created) = create_conversation(&mut db, &pk_a, &pk_b, 200).unwrap();
    assert!(created);
    assert!(conv.participant_a_pubkey < conv.participant_b_pubkey);

    // the same pair from the other side reuses the conversation
    let (conv2, created2) = create_conversation(&mut db, &pk_b, &pk_a, 300).unwrap();
    assert!(!created2);
    assert_eq!(conv.id, conv2.id);

    // self-conversations are rejected
    assert_eq!(create_conversation(&mut db, &pk_a, &pk_a, 400).unwrap_err(), ApiError::BadRequest);

    // sends store the ciphertext untouched and route by liveness
    let req = SendDmRequest {
        conversation_id: conv.id.clone(),
        encrypted_payload: vec![1, 2, 3],
        nonce: vec![9; 24],
        ephemeral_pubkey: None,
        timestamp: 500,
    };
    let (resp, routing) = send_dm_message(&mut db, &pk_a, &req, false, 500).unwrap();
    assert_eq!(routing, DmRouting::Queued);
    assert_eq!(resp.server_sequence, 1);
    assert_eq!(db.dm_messages[0].encrypted_payload, vec![1, 2, 3]);
    assert_eq!(db.dm_offline_queue.len(), 1);

    let (resp2, routing2) = send_dm_message(&mut db, &pk_b, &req, true, 600).unwrap();
    assert_eq!(routing2, DmRouting::DeliveredLive);
    assert_eq!(resp2.server_sequence, 2);
    assert_eq!(db.dm_offline_queue.len(), 1);

    // a stranger cannot post into the conversation
    assert_eq!(
        send_dm_message(&mut db, "outsider", &req, true, 700).unwrap_err(),
        ApiError::Forbidden
    );

    // offline fetch marks entries delivered
    let ids = get_offline_messages(&mut db, &pk_b);
    assert_eq!(ids.len(), 1);
    assert!(db.dm_offline_queue[0].delivered);
    assert!(get_offline_messages(&mut db, &pk_b).is_empty());

    // history pages newest-first for participants only
    let hist = get_dm_messages(&db, &pk_a, &DmHistoryQuery { before: None, limit: None }, &conv.id)
        .unwrap();
    assert_eq!(hist.messages.len(), 2);
    assert_eq!(hist.messages[0].server_sequence, 2);
    assert!(!hist.has_more);
    assert_eq!(
        get_dm_messages(&db, "outsider", &DmHistoryQuery { before: None, limit: None }, &conv.id)
            .unwrap_err(),
        ApiError::Forbidden
    );

    // acknowledged entries leave the queue
    let queued_id = db.dm_offline_queue[0].dm_message_id.clone();
    ack_offline_messages(&mut db, &pk_b, &AckOfflineRequest { message_ids: vec![queued_id] });
    assert!(db.dm_offline_queue.is_empty());

    // DM key publication upserts
    publish_dm_key(&mut db, &pk_a, vec![7; 32], 800);
    publish_dm_key(&mut db, &pk_a, vec![8; 32], 900);
    assert_eq!(db.dm_public_keys.len(), 1);
    assert!(get_dm_key(&db, &pk_a).is_some());
    assert!(get_dm_key(&db, "unknown").is_none());
}

#[test]
fn server_settings_and_info() {
    let mut db = ServerDb::new();
    assert_eq!(
        update_server_settings(
            &mut db,
            false,
            false,
            &UpdateSettingsRequest { name: None, description: None, registration_mode: None },
        )
        .unwrap_err(),
        ApiError::Forbidden
    );
    update_server_settings(
        &mut db,
        true,
        false,
        &UpdateSettingsRequest {
            name: Some("Test Server".to_string()),
            description: Some("d".to_string()),
            registration_mode: Some("invite-only".to_string()),
        },
    )
    .unwrap();
    let info = get_server_info(&db, "fallback", "1.0");
    assert_eq!(info.name, "Test Server");
    assert_eq!(info.registration_mode, "invite-only");
    assert_eq!(
        update_server_settings(
            &mut db,
            true,
            false,
            &UpdateSettingsRequest {
                name: None,
                description: None,
                registration_mode: Some("weird".to_string()),
            },
        )
        .unwrap_err(),
        ApiError::BadRequest
    );
}
