//! Direct messages: the server stores only ciphertext. Conversations are
//! normalized so the lexicographically smaller participant key is always
//! first, making the pair unique; sends are sequenced per conversation
//! and routed to live sockets or the offline queue.

use vstd::prelude::*;
use crate::errors::ApiError;
use crate::models::{DmPublicKey, DmConversation, DmMessage, DmOfflineQueueEntry};
use crate::state::{ServerDb, MAX_TIME_MS, MAX_SEQUENCE, dm_conversations_wf};
use crate::util::{str_eq, str_lt, seq_lt, bytes_clone, opt_bytes_clone};
use crate::trusted::new_uuid_string;

verus! {

/// Offline queue entries older than this are purged: thirty days.
pub const OFFLINE_TTL_MS: i64 = 2592000000;

pub struct CreateConversationRequest {
    pub recipient_pubkey: String,
}

#[derive(Debug)]
pub struct ConversationResponse {
    pub id: String,
    pub participant_a_pubkey: String,
    pub participant_b_pubkey: String,
    pub participant_a_display_name: String,
    pub participant_b_display_name: String,
    pub created_at: i64,
    pub last_message_at: Option<i64>,
}

pub struct PublishKeyRequest {
    pub x25519_pubkey: String,
}

#[derive(Debug)]
pub struct DmKeyResponse {
    pub ed25519_pubkey: String,
    pub x25519_pubkey: String,
    pub published_at: i64,
}

pub struct SendDmRequest {
    pub conversation_id: String,
    pub encrypted_payload: Vec<u8>,
    pub nonce: Vec<u8>,
    pub ephemeral_pubkey: Option<Vec<u8>>,
    pub timestamp: i64,
}

#[derive(Debug)]
pub struct DmMessageResponse {
    pub id: String,
    pub conversation_id: String,
    pub sender_pubkey: String,
    pub encrypted_payload: Vec<u8>,
    pub nonce: Vec<u8>,
    pub ephemeral_pubkey: Option<Vec<u8>>,
    pub timestamp: i64,
    pub server_sequence: i64,
    pub sender_display_name: String,
}

pub struct DmHistoryQuery {
    pub before: Option<i64>,
    pub limit: Option<u32>,
}

#[derive(Debug)]
pub struct DmHistoryResponse {
    pub messages: Vec<DmMessageResponse>,
    pub has_more: bool,
}

#[derive(Debug)]
pub struct OfflineDmMessage {
    pub id: String,
    pub conversation_id: String,
    pub sender_pubkey: String,
    pub encrypted_payload: Vec<u8>,
    pub nonce: Vec<u8>,
    pub ephemeral_pubkey: Option<Vec<u8>>,
    pub timestamp: i64,
    pub server_sequence: i64,
    pub sender_display_name: String,
}

pub struct AckOfflineRequest {
    pub message_ids: Vec<String>,
}

/// Where a fresh DM goes besides the conversation row: pushed to the
/// recipient's live sockets, or queued for later delivery.
#[derive(PartialEq, Eq, Structural, Clone, Copy, Debug)]
pub enum DmRouting {
    DeliveredLive,
    Queued,
}

/// Open or return the conversation between the caller and a recipient.
/// Participants are stored with the lexicographically smaller public key
/// first, so the pair is unique whichever side opens it.
pub fn create_conversation(db: &mut ServerDb, sender_pubkey: &str, recipient_pubkey: &str, now: i64) -> (r:
    Result<(ConversationResponse, bool), ApiError>)
    requires
        old(db).wf(),
    ensures
        final(db).wf(),
        r matches Err(_) ==> *final(db) == *old(db),
        sender_pubkey@ == recipient_pubkey@ ==> r == Err::<(ConversationResponse, bool), ApiError>(
            ApiError::BadRequest,
        ),
        ({
            let registered = exists|u: int|
                0 <= u < old(db).users@.len() && crate::hexcodec::hex_of(
                    (#[trigger] old(db).users@[u]).public_key@,
                ) == recipient_pubkey@;
            &&& (sender_pubkey@ != recipient_pubkey@ && !registered ==> r == Err::<
                (ConversationResponse, bool),
                ApiError,
            >(ApiError::NotFound))
            &&& (sender_pubkey@ != recipient_pubkey@ && registered ==> (r is Ok || r == Err::<
                (ConversationResponse, bool),
                ApiError,
            >(ApiError::Internal)))
        }),
        r matches Ok((out, created)) ==> {
            &&& (created <==> !(exists|i: int|
                0 <= i < old(db).dm_conversations@.len() && (#[trigger] old(db).dm_conversations@[i]).participant_a@
                    == out.participant_a_pubkey@ && old(db).dm_conversations@[i].participant_b@
                    == out.participant_b_pubkey@))
            &&& seq_lt(out.participant_a_pubkey@, out.participant_b_pubkey@)
            &&& (out.participant_a_pubkey@ == sender_pubkey@ && out.participant_b_pubkey@
                == recipient_pubkey@) || (out.participant_a_pubkey@ == recipient_pubkey@
                && out.participant_b_pubkey@ == sender_pubkey@)
            &&& exists|i: int|
                {
                    &&& 0 <= i < final(db).dm_conversations@.len()
                    &&& (#[trigger] final(db).dm_conversations@[i]).participant_a@
                        == out.participant_a_pubkey@
                    &&& final(db).dm_conversations@[i].participant_b@ == out.participant_b_pubkey@
                    &&& final(db).dm_conversations@[i].id@ == out.id@
                }
            &&& (created ==> final(db).dm_conversations@.len() == old(db).dm_conversations@.len()
                + 1)
            &&& (!created ==> *final(db) == *old(db))
        },
        final(db).users@ == old(db).users@,
        final(db).refresh_tokens@ == old(db).refresh_tokens@,
        final(db).rotation_records@ == old(db).rotation_records@,
        final(db).messages@ == old(db).messages@,
        final(db).dm_messages@ == old(db).dm_messages@,
        final(db).bans@ == old(db).bans@,
{
    let ghost db0 = *db;
    if str_eq(sender_pubkey, recipient_pubkey) {
        return Err(ApiError::BadRequest);
    }
    // the recipient must be a registered user
    let mut found_recipient = false;
    let mut u: usize = 0;
    let nu = db.users.len();
    #[verifier::loop_isolation(false)]
    while u < nu
        invariant
            *db == db0,
            nu == db.users@.len(),
            u <= nu,
            found_recipient <==> exists|j: int|
                0 <= j < u && crate::hexcodec::hex_of((#[trigger] db.users@[j]).public_key@)
                    == recipient_pubkey@,
        decreases nu - u,
    {
        let pk_hex = crate::hexcodec::hex_encode(&db.users[u].public_key);
        if str_eq(pk_hex.as_str(), recipient_pubkey) {
            found_recipient = true;
        }
        u = u + 1;
    }
    if !found_recipient {
        return Err(ApiError::NotFound);
    }
    let (a, b) = if str_lt(sender_pubkey, recipient_pubkey) {
        (String::from_str(sender_pubkey), String::from_str(recipient_pubkey))
    } else {
        (String::from_str(recipient_pubkey), String::from_str(sender_pubkey))
    };
    proof {
        if !seq_lt(sender_pubkey@, recipient_pubkey@) {
            lemma_lt_total(sender_pubkey@, recipient_pubkey@);
        }
    }
    let mut i: usize = 0;
    let n = db.dm_conversations.len();
    #[verifier::loop_isolation(false)]
    while i < n
        invariant
            *db == db0,
            n == db.dm_conversations@.len(),
            i <= n,
            forall|j: int|
                0 <= j < i ==> !((#[trigger] db.dm_conversations@[j]).participant_a@ == a@
                    && db.dm_conversations@[j].participant_b@ == b@),
        decreases n - i,
    {
        let row = &db.dm_conversations[i];
        if str_eq(row.participant_a.as_str(), a.as_str()) && str_eq(
            row.participant_b.as_str(),
            b.as_str(),
        ) {
            let resp = ConversationResponse {
                id: row.id.clone(),
                participant_a_pubkey: row.participant_a.clone(),
                participant_b_pubkey: row.participant_b.clone(),
                participant_a_display_name: String::new(),
                participant_b_display_name: String::new(),
                created_at: row.created_at,
                last_message_at: row.last_message_at,
            };
            proof {
                assert(db.dm_conversations@[i as int].participant_a@ == a@);
                assert(db.dm_conversations@[i as int].participant_b@ == b@);
            }
            return Ok((resp, false));
        }
        i = i + 1;
    }
    let conv_id = new_uuid_string();
    let mut k: usize = 0;
    #[verifier::loop_isolation(false)]
    while k < n
        invariant
            *db == db0,
            n == db.dm_conversations@.len(),
            k <= n,
            forall|j: int|
                0 <= j < k ==> (#[trigger] db.dm_conversations@[j]).id@ != conv_id@,
        decreases n - k,
    {
        if str_eq(db.dm_conversations[k].id.as_str(), conv_id.as_str()) {
            return Err(ApiError::Internal);
        }
        k = k + 1;
    }
    db.dm_conversations.push(
        DmConversation {
            id: conv_id.clone(),
            participant_a: a.clone(),
            participant_b: b.clone(),
            created_at: now,
            last_message_at: None,
        },
    );
    proof {
        assert(dm_conversations_wf(db.dm_conversations@)) by {
            assert forall|x: int, y: int|
                0 <= x < y < db.dm_conversations@.len() implies !((
            #[trigger] db.dm_conversations@[x]).participant_a@
                == (#[trigger] db.dm_conversations@[y]).participant_a@
                && db.dm_conversations@[x].participant_b@
                == db.dm_conversations@[y].participant_b@) by {
                if y == db.dm_conversations@.len() - 1 {
                    assert(db.dm_conversations@[x] == db0.dm_conversations@[x]);
                }
            }
            assert forall|x: int|
                0 <= x < db.dm_conversations@.len() implies seq_lt(
                (#[trigger] db.dm_conversations@[x]).participant_a@,
                db.dm_conversations@[x].participant_b@,
            ) by {
                if x < db.dm_conversations@.len() - 1 {
                    assert(db.dm_conversations@[x] == db0.dm_conversations@[x]);
                }
            }
            assert(db.dm_conversations@.map_values(|c: DmConversation| c.id@)
                =~= db0.dm_conversations@.map_values(|c: DmConversation| c.id@).push(conv_id@));
            crate::keyidx::lemma_no_key(
                db0.dm_conversations@.map_values(|c: DmConversation| c.id@),
                conv_id@,
            );
            crate::keyidx::lemma_push_fresh(
                db0.dm_conversations@.map_values(|c: DmConversation| c.id@),
                conv_id@,
            );
        }
        assert(db.dm_conversations@.last().participant_a@ == a@);
        assert(db.dm_conversations@.last().participant_b@ == b@);
        assert forall|i: int|
            0 <= i < db0.dm_conversations@.len() implies !((#[trigger] db0.dm_conversations@[i]).participant_a@
            == a@ && db0.dm_conversations@[i].participant_b@ == b@) by {}
    }
    let resp = ConversationResponse {
        id: conv_id,
        participant_a_pubkey: a,
        participant_b_pubkey: b,
        participant_a_display_name: String::new(),
        participant_b_display_name: String::new(),
        created_at: now,
        last_message_at: None,
    };
    Ok((resp, true))
}

/// Lexicographic order on distinct strings is total.
proof fn lemma_lt_total(a: Seq<char>, b: Seq<char>)
    requires
        a != b,
    ensures
        seq_lt(a, b) || seq_lt(b, a),
    decreases a.len() + b.len(),
{
    if b.len() == 0 {
        if a.len() == 0 {
            assert(a =~= b);
        }
        assert(a.len() > 0);
    } else if a.len() == 0 {
    } else if a[0] != b[0] {
    } else {
        assert(a.drop_first() != b.drop_first()) by {
            if a.drop_first() == b.drop_first() {
                assert(a =~= seq![a[0]] + a.drop_first());
                assert(b =~= seq![b[0]] + b.drop_first());
            }
        }
        lemma_lt_total(a.drop_first(), b.drop_first());
    }
}

/// The highest sequence used in a conversation, zero when it has none.
pub open spec fn max_conv_seq(messages: Seq<DmMessage>, cid: Seq<char>) -> i64
    decreases messages.len(),
{
    if messages.len() == 0 {
        0
    } else if messages.last().conversation_id@ == cid {
        messages.last().server_sequence
    } else {
        max_conv_seq(messages.drop_last(), cid)
    }
}

proof fn lemma_max_conv_seq(messages: Seq<DmMessage>, cid: Seq<char>)
    requires
        crate::state::dm_messages_wf(messages),
    ensures
        forall|i: int|
            0 <= i < messages.len() && (#[trigger] messages[i]).conversation_id@ == cid
                ==> messages[i].server_sequence <= max_conv_seq(messages, cid),
        0 <= max_conv_seq(messages, cid) <= MAX_SEQUENCE,
    decreases messages.len(),
{
    if messages.len() > 0 {
        assert(crate::state::dm_messages_wf(messages.drop_last())) by {
            assert(forall|i: int|
                0 <= i < messages.len() - 1 ==> messages.drop_last()[i] == messages[i]);
        }
        lemma_max_conv_seq(messages.drop_last(), cid);
        assert forall|i: int|
            0 <= i < messages.len() && (#[trigger] messages[i]).conversation_id@ == cid implies
            messages[i].server_sequence <= max_conv_seq(messages, cid) by {
            if i < messages.len() - 1 {
                assert(messages.drop_last()[i] == messages[i]);
                if messages.last().conversation_id@ == cid {
                    assert(messages[i].server_sequence < messages.last().server_sequence);
                }
            }
        }
    }
}

/// Send an encrypted DM: the conversation must exist and the sender be
/// one of its two participants; the ciphertext, nonce and ephemeral key
/// are stored exactly as given — the server never transforms them — and
/// the message is routed live when the recipient holds a socket,
/// otherwise queued.
pub fn send_dm_message(
    db: &mut ServerDb,
    sender_pubkey: &str,
    req: &SendDmRequest,
    recipient_online: bool,
    now: i64,
) -> (r: Result<(DmMessageResponse, DmRouting), ApiError>)
    requires
        old(db).wf(),
        0 <= now <= MAX_TIME_MS,
        0 <= old(db).next_offline_id < i64::MAX,
    ensures
        final(db).wf(),
        r matches Err(_) ==> *final(db) == *old(db),
        ({
            let convo = exists|i: int|
                0 <= i < old(db).dm_conversations@.len() && (#[trigger] old(db).dm_conversations@[i]).id@
                    == req.conversation_id@;
            let member = exists|i: int|
                0 <= i < old(db).dm_conversations@.len() && (#[trigger] old(db).dm_conversations@[i]).id@
                    == req.conversation_id@ && (old(db).dm_conversations@[i].participant_a@
                    == sender_pubkey@ || old(db).dm_conversations@[i].participant_b@
                    == sender_pubkey@);
            &&& (r is Ok <==> (member && max_conv_seq(old(db).dm_messages@, req.conversation_id@)
                < MAX_SEQUENCE))
            &&& (!convo ==> r == Err::<(DmMessageResponse, DmRouting), ApiError>(ApiError::NotFound))
            &&& (convo && !member ==> r == Err::<(DmMessageResponse, DmRouting), ApiError>(
                ApiError::Forbidden,
            ))
        }),
        r matches Ok((out, routing)) ==> {
            &&& exists|i: int|
                {
                    &&& 0 <= i < old(db).dm_conversations@.len()
                    &&& (#[trigger] old(db).dm_conversations@[i]).id@ == req.conversation_id@
                    &&& (old(db).dm_conversations@[i].participant_a@ == sender_pubkey@ || old(db).dm_conversations@[i].participant_b@ == sender_pubkey@)
                }
            &&& final(db).dm_messages@.len() == old(db).dm_messages@.len() + 1
            &&& final(db).dm_messages@.take(old(db).dm_messages@.len() as int) == old(db).dm_messages@
            &&& {
                let m = final(db).dm_messages@.last();
                &&& m.conversation_id@ == req.conversation_id@
                &&& m.sender_pubkey@ == sender_pubkey@
                &&& m.encrypted_payload@ == req.encrypted_payload@
                &&& m.nonce@ == req.nonce@
                &&& (match req.ephemeral_pubkey {
                    Some(e) => m.ephemeral_pubkey matches Some(me) && me@ == e@,
                    None => m.ephemeral_pubkey is None,
                })
                &&& m.server_sequence == max_conv_seq(old(db).dm_messages@, req.conversation_id@)
                    + 1
            }
            &&& out.encrypted_payload@ == req.encrypted_payload@
            &&& out.nonce@ == req.nonce@
            &&& (routing == DmRouting::DeliveredLive <==> recipient_online)
            &&& (!recipient_online ==> final(db).dm_offline_queue@.len() == old(db).dm_offline_queue@.len() + 1)
            &&& (recipient_online ==> final(db).dm_offline_queue@ == old(db).dm_offline_queue@)
        },
        final(db).users@ == old(db).users@,
        final(db).refresh_tokens@ == old(db).refresh_tokens@,
        final(db).rotation_records@ == old(db).rotation_records@,
        final(db).messages@ == old(db).messages@,
        final(db).bans@ == old(db).bans@,
{
    let ghost db0 = *db;
    // the conversation must exist with the sender in it
    let mut conv_idx: Option<usize> = None;
    let mut i: usize = 0;
    let n = db.dm_conversations.len();
    let ghost conv_keys = db.dm_conversations@.map_values(|c: DmConversation| c.id@);
    #[verifier::loop_isolation(false)]
    while i < n
        invariant
            *db == db0,
            n == db.dm_conversations@.len(),
            i <= n,
            match conv_idx {
                Some(ci) => (ci as int) < n && db.dm_conversations@[ci as int].id@
                    == req.conversation_id@ && (db.dm_conversations@[ci as int].participant_a@
                    == sender_pubkey@ || db.dm_conversations@[ci as int].participant_b@
                    == sender_pubkey@),
                None => forall|j: int|
                    0 <= j < i ==> (#[trigger] db.dm_conversations@[j]).id@
                        != req.conversation_id@,
            },
        decreases n - i,
    {
        let row = &db.dm_conversations[i];
        if str_eq(row.id.as_str(), req.conversation_id.as_str()) {
            if str_eq(row.participant_a.as_str(), sender_pubkey) || str_eq(
                row.participant_b.as_str(),
                sender_pubkey,
            ) {
                if conv_idx.is_none() {
                    conv_idx = Some(i);
                }
            } else {
                proof {
                    // conversation ids are unique, so the failing row is
                    // the only one the id can name
                    assert(conv_keys[i as int] == req.conversation_id@);
                    assert forall|j: int|
                        0 <= j < n && (#[trigger] db.dm_conversations@[j]).id@
                            == req.conversation_id@ implies j == i by {
                        if j != i {
                            assert(conv_keys[j] == req.conversation_id@);
                            if j < i as int {
                                assert(conv_keys[j] != conv_keys[i as int]);
                            } else {
                                assert(conv_keys[i as int] != conv_keys[j]);
                            }
                        }
                    }
                }
                return Err(ApiError::Forbidden);
            }
        }
        i = i + 1;
    }
    let ci = match conv_idx {
        Some(c) => c,
        None => {
            return Err(ApiError::NotFound);
        },
    };
    let recipient = if str_eq(db.dm_conversations[ci].participant_a.as_str(), sender_pubkey) {
        db.dm_conversations[ci].participant_b.clone()
    } else {
        db.dm_conversations[ci].participant_a.clone()
    };
    // assign the next sequence of the conversation
    let mut acc: i64 = 0;
    let mut k: usize = 0;
    let m = db.dm_messages.len();
    proof {
        assert(db.dm_messages@.take(0) =~= Seq::<DmMessage>::empty());
        lemma_max_conv_seq(db.dm_messages@, req.conversation_id@);
    }
    #[verifier::loop_isolation(false)]
    while k < m
        invariant
            *db == db0,
            m == db.dm_messages@.len(),
            k <= m,
            acc == max_conv_seq(db.dm_messages@.take(k as int), req.conversation_id@),
            0 <= acc <= MAX_SEQUENCE,
        decreases m - k,
    {
        proof {
            assert(db.dm_messages@.take(k as int + 1).drop_last() =~= db.dm_messages@.take(
                k as int));
            assert(db.dm_messages@.take(k as int + 1).last() == db.dm_messages@[k as int]);
        }
        if str_eq(db.dm_messages[k].conversation_id.as_str(), req.conversation_id.as_str()) {
            acc = db.dm_messages[k].server_sequence;
        }
        k = k + 1;
    }
    proof {
        assert(db.dm_messages@.take(m as int) =~= db.dm_messages@);
    }
    if acc >= MAX_SEQUENCE {
        return Err(ApiError::Internal);
    }
    let seq = acc + 1;
    let msg_id = new_uuid_string();
    let row = DmMessage {
        id: msg_id.clone(),
        conversation_id: req.conversation_id.clone(),
        sender_pubkey: String::from_str(sender_pubkey),
        encrypted_payload: bytes_clone(&req.encrypted_payload),
        nonce: bytes_clone(&req.nonce),
        ephemeral_pubkey: opt_bytes_clone(&req.ephemeral_pubkey),
        timestamp: req.timestamp,
        server_sequence: seq,
        sender_display_name: None,
        created_at: now,
    };
    db.dm_messages.push(row);
    proof {
        assert(db.dm_messages@.take(db0.dm_messages@.len() as int) =~= db0.dm_messages@);
        assert(crate::state::dm_messages_wf(db.dm_messages@)) by {
            assert forall|x: int, y: int|
                0 <= x < y < db.dm_messages@.len() && (#[trigger] db.dm_messages@[x]).conversation_id@
                    == (#[trigger] db.dm_messages@[y]).conversation_id@ implies db.dm_messages@[x].server_sequence
                < db.dm_messages@[y].server_sequence by {
                if y == db.dm_messages@.len() - 1 {
                    assert(db.dm_messages@[x] == db0.dm_messages@[x]);
                }
            }
            assert forall|x: int|
                0 <= x < db.dm_messages@.len() implies 0 <= (
            #[trigger] db.dm_messages@[x]).server_sequence <= MAX_SEQUENCE by {
                if x < db.dm_messages@.len() - 1 {
                    assert(db.dm_messages@[x] == db0.dm_messages@[x]);
                }
            }
        }
    }
    let routing = if recipient_online {
        DmRouting::DeliveredLive
    } else {
        let qid = db.next_offline_id;
        db.dm_offline_queue.push(
            DmOfflineQueueEntry {
                id: qid,
                recipient_pubkey: recipient,
                dm_message_id: msg_id.clone(),
                queued_at: now,
                delivered: false,
            },
        );
        db.next_offline_id = qid + 1;
        DmRouting::Queued
    };
    proof {
        assert(db.dm_conversations@[ci as int].id@ == req.conversation_id@);
    }
    Ok(
        (
            DmMessageResponse {
                id: msg_id,
                conversation_id: req.conversation_id.clone(),
                sender_pubkey: String::from_str(sender_pubkey),
                encrypted_payload: bytes_clone(&req.encrypted_payload),
                nonce: bytes_clone(&req.nonce),
                ephemeral_pubkey: opt_bytes_clone(&req.ephemeral_pubkey),
                timestamp: req.timestamp,
                server_sequence: seq,
                sender_display_name: String::new(),
            },
            routing,
        ),
    )
}

/// Publish or replace the caller's X25519 key for DM key exchange.
pub fn publish_dm_key(db: &mut ServerDb, ed25519_pubkey: &str, x25519_pubkey: Vec<u8>, now: i64)
    requires
        old(db).wf(),
    ensures
        final(db).wf(),
        exists|i: int|
            {
                &&& 0 <= i < final(db).dm_public_keys@.len()
                &&& (#[trigger] final(db).dm_public_keys@[i]).ed25519_pubkey@ == ed25519_pubkey@
                &&& final(db).dm_public_keys@[i].x25519_pubkey@ == x25519_pubkey@
            },
        final(db).users@ == old(db).users@,
        final(db).refresh_tokens@ == old(db).refresh_tokens@,
        final(db).dm_messages@ == old(db).dm_messages@,
        final(db).rotation_records@ == old(db).rotation_records@,
{
    let ghost db0 = *db;
    let mut i: usize = 0;
    let n = db.dm_public_keys.len();
    #[verifier::loop_isolation(false)]
    while i < n
        invariant
            *db == db0,
            n == db.dm_public_keys@.len(),
            i <= n,
            forall|j: int| 0 <= j < i ==> db0.dm_key_owners()[j] != ed25519_pubkey@,
        decreases n - i,
    {
        if str_eq(db.dm_public_keys[i].ed25519_pubkey.as_str(), ed25519_pubkey) {
            let published = db.dm_public_keys[i].published_at;
            db.dm_public_keys.set(
                i,
                DmPublicKey {
                    ed25519_pubkey: String::from_str(ed25519_pubkey),
                    x25519_pubkey,
                    published_at: published,
                    updated_at: now,
                },
            );
            proof {
                assert(db.dm_key_owners() =~= db0.dm_key_owners());
                assert(db.dm_public_keys@[i as int].ed25519_pubkey@ == ed25519_pubkey@);
            }
            return ;
        }
        i = i + 1;
    }
    proof {
        crate::keyidx::lemma_no_key(db0.dm_key_owners(), ed25519_pubkey@);
    }
    db.dm_public_keys.push(
        DmPublicKey {
            ed25519_pubkey: String::from_str(ed25519_pubkey),
            x25519_pubkey,
            published_at: now,
            updated_at: now,
        },
    );
    proof {
        assert(db.dm_key_owners() =~= db0.dm_key_owners().push(ed25519_pubkey@));
        crate::keyidx::lemma_push_fresh(db0.dm_key_owners(), ed25519_pubkey@);
        assert(db.dm_public_keys@.last().ed25519_pubkey@ == ed25519_pubkey@);
    }
}

/// The published X25519 key of a user, by Ed25519 key.
pub fn get_dm_key(db: &ServerDb, ed25519_pubkey: &str) -> (r: Option<DmKeyResponse>)
    ensures
        r is Some <==> crate::keyidx::has_key(db.dm_key_owners(), ed25519_pubkey@),
{
    let mut i: usize = 0;
    let n = db.dm_public_keys.len();
    #[verifier::loop_isolation(false)]
    while i < n
        invariant
            n == db.dm_public_keys@.len(),
            i <= n,
            forall|j: int| 0 <= j < i ==> db.dm_key_owners()[j] != ed25519_pubkey@,
        decreases n - i,
    {
        let row = &db.dm_public_keys[i];
        if str_eq(row.ed25519_pubkey.as_str(), ed25519_pubkey) {
            proof {
                assert(db.dm_key_owners()[i as int] == ed25519_pubkey@);
            }
            return Some(
                DmKeyResponse {
                    ed25519_pubkey: row.ed25519_pubkey.clone(),
                    x25519_pubkey: crate::hexcodec::hex_encode(&row.x25519_pubkey),
                    published_at: row.published_at,
                },
            );
        }
        i = i + 1;
    }
    proof {
        crate::keyidx::lemma_no_key(db.dm_key_owners(), ed25519_pubkey@);
    }
    None
}

/// The message ids queued for a recipient and not yet delivered, in row
/// order.
pub open spec fn undelivered_ids(q: Seq<DmOfflineQueueEntry>, user: Seq<char>) -> Seq<Seq<char>>
    decreases q.len(),
{
    if q.len() == 0 {
        Seq::empty()
    } else if q.last().recipient_pubkey@ == user && !q.last().delivered {
        undelivered_ids(q.drop_last(), user).push(q.last().dm_message_id@)
    } else {
        undelivered_ids(q.drop_last(), user)
    }
}

/// Fetch the caller's queued DMs and mark them delivered: the result is
/// exactly the caller's undelivered message ids, in queue order, and
/// exactly those rows flip to delivered.
pub fn get_offline_messages(db: &mut ServerDb, recipient_pubkey: &str) -> (r: Vec<String>)
    requires
        old(db).wf(),
    ensures
        final(db).wf(),
        r@.map_values(|t: String| t@) == undelivered_ids(old(db).dm_offline_queue@, recipient_pubkey@),
        final(db).dm_offline_queue@.len() == old(db).dm_offline_queue@.len(),
        forall|j: int|
            0 <= j < old(db).dm_offline_queue@.len() ==> {
                let e = old(db).dm_offline_queue@[j];
                if e.recipient_pubkey@ == recipient_pubkey@ && !e.delivered {
                    {
                        &&& (#[trigger] final(db).dm_offline_queue@[j]).id == e.id
                        &&& final(db).dm_offline_queue@[j].recipient_pubkey@ == e.recipient_pubkey@
                        &&& final(db).dm_offline_queue@[j].dm_message_id@ == e.dm_message_id@
                        &&& final(db).dm_offline_queue@[j].queued_at == e.queued_at
                        &&& final(db).dm_offline_queue@[j].delivered
                    }
                } else {
                    final(db).dm_offline_queue@[j] == e
                }
            },
        final(db).users@ == old(db).users@,
        final(db).dm_messages@ == old(db).dm_messages@,
        final(db).refresh_tokens@ == old(db).refresh_tokens@,
        final(db).rotation_records@ == old(db).rotation_records@,
{
    let mut out: Vec<String> = Vec::new();
    let mut i: usize = 0;
    let ghost db0 = *db;
    let n = db.dm_offline_queue.len();
    proof {
        assert(db0.dm_offline_queue@.take(0) =~= Seq::<DmOfflineQueueEntry>::empty());
    }
    #[verifier::loop_isolation(false)]
    while i < n
        invariant
            n == db.dm_offline_queue@.len(),
            i <= n,
            db.users@ == db0.users@,
            db.dm_messages@ == db0.dm_messages@,
            db.refresh_tokens@ == db0.refresh_tokens@,
            db.rotation_records@ == db0.rotation_records@,
            db.dm_conversations@ == db0.dm_conversations@,
            db.messages@ == db0.messages@,
            db.bans@ == db0.bans@,
            db.invites@ == db0.invites@,
            db.server_settings@ == db0.server_settings@,
            db.channels@ == db0.channels@,
            db.categories@ == db0.categories@,
            db.roles@ == db0.roles@,
            db.user_roles@ == db0.user_roles@,
            db.identity_blobs@ == db0.identity_blobs@,
            db.reactions@ == db0.reactions@,
            db.last_read@ == db0.last_read@,
            db.dm_public_keys@ == db0.dm_public_keys@,
            db.blocks@ == db0.blocks@,
            db.next_message_id == db0.next_message_id,
            forall|j: int| i <= j < n ==> db.dm_offline_queue@[j] == db0.dm_offline_queue@[j],
            out@.map_values(|t: String| t@) == undelivered_ids(
                db0.dm_offline_queue@.take(i as int),
                recipient_pubkey@,
            ),
            forall|j: int|
                0 <= j < i ==> {
                    let e = db0.dm_offline_queue@[j];
                    if e.recipient_pubkey@ == recipient_pubkey@ && !e.delivered {
                        {
                            &&& (#[trigger] db.dm_offline_queue@[j]).id == e.id
                            &&& db.dm_offline_queue@[j].recipient_pubkey@ == e.recipient_pubkey@
                            &&& db.dm_offline_queue@[j].dm_message_id@ == e.dm_message_id@
                            &&& db.dm_offline_queue@[j].queued_at == e.queued_at
                            &&& db.dm_offline_queue@[j].delivered
                        }
                    } else {
                        db.dm_offline_queue@[j] == e
                    }
                },
        decreases n - i,
    {
        proof {
            assert(db0.dm_offline_queue@.take(i as int + 1).drop_last()
                =~= db0.dm_offline_queue@.take(i as int));
            assert(db0.dm_offline_queue@.take(i as int + 1).last()
                == db0.dm_offline_queue@[i as int]);
        }
        let ghost out0 = out@;
        let e = &db.dm_offline_queue[i];
        if str_eq(e.recipient_pubkey.as_str(), recipient_pubkey) && !e.delivered {
            out.push(e.dm_message_id.clone());
            let updated = DmOfflineQueueEntry {
                id: e.id,
                recipient_pubkey: e.recipient_pubkey.clone(),
                dm_message_id: e.dm_message_id.clone(),
                queued_at: e.queued_at,
                delivered: true,
            };
            db.dm_offline_queue.set(i, updated);
            proof {
                assert(out@.map_values(|t: String| t@) =~= out0.map_values(|t: String| t@).push(
                    db0.dm_offline_queue@[i as int].dm_message_id@));
            }
        } else {
            proof {
                assert(out@.map_values(|t: String| t@) =~= undelivered_ids(
                    db0.dm_offline_queue@.take(i as int + 1),
                    recipient_pubkey@,
                ));
            }
        }
        i = i + 1;
    }
    proof {
        assert(db0.dm_offline_queue@.take(n as int) =~= db0.dm_offline_queue@);
    }
    out
}

/// Purge offline entries older than the thirty-day TTL./// Purge offline entries older than the thirty-day TTL.
pub fn cleanup_offline(db: &mut ServerDb, now: i64)
    requires
        old(db).wf(),
    ensures
        final(db).wf(),
        forall|i: int|
            0 <= i < final(db).dm_offline_queue@.len() ==> (#[trigger] final(db).dm_offline_queue@[i]).queued_at + OFFLINE_TTL_MS >= now,
        final(db).users@ == old(db).users@,
        final(db).dm_messages@ == old(db).dm_messages@,
        final(db).refresh_tokens@ == old(db).refresh_tokens@,
        final(db).rotation_records@ == old(db).rotation_records@,
{
    let ghost db0 = *db;
    let mut kept: Vec<DmOfflineQueueEntry> = Vec::new();
    let mut i: usize = 0;
    let n = db.dm_offline_queue.len();
    #[verifier::loop_isolation(false)]
    while i < n
        invariant
            *db == db0,
            n == db.dm_offline_queue@.len(),
            i <= n,
            forall|k: int|
                0 <= k < kept@.len() ==> (#[trigger] kept@[k]).queued_at + OFFLINE_TTL_MS >= now,
        decreases n - i,
    {
        let e = &db.dm_offline_queue[i];
        let expired = if e.queued_at <= MAX_TIME_MS && e.queued_at >= 0 {
            e.queued_at + OFFLINE_TTL_MS < now
        } else {
            true
        };
        if !expired {
            kept.push(
                DmOfflineQueueEntry {
                    id: e.id,
                    recipient_pubkey: e.recipient_pubkey.clone(),
                    dm_message_id: e.dm_message_id.clone(),
                    queued_at: e.queued_at,
                    delivered: e.delivered,
                },
            );
        }
        i = i + 1;
    }
    db.dm_offline_queue = kept;
}


/// Whether a DM row qualifies for a page of its conversation.
pub open spec fn dm_qualifies(messages: Seq<DmMessage>, j: int, cid: Seq<char>, before: int) -> bool {
    &&& 0 <= j < messages.len()
    &&& messages[j].conversation_id@ == cid
    &&& messages[j].server_sequence < before
}

/// A response entry faithfully rendering one DM row: the ciphertext,
/// nonce and ephemeral key byte for byte.
pub open spec fn dm_matches(resp: DmMessageResponse, row: DmMessage) -> bool {
    &&& resp.id@ == row.id@
    &&& resp.server_sequence == row.server_sequence
    &&& resp.conversation_id@ == row.conversation_id@
    &&& resp.sender_pubkey@ == row.sender_pubkey@
    &&& resp.encrypted_payload@ == row.encrypted_payload@
    &&& resp.nonce@ == row.nonce@
    &&& (match row.ephemeral_pubkey {
        Some(e) => resp.ephemeral_pubkey matches Some(re) && re@ == e@,
        None => resp.ephemeral_pubkey is None,
    })
    &&& resp.timestamp == row.timestamp
}

/// Whether a page entry faithfully renders some qualifying DM row.
pub open spec fn dm_rendered_from(
    entry: DmMessageResponse,
    messages: Seq<DmMessage>,
    cid: Seq<char>,
    before: int,
) -> bool {
    exists|j: int| dm_qualifies(messages, j, cid, before) && dm_matches(entry, messages[j])
}

/// Whether a sequence number appears in a DM page.
pub open spec fn dm_seq_in(out: Seq<DmMessageResponse>, s: i64) -> bool {
    exists|k: int| 0 <= k < out.len() && (#[trigger] out[k]).server_sequence == s
}

/// Paginated DM history of a conversation, newest first: exactly the
/// qualifying rows with the highest sequences up to the clamped limit,
/// rendered faithfully; `has_more` holds exactly when a qualifying row
/// was left out. Only a participant may read.
pub fn get_dm_messages(db: &ServerDb, sender_pubkey: &str, query: &DmHistoryQuery, conversation_id: &str) -> (r:
    Result<DmHistoryResponse, ApiError>)
    requires
        db.wf(),
    ensures
        ({
            let convo = exists|i: int|
                0 <= i < db.dm_conversations@.len() && (#[trigger] db.dm_conversations@[i]).id@
                    == conversation_id@;
            let member = exists|i: int|
                0 <= i < db.dm_conversations@.len() && (#[trigger] db.dm_conversations@[i]).id@
                    == conversation_id@ && (db.dm_conversations@[i].participant_a@
                    == sender_pubkey@ || db.dm_conversations@[i].participant_b@ == sender_pubkey@);
            &&& (r is Ok <==> member)
            &&& (!convo ==> r == Err::<DmHistoryResponse, ApiError>(ApiError::NotFound))
            &&& (convo && !member ==> r == Err::<DmHistoryResponse, ApiError>(ApiError::Forbidden))
        }),
        r matches Ok(out) ==> ({
            let before = (match query.before {
                Some(b) => b as int,
                None => MAX_SEQUENCE + 1,
            });
            let limit = (match query.limit {
                Some(l) => if l <= 100 {
                    l as int
                } else {
                    100
                },
                None => 50,
            });
            &&& out.messages@.len() <= limit
            &&& forall|k1: int, k2: int|
                0 <= k1 < k2 < out.messages@.len() ==> (#[trigger] out.messages@[k1]).server_sequence
                    > (#[trigger] out.messages@[k2]).server_sequence
            &&& forall|k: int|
                0 <= k < out.messages@.len() ==> dm_rendered_from(
                    #[trigger] out.messages@[k],
                    db.dm_messages@,
                    conversation_id@,
                    before,
                )
            &&& forall|j: int|
                dm_qualifies(db.dm_messages@, j, conversation_id@, before) ==> (dm_seq_in(
                    out.messages@,
                    (#[trigger] db.dm_messages@[j]).server_sequence,
                ) || out.has_more)
            &&& (out.has_more <==> exists|j: int|
                dm_qualifies(db.dm_messages@, j, conversation_id@, before) && !dm_seq_in(
                    out.messages@,
                    (#[trigger] db.dm_messages@[j]).server_sequence,
                ))
            &&& (out.has_more ==> out.messages@.len() == limit)
        }),
{
    // the caller must be a participant
    let ghost conv_keys = db.dm_conversations@.map_values(|c: DmConversation| c.id@);
    let mut i: usize = 0;
    let n = db.dm_conversations.len();
    let mut allowed = false;
    let mut found = false;
    #[verifier::loop_isolation(false)]
    while i < n
        invariant
            n == db.dm_conversations@.len(),
            i <= n,
            found <==> exists|j: int|
                0 <= j < i && (#[trigger] db.dm_conversations@[j]).id@ == conversation_id@,
            allowed <==> exists|j: int|
                0 <= j < i && (#[trigger] db.dm_conversations@[j]).id@ == conversation_id@ && (
                db.dm_conversations@[j].participant_a@ == sender_pubkey@
                    || db.dm_conversations@[j].participant_b@ == sender_pubkey@),
        decreases n - i,
    {
        let row = &db.dm_conversations[i];
        if str_eq(row.id.as_str(), conversation_id) {
            found = true;
            if str_eq(row.participant_a.as_str(), sender_pubkey) || str_eq(
                row.participant_b.as_str(),
                sender_pubkey,
            ) {
                allowed = true;
            }
        }
        i = i + 1;
    }
    if !found {
        return Err(ApiError::NotFound);
    }
    if !allowed {
        return Err(ApiError::Forbidden);
    }
    let before: i64 = match query.before {
        Some(b) => b,
        None => MAX_SEQUENCE + 1,
    };
    let limit: u32 = match query.limit {
        Some(l) => if l <= 100 {
            l
        } else {
            100
        },
        None => 50,
    };
    let mut out: Vec<DmMessageResponse> = Vec::new();
    let mut has_more = false;
    let m = db.dm_messages.len();
    let mut k: usize = m;
    #[verifier::loop_isolation(false)]
    while k > 0
        invariant
            k <= m,
            m == db.dm_messages@.len(),
            out@.len() <= limit as int,
            limit <= 100,
            forall|q1: int, q2: int|
                0 <= q1 < q2 < out@.len() ==> (#[trigger] out@[q1]).server_sequence
                    > (#[trigger] out@[q2]).server_sequence,
            forall|q: int|
                0 <= q < out@.len() ==> exists|j: int|
                    k <= j < m && dm_qualifies(db.dm_messages@, j, conversation_id@, before as int)
                        && dm_matches(#[trigger] out@[q], db.dm_messages@[j]),
            forall|j: int|
                k <= j < m && dm_qualifies(db.dm_messages@, j, conversation_id@, before as int)
                    ==> (dm_seq_in(out@, (#[trigger] db.dm_messages@[j]).server_sequence)
                    || has_more),
            has_more ==> out@.len() == limit as int,
            has_more ==> exists|j: int|
                k <= j < m && dm_qualifies(db.dm_messages@, j, conversation_id@, before as int)
                    && !dm_seq_in(out@, (#[trigger] db.dm_messages@[j]).server_sequence),
        decreases k,
    {
        k = k - 1;
        let ghost out0 = out@;
        let row = &db.dm_messages[k];
        if str_eq(row.conversation_id.as_str(), conversation_id) && row.server_sequence < before {
            proof {
                assert forall|q: int| 0 <= q < out0.len() implies (#[trigger] out0[q]).server_sequence
                    > db.dm_messages@[k as int].server_sequence by {
                    let j = choose|j: int|
                        k + 1 <= j < m && dm_qualifies(
                            db.dm_messages@,
                            j,
                            conversation_id@,
                            before as int,
                        ) && dm_matches(out0[q], db.dm_messages@[j]);
                    assert(db.dm_messages@[k as int].server_sequence
                        < db.dm_messages@[j].server_sequence);
                }
            }
            if out.len() < limit as usize {
                out.push(
                    DmMessageResponse {
                        id: row.id.clone(),
                        conversation_id: row.conversation_id.clone(),
                        sender_pubkey: row.sender_pubkey.clone(),
                        encrypted_payload: bytes_clone(&row.encrypted_payload),
                        nonce: bytes_clone(&row.nonce),
                        ephemeral_pubkey: opt_bytes_clone(&row.ephemeral_pubkey),
                        timestamp: row.timestamp,
                        server_sequence: row.server_sequence,
                        sender_display_name: String::new(),
                    },
                );
                proof {
                    assert(dm_matches(out@.last(), db.dm_messages@[k as int]));
                    assert(dm_seq_in(out@, db.dm_messages@[k as int].server_sequence));
                    assert(!has_more);
                    assert forall|j: int|
                        k <= j < m && dm_qualifies(
                            db.dm_messages@,
                            j,
                            conversation_id@,
                            before as int,
                        ) implies (dm_seq_in(out@, (#[trigger] db.dm_messages@[j]).server_sequence)
                        || has_more) by {
                        if j > k && dm_seq_in(out0, db.dm_messages@[j].server_sequence) {
                            let q = choose|q: int|
                                0 <= q < out0.len() && (#[trigger] out0[q]).server_sequence
                                    == db.dm_messages@[j].server_sequence;
                            assert(out@[q].server_sequence == db.dm_messages@[j].server_sequence);
                        }
                    }
                }
            } else {
                has_more = true;
                proof {
                    assert(!dm_seq_in(out@, db.dm_messages@[k as int].server_sequence));
                }
            }
        } else {
            proof {
                if has_more {
                    let j = choose|j: int|
                        k + 1 <= j < m && dm_qualifies(
                            db.dm_messages@,
                            j,
                            conversation_id@,
                            before as int,
                        ) && !dm_seq_in(out@, (#[trigger] db.dm_messages@[j]).server_sequence);
                    assert(k <= j < m);
                }
            }
        }
        proof {
            assert forall|q: int|
                0 <= q < out@.len() implies exists|j: int|
                k <= j < m && dm_qualifies(db.dm_messages@, j, conversation_id@, before as int)
                    && dm_matches(#[trigger] out@[q], db.dm_messages@[j]) by {
                if q < out0.len() {
                    let j = choose|j: int|
                        k + 1 <= j < m && dm_qualifies(
                            db.dm_messages@,
                            j,
                            conversation_id@,
                            before as int,
                        ) && dm_matches(#[trigger] out0[q], db.dm_messages@[j]);
                    assert(out@[q] == out0[q]);
                    assert(k <= j < m && dm_qualifies(
                        db.dm_messages@,
                        j,
                        conversation_id@,
                        before as int,
                    ) && dm_matches(out@[q], db.dm_messages@[j]));
                } else {
                    assert(dm_matches(out@[q], db.dm_messages@[k as int]));
                    assert(dm_qualifies(db.dm_messages@, k as int, conversation_id@, before as int));
                }
            }
        }
    }
    proof {
        if !has_more {
            assert forall|j: int|
                dm_qualifies(db.dm_messages@, j, conversation_id@, before as int) implies dm_seq_in(
                out@,
                (#[trigger] db.dm_messages@[j]).server_sequence,
            ) by {}
        }
        assert forall|q: int|
            0 <= q < out@.len() implies dm_rendered_from(
            #[trigger] out@[q],
            db.dm_messages@,
            conversation_id@,
            before as int,
        ) by {
            let j = choose|j: int|
                k <= j < m && dm_qualifies(db.dm_messages@, j, conversation_id@, before as int)
                    && dm_matches(#[trigger] out@[q], db.dm_messages@[j]);
            assert(dm_qualifies(db.dm_messages@, j, conversation_id@, before as int) && dm_matches(
                out@[q],
                db.dm_messages@[j],
            ));
        }
    }
    Ok(DmHistoryResponse { messages: out, has_more })
}

/// Every conversation the caller participates in./// Every conversation the caller participates in.
pub fn list_conversations(db: &ServerDb, user_pubkey: &str) -> (r: Vec<ConversationResponse>)
    requires
        db.wf(),
    ensures
        forall|k: int|
            0 <= k < r@.len() ==> exists|j: int|
                {
                    &&& 0 <= j < db.dm_conversations@.len()
                    &&& (#[trigger] r@[k]).id@ == (#[trigger] db.dm_conversations@[j]).id@
                    &&& r@[k].participant_a_pubkey@ == db.dm_conversations@[j].participant_a@
                    &&& r@[k].participant_b_pubkey@ == db.dm_conversations@[j].participant_b@
                    &&& (db.dm_conversations@[j].participant_a@ == user_pubkey@
                        || db.dm_conversations@[j].participant_b@ == user_pubkey@)
                },
        forall|j: int|
            0 <= j < db.dm_conversations@.len() && ((#[trigger] db.dm_conversations@[j]).participant_a@
                == user_pubkey@ || db.dm_conversations@[j].participant_b@ == user_pubkey@)
                ==> exists|k: int|
                0 <= k < r@.len() && (#[trigger] r@[k]).id@ == db.dm_conversations@[j].id@,
{
    let mut out: Vec<ConversationResponse> = Vec::new();
    let mut i: usize = 0;
    let n = db.dm_conversations.len();
    #[verifier::loop_isolation(false)]
    while i < n
        invariant
            n == db.dm_conversations@.len(),
            i <= n,
            forall|k: int|
                0 <= k < out@.len() ==> exists|j: int|
                    {
                        &&& 0 <= j < n
                        &&& (#[trigger] out@[k]).id@ == (#[trigger] db.dm_conversations@[j]).id@
                        &&& out@[k].participant_a_pubkey@ == db.dm_conversations@[j].participant_a@
                        &&& out@[k].participant_b_pubkey@ == db.dm_conversations@[j].participant_b@
                        &&& (db.dm_conversations@[j].participant_a@ == user_pubkey@
                            || db.dm_conversations@[j].participant_b@ == user_pubkey@)
                    },
            forall|j: int|
                0 <= j < i && ((#[trigger] db.dm_conversations@[j]).participant_a@ == user_pubkey@
                    || db.dm_conversations@[j].participant_b@ == user_pubkey@) ==> exists|k: int|
                    0 <= k < out@.len() && (#[trigger] out@[k]).id@ == db.dm_conversations@[j].id@,
        decreases n - i,
    {
        let row = &db.dm_conversations[i];
        let ghost out0 = out@;
        if str_eq(row.participant_a.as_str(), user_pubkey) || str_eq(
            row.participant_b.as_str(),
            user_pubkey,
        ) {
            out.push(
                ConversationResponse {
                    id: row.id.clone(),
                    participant_a_pubkey: row.participant_a.clone(),
                    participant_b_pubkey: row.participant_b.clone(),
                    participant_a_display_name: String::new(),
                    participant_b_display_name: String::new(),
                    created_at: row.created_at,
                    last_message_at: row.last_message_at,
                },
            );
        }
        proof {
            assert forall|j: int|
                0 <= j < i + 1 && ((#[trigger] db.dm_conversations@[j]).participant_a@
                    == user_pubkey@ || db.dm_conversations@[j].participant_b@ == user_pubkey@)
                implies exists|k: int|
                0 <= k < out@.len() && (#[trigger] out@[k]).id@ == db.dm_conversations@[j].id@ by {
                if j < i {
                    let k = choose|k: int|
                        0 <= k < out0.len() && (#[trigger] out0[k]).id@
                            == db.dm_conversations@[j].id@;
                    assert(out@[k].id@ == db.dm_conversations@[j].id@);
                } else {
                    assert(out@[out@.len() - 1].id@ == db.dm_conversations@[j].id@);
                }
            }
        }
        i = i + 1;
    }
    out
}

/// The offline queue after an acknowledgement: rows of the caller whose
/// message id was named are dropped, everything else stays.
pub open spec fn ack_retained(
    q: Seq<DmOfflineQueueEntry>,
    user: Seq<char>,
    ids: Seq<Seq<char>>,
) -> Seq<DmOfflineQueueEntry>
    decreases q.len(),
{
    if q.len() == 0 {
        Seq::empty()
    } else if q.last().recipient_pubkey@ == user && ids.contains(q.last().dm_message_id@) {
        ack_retained(q.drop_last(), user, ids)
    } else {
        ack_retained(q.drop_last(), user, ids).push(q.last())
    }
}

/// Drop acknowledged offline entries belonging to the caller: the queue
/// becomes exactly the old queue minus the caller's rows with a named
/// message id.
pub fn ack_offline_messages(db: &mut ServerDb, recipient_pubkey: &str, req: &AckOfflineRequest)
    requires
        old(db).wf(),
    ensures
        final(db).wf(),
        final(db).dm_offline_queue@ == ack_retained(
            old(db).dm_offline_queue@,
            recipient_pubkey@,
            req.message_ids@.map_values(|t: String| t@),
        ),
        final(db).users@ == old(db).users@,
        final(db).dm_messages@ == old(db).dm_messages@,
        final(db).refresh_tokens@ == old(db).refresh_tokens@,
        final(db).rotation_records@ == old(db).rotation_records@,
{
    let ghost db0 = *db;
    let ghost gids = req.message_ids@.map_values(|t: String| t@);
    let mut kept: Vec<DmOfflineQueueEntry> = Vec::new();
    let mut i: usize = 0;
    let n = db.dm_offline_queue.len();
    proof {
        assert(db0.dm_offline_queue@.take(0) =~= Seq::<DmOfflineQueueEntry>::empty());
    }
    #[verifier::loop_isolation(false)]
    while i < n
        invariant
            *db == db0,
            n == db.dm_offline_queue@.len(),
            i <= n,
            kept@ == ack_retained(db0.dm_offline_queue@.take(i as int), recipient_pubkey@, gids),
        decreases n - i,
    {
        proof {
            assert(db0.dm_offline_queue@.take(i as int + 1).drop_last()
                =~= db0.dm_offline_queue@.take(i as int));
            assert(db0.dm_offline_queue@.take(i as int + 1).last()
                == db0.dm_offline_queue@[i as int]);
        }
        let e = &db.dm_offline_queue[i];
        let mut acked = false;
        if str_eq(e.recipient_pubkey.as_str(), recipient_pubkey) {
            let mut q: usize = 0;
            let m = req.message_ids.len();
            #[verifier::loop_isolation(false)]
            while q < m
                invariant
                    *db == db0,
                    m == req.message_ids@.len(),
                    q <= m,
                    0 <= (i as int) < db.dm_offline_queue@.len(),
                    acked <==> exists|w: int|
                        0 <= w < q && gids[w] == db.dm_offline_queue@[i as int].dm_message_id@,
                decreases m - q,
            {
                proof {
                    assert(gids[q as int] == req.message_ids@[q as int]@);
                }
                if str_eq(db.dm_offline_queue[i].dm_message_id.as_str(), req.message_ids[q].as_str()) {
                    acked = true;
                }
                q = q + 1;
            }
            proof {
                assert(acked <==> gids.contains(db0.dm_offline_queue@[i as int].dm_message_id@));
            }
        }
        if !acked {
            let copy = DmOfflineQueueEntry {
                id: e.id,
                recipient_pubkey: e.recipient_pubkey.clone(),
                dm_message_id: e.dm_message_id.clone(),
                queued_at: e.queued_at,
                delivered: e.delivered,
            };
            proof {
                assert(copy == db0.dm_offline_queue@[i as int]);
            }
            kept.push(copy);
        }
        i = i + 1;
    }
    proof {
        assert(db0.dm_offline_queue@.take(n as int) =~= db0.dm_offline_queue@);
    }
    db.dm_offline_queue = kept;
}

} // verus!
