//! Channel messaging: the server-assigned per-channel sequence, message
//! creation, paginated history, edit and soft delete, reactions, and
//! last-read tracking. Every write goes through one sequence assignment,
//! whether it came from the REST path or from gossip ingest.

use vstd::prelude::*;
use crate::errors::ApiError;
use crate::models::{Message, Reaction, LastRead};
use crate::state::{ServerDb, messages_wf, MAX_TIME_MS, MAX_SEQUENCE};
use crate::util::str_eq;
use crate::identity::{is_blank, is_space};

verus! {

/// Maximum message content length, in characters.
pub const MAX_CONTENT_LENGTH: usize = 4000;

/// Default page size for message history.
pub const DEFAULT_LIMIT: u32 = 50;

/// Maximum page size for message history.
pub const MAX_LIMIT: u32 = 100;

pub struct CreateMessageRequest {
    pub content: String,
    pub reply_to_id: Option<String>,
}

#[derive(Debug)]
pub struct ReactionGroup {
    pub emoji: String,
    pub count: i64,
    pub user_pubkeys: Vec<String>,
}

#[derive(Debug)]
pub struct MessageResponse {
    pub id: i64,
    pub channel_id: String,
    pub sender_pubkey: String,
    pub sender_display_name: String,
    pub content: String,
    pub timestamp: i64,
    pub server_sequence: i64,
    pub reply_to_id: Option<String>,
    pub edited: bool,
    pub reactions: Vec<ReactionGroup>,
}

pub struct HistoryQuery {
    pub before: Option<i64>,
    pub limit: Option<u32>,
}

#[derive(Debug)]
pub struct HistoryResponse {
    pub messages: Vec<MessageResponse>,
    pub has_more: bool,
}

pub struct AddReactionRequest {
    pub emoji: String,
}

#[derive(Debug)]
pub struct ReactionGroupResponse {
    pub emoji: String,
    pub count: i64,
    pub user_pubkeys: Vec<String>,
}

pub struct EditMessageRequest {
    pub content: String,
}

pub struct UpdateLastReadRequest {
    pub last_sequence: i64,
}

#[derive(Debug)]
pub struct LastReadResponse {
    pub last_sequence: i64,
}

/// The highest sequence used in a channel, zero when it has none.
pub open spec fn max_channel_seq(messages: Seq<Message>, cid: Seq<char>) -> i64
    decreases messages.len(),
{
    if messages.len() == 0 {
        0
    } else if messages.last().channel_id@ == cid {
        messages.last().server_sequence
    } else {
        max_channel_seq(messages.drop_last(), cid)
    }
}

/// Under the store invariant the last row of a channel carries its
/// highest sequence.
pub proof fn lemma_max_seq(messages: Seq<Message>, next_id: i64, cid: Seq<char>)
    requires
        messages_wf(messages, next_id),
    ensures
        forall|i: int|
            0 <= i < messages.len() && (#[trigger] messages[i]).channel_id@ == cid
                ==> messages[i].server_sequence <= max_channel_seq(messages, cid),
        max_channel_seq(messages, cid) >= 0,
        max_channel_seq(messages, cid) <= MAX_SEQUENCE,
    decreases messages.len(),
{
    if messages.len() > 0 {
        assert(messages_wf(messages.drop_last(), next_id)) by {
            assert(forall|i: int|
                0 <= i < messages.len() - 1 ==> messages.drop_last()[i] == messages[i]);
        }
        lemma_max_seq(messages.drop_last(), next_id, cid);
        if messages.last().channel_id@ == cid {
            assert forall|i: int|
                0 <= i < messages.len() && (#[trigger] messages[i]).channel_id@ == cid implies
                messages[i].server_sequence <= max_channel_seq(messages, cid) by {
                if i < messages.len() - 1 {
                    assert(messages[i].server_sequence < messages.last().server_sequence);
                }
            }
        } else {
            assert forall|i: int|
                0 <= i < messages.len() && (#[trigger] messages[i]).channel_id@ == cid implies
                messages[i].server_sequence <= max_channel_seq(messages, cid) by {
                if i < messages.len() - 1 {
                    assert(messages.drop_last()[i] == messages[i]);
                }
            }
        }
    }
}

/// Read the next sequence for a channel: one more than the highest used.
pub fn next_sequence(db: &ServerDb, channel_id: &str) -> (r: i64)
    requires
        db.wf(),
    ensures
        r == max_channel_seq(db.messages@, channel_id@) + 1,
        1 <= r <= MAX_SEQUENCE + 1,
{
    let mut acc: i64 = 0;
    let mut i: usize = 0;
    let n = db.messages.len();
    proof {
        assert(db.messages@.take(0) =~= Seq::<Message>::empty());
        lemma_max_seq(db.messages@, db.next_message_id, channel_id@);
    }
    #[verifier::loop_isolation(false)]
    while i < n
        invariant
            i <= n,
            n == db.messages@.len(),
            acc == max_channel_seq(db.messages@.take(i as int), channel_id@),
            0 <= acc <= MAX_SEQUENCE,
        decreases n - i,
    {
        proof {
            assert(db.messages@.take(i as int + 1).drop_last() =~= db.messages@.take(i as int));
            assert(db.messages@.take(i as int + 1).last() == db.messages@[i as int]);
        }
        if str_eq(db.messages[i].channel_id.as_str(), channel_id) {
            acc = db.messages[i].server_sequence;
        }
        i = i + 1;
    }
    proof {
        assert(db.messages@.take(n as int) =~= db.messages@);
    }
    acc + 1
}

/// Append one message row under the next sequence of its channel,
/// assigning the next row id. This is the single write path shared by the
/// REST handler and the gossip ingest, which is what keeps the
/// per-channel sequence strictly increasing whatever the source.
pub fn append_message(
    db: &mut ServerDb,
    channel_id: &str,
    sender_pubkey: &str,
    message_type: i32,
    payload: Option<Vec<u8>>,
    timestamp: i64,
    sequence_hint: i64,
    signature: Vec<u8>,
    content_text: Option<String>,
    reply_to_id: Option<String>,
    now: i64,
) -> (r: Result<(i64, i64), ApiError>)
    requires
        old(db).wf(),
    ensures
        final(db).wf(),
        r is Ok <==> (max_channel_seq(old(db).messages@, channel_id@) < MAX_SEQUENCE && old(db).next_message_id < i64::MAX - 1),
        r matches Err(e) ==> e == ApiError::Internal && *final(db) == *old(db),
        r matches Ok((id, seq)) ==> {
            &&& seq == max_channel_seq(old(db).messages@, channel_id@) + 1
            &&& id == old(db).next_message_id
            &&& final(db).messages@.len() == old(db).messages@.len() + 1
            &&& final(db).messages@.take(old(db).messages@.len() as int) == old(db).messages@
            &&& {
                let m = final(db).messages@.last();
                &&& m.id == id
                &&& m.channel_id@ == channel_id@
                &&& m.sender_pubkey@ == sender_pubkey@
                &&& m.message_type == message_type
                &&& m.timestamp == timestamp
                &&& m.sequence_hint == sequence_hint
                &&& m.server_sequence == seq
                &&& (match content_text {
                    Some(c) => m.content_text matches Some(mc) && mc@ == c@,
                    None => m.content_text is None,
                })
                &&& !m.edited
                &&& !m.deleted
                &&& m.created_at == now
            }
            &&& forall|i: int, j: int|
                0 <= i < j < final(db).messages@.len() && (#[trigger] final(db).messages@[i]).channel_id@
                    == (#[trigger] final(db).messages@[j]).channel_id@ ==> final(db).messages@[i].server_sequence < final(db).messages@[j].server_sequence
        },
        final(db).users@ == old(db).users@,
        final(db).rotation_records@ == old(db).rotation_records@,
        final(db).refresh_tokens@ == old(db).refresh_tokens@,
        final(db).bans@ == old(db).bans@,
        final(db).invites@ == old(db).invites@,
        final(db).server_settings@ == old(db).server_settings@,
        final(db).channels@ == old(db).channels@,
        final(db).categories@ == old(db).categories@,
        final(db).roles@ == old(db).roles@,
        final(db).user_roles@ == old(db).user_roles@,
        final(db).identity_blobs@ == old(db).identity_blobs@,
        final(db).reactions@ == old(db).reactions@,
        final(db).last_read@ == old(db).last_read@,
        final(db).dm_conversations@ == old(db).dm_conversations@,
        final(db).dm_messages@ == old(db).dm_messages@,
        final(db).dm_public_keys@ == old(db).dm_public_keys@,
        final(db).dm_offline_queue@ == old(db).dm_offline_queue@,
        final(db).blocks@ == old(db).blocks@,
{
    let ghost db0 = *db;
    let seq = next_sequence(db, channel_id);
    if seq > MAX_SEQUENCE {
        return Err(ApiError::Internal);
    }
    if db.next_message_id >= i64::MAX - 1 {
        return Err(ApiError::Internal);
    }
    let id = db.next_message_id;
    let msg = Message {
        id,
        channel_id: String::from_str(channel_id),
        sender_pubkey: String::from_str(sender_pubkey),
        message_type,
        payload,
        timestamp,
        sequence_hint,
        server_sequence: seq,
        signature,
        created_at: now,
        content_text,
        edited: false,
        edit_timestamp: None,
        deleted: false,
        reply_to_id,
    };
    db.messages.push(msg);
    db.next_message_id = id + 1;
    proof {
        lemma_max_seq(db0.messages@, db0.next_message_id, channel_id@);
        assert(db.messages@.take(db0.messages@.len() as int) =~= db0.messages@);
        assert(messages_wf(db.messages@, db.next_message_id)) by {
            assert forall|i: int, j: int|
                0 <= i < j < db.messages@.len() && (#[trigger] db.messages@[i]).channel_id@
                    == (#[trigger] db.messages@[j]).channel_id@ implies db.messages@[i].server_sequence
                < db.messages@[j].server_sequence by {
                if j == db.messages@.len() - 1 {
                    assert(db.messages@[i] == db0.messages@[i]);
                }
            }
            assert forall|i: int, j: int|
                0 <= i < j < db.messages@.len() implies (#[trigger] db.messages@[i]).id
                < (#[trigger] db.messages@[j]).id by {
                if j == db.messages@.len() - 1 {
                    assert(db.messages@[i] == db0.messages@[i]);
                }
            }
        }
    }
    Ok((id, seq))
}


/// The text with leading whitespace removed.
pub open spec fn ltrim(s: Seq<char>) -> Seq<char>
    decreases s.len(),
{
    if s.len() > 0 && is_space(s[0]) {
        ltrim(s.drop_first())
    } else {
        s
    }
}

/// The text with trailing whitespace removed.
pub open spec fn rtrim(s: Seq<char>) -> Seq<char>
    decreases s.len(),
{
    if s.len() > 0 && is_space(s.last()) {
        rtrim(s.drop_last())
    } else {
        s
    }
}

/// The text with surrounding whitespace removed, as message content is
/// stored.
pub open spec fn trim_of(s: Seq<char>) -> Seq<char> {
    rtrim(ltrim(s))
}

proof fn lemma_ltrim_skip(s: Seq<char>, a: int)
    requires
        0 <= a <= s.len(),
        forall|j: int| 0 <= j < a ==> is_space(#[trigger] s[j]),
        a < s.len() ==> !is_space(s[a]),
    ensures
        ltrim(s) == s.skip(a),
    decreases a,
{
    if a == 0 {
        assert(s.skip(0) =~= s);
    } else {
        assert(is_space(s[0]));
        lemma_ltrim_skip(s.drop_first(), a - 1);
        assert(s.drop_first().skip(a - 1) =~= s.skip(a));
    }
}

proof fn lemma_rtrim_take(s: Seq<char>, b: int)
    requires
        0 <= b <= s.len(),
        forall|j: int| b <= j < s.len() ==> is_space(#[trigger] s[j]),
        b > 0 ==> !is_space(s[b - 1]),
    ensures
        rtrim(s) == s.take(b),
    decreases s.len(),
{
    if b == s.len() {
        assert(s.take(b) =~= s);
    } else {
        assert(is_space(s.last()));
        lemma_rtrim_take(s.drop_last(), b);
        assert(s.drop_last().take(b) =~= s.take(b));
    }
}

/// Remove surrounding whitespace, exactly as `trim_of` describes it.
pub fn trim(s: &str) -> (r: String)
    ensures
        r@ == trim_of(s@),
{
    let n = s.unicode_len();
    let mut a: usize = 0;
    #[verifier::loop_isolation(false)]
    while a < n
        invariant
            n == s@.len(),
            a <= n,
            forall|j: int| 0 <= j < a ==> is_space(#[trigger] s@[j]),
        decreases n - a,
    {
        let c = s.get_char(a);
        if !(c == ' ' || c == '\t' || c == '\n' || c == '\r') {
            break ;
        }
        a = a + 1;
    }
    if a == n {
        proof {
            lemma_ltrim_skip(s@, n as int);
            assert(s@.skip(n as int).len() == 0);
            assert(trim_of(s@) =~= Seq::<char>::empty());
        }
        return String::new();
    }
    let mut b: usize = n;
    #[verifier::loop_isolation(false)]
    while b > a + 1
        invariant
            n == s@.len(),
            a < b <= n,
            !is_space(s@[a as int]),
            forall|j: int| b <= j < n ==> is_space(#[trigger] s@[j]),
        decreases b,
    {
        let c = s.get_char(b - 1);
        if !(c == ' ' || c == '\t' || c == '\n' || c == '\r') {
            break ;
        }
        b = b - 1;
    }
    let piece = s.substring_char(a, b);
    let out = String::from_str(piece);
    proof {
        lemma_ltrim_skip(s@, a as int);
        assert(!is_space(s@[b as int - 1]));
        let tail = s@.skip(a as int);
        assert(forall|j: int|
            b - a <= j < tail.len() ==> is_space(#[trigger] tail[j]));
        assert(tail[b - a - 1] == s@[b as int - 1]);
        lemma_rtrim_take(tail, b as int - a as int);
        assert(tail.take(b as int - a as int) =~= s@.subrange(a as int, b as int));
    }
    out
}

/// Create a chat message: content is trimmed and must then be non-empty
/// and at most 4000 characters; the channel and the caller must exist;
/// the next sequence of the channel is assigned. Success is owed exactly
/// on those conditions (up to the sequence and row-id machine caps).
pub fn create_message(
    db: &mut ServerDb,
    user_id: &str,
    channel_id: &str,
    body: &CreateMessageRequest,
    now: i64,
) -> (r: Result<MessageResponse, ApiError>)
    requires
        old(db).wf(),
        0 <= now <= MAX_TIME_MS,
    ensures
        final(db).wf(),
        r matches Err(_) ==> *final(db) == *old(db),
        ({
            let content = trim_of(body.content@);
            &&& (content.len() == 0 ==> r == Err::<MessageResponse, ApiError>(ApiError::BadRequest))
            &&& (content.len() > MAX_CONTENT_LENGTH ==> r == Err::<MessageResponse, ApiError>(
                ApiError::PayloadTooLarge,
            ))
            &&& (0 < content.len() <= MAX_CONTENT_LENGTH && !crate::keyidx::has_key(
                old(db).channel_ids(),
                channel_id@,
            ) ==> r == Err::<MessageResponse, ApiError>(ApiError::NotFound))
            &&& (r is Ok <==> {
                &&& 0 < content.len() <= MAX_CONTENT_LENGTH
                &&& crate::keyidx::has_key(old(db).channel_ids(), channel_id@)
                &&& crate::keyidx::has_key(old(db).user_ids(), user_id@)
                &&& max_channel_seq(old(db).messages@, channel_id@) < MAX_SEQUENCE
                &&& old(db).next_message_id < i64::MAX - 1
            })
            &&& (r matches Ok(out) ==> {
                let u = old(db).users@[crate::keyidx::index_of(old(db).user_ids(), user_id@)];
                &&& out.server_sequence == max_channel_seq(old(db).messages@, channel_id@) + 1
                &&& out.content@ == content
                &&& out.channel_id@ == channel_id@
                &&& out.sender_pubkey@ == crate::hexcodec::hex_of(u.public_key@)
                &&& out.sender_display_name@ == u.display_name@
                &&& final(db).messages@.len() == old(db).messages@.len() + 1
                &&& final(db).messages@.take(old(db).messages@.len() as int) == old(db).messages@
                &&& final(db).messages@.last().server_sequence == out.server_sequence
                &&& final(db).messages@.last().channel_id@ == channel_id@
                &&& final(db).messages@.last().sender_pubkey@ == out.sender_pubkey@
                &&& final(db).messages@.last().content_text matches Some(c) && c@ == content
                &&& !final(db).messages@.last().deleted
            })
        }),
        final(db).users@ == old(db).users@,
        final(db).rotation_records@ == old(db).rotation_records@,
        final(db).refresh_tokens@ == old(db).refresh_tokens@,
        final(db).bans@ == old(db).bans@,
{
    let content = trim(body.content.as_str());
    if content.as_str().unicode_len() == 0 {
        return Err(ApiError::BadRequest);
    }
    if content.as_str().unicode_len() > MAX_CONTENT_LENGTH {
        return Err(ApiError::PayloadTooLarge);
    }
    match db.channel_idx_by_id(channel_id) {
        Some(ci) => {
            proof {
                assert(db.channel_ids()[ci as int] == channel_id@);
            }
        },
        None => {
            return Err(ApiError::NotFound);
        },
    }
    let uidx = match db.user_idx_by_id(user_id) {
        Some(i) => i,
        None => {
            return Err(ApiError::Internal);
        },
    };
    proof {
        assert(db.user_ids()[uidx as int] == user_id@);
        crate::keyidx::lemma_index_of_at(db.user_ids(), uidx as int);
    }
    let display_name = db.users[uidx].display_name.clone();
    let sender_pubkey = crate::hexcodec::hex_encode(&db.users[uidx].public_key);
    let reply = crate::util::opt_string_clone(&body.reply_to_id);
    let (id, seq) = match append_message(
        db,
        channel_id,
        sender_pubkey.as_str(),
        1,
        None,
        now,
        0,
        Vec::new(),
        Some(content.clone()),
        reply,
        now,
    ) {
        Ok(v) => v,
        Err(e) => {
            return Err(e);
        },
    };
    Ok(
        MessageResponse {
            id,
            channel_id: String::from_str(channel_id),
            sender_pubkey,
            sender_display_name: display_name,
            content,
            timestamp: now,
            server_sequence: seq,
            reply_to_id: crate::util::opt_string_clone(&body.reply_to_id),
            edited: false,
            reactions: Vec::new(),
        },
    )
}

fn blank_content(s: &str) -> (r: bool)
    ensures
        r == is_blank(s@),
{
    let n = s.unicode_len();
    let mut i: usize = 0;
    #[verifier::loop_isolation(false)]
    while i < n
        invariant
            n == s@.len(),
            i <= n,
            forall|j: int| 0 <= j < i ==> is_space(#[trigger] s@[j]),
        decreases n - i,
    {
        let c = s.get_char(i);
        if !(c == ' ' || c == '\t' || c == '\n' || c == '\r') {
            return false;
        }
        i = i + 1;
    }
    true
}

/// Whether a history row qualifies for a page: right channel, sequence
/// below the cutoff, not deleted.
pub open spec fn qualifies(messages: Seq<Message>, j: int, cid: Seq<char>, before: int) -> bool {
    &&& 0 <= j < messages.len()
    &&& messages[j].channel_id@ == cid
    &&& messages[j].server_sequence < before
    &&& !messages[j].deleted
}

/// A response entry faithfully rendering one message row.
pub open spec fn msg_matches(resp: MessageResponse, row: Message) -> bool {
    &&& resp.id == row.id
    &&& resp.server_sequence == row.server_sequence
    &&& resp.channel_id@ == row.channel_id@
    &&& resp.sender_pubkey@ == row.sender_pubkey@
    &&& resp.edited == row.edited
    &&& (match row.content_text {
        Some(c) => resp.content@ == c@,
        None => resp.content@.len() == 0,
    })
}

/// Whether a page entry faithfully renders some qualifying row.
pub open spec fn rendered_from(
    entry: MessageResponse,
    messages: Seq<Message>,
    cid: Seq<char>,
    before: int,
) -> bool {
    exists|j: int| qualifies(messages, j, cid, before) && msg_matches(entry, messages[j])
}

/// Whether a sequence number appears in a page.
pub open spec fn seq_in(out: Seq<MessageResponse>, s: i64) -> bool {
    exists|k: int| 0 <= k < out.len() && (#[trigger] out[k]).server_sequence == s
}

/// Paginated history of a channel, newest first: exactly the qualifying
/// rows with the highest sequences, up to the clamped limit, rendered
/// faithfully; `has_more` holds exactly when a qualifying row was left
/// out.
pub fn get_channel_messages(db: &ServerDb, channel_id: &str, query: &HistoryQuery) -> (r:
    HistoryResponse)
    requires
        db.wf(),
    ensures
        ({
            let before = (match query.before {
                Some(b) => b as int,
                None => MAX_SEQUENCE + 1,
            });
            let limit = (match query.limit {
                Some(l) => if l <= MAX_LIMIT {
                    l as int
                } else {
                    MAX_LIMIT as int
                },
                None => DEFAULT_LIMIT as int,
            });
            &&& r.messages@.len() <= limit
            &&& forall|k1: int, k2: int|
                0 <= k1 < k2 < r.messages@.len() ==> (#[trigger] r.messages@[k1]).server_sequence
                    > (#[trigger] r.messages@[k2]).server_sequence
            &&& forall|k: int|
                0 <= k < r.messages@.len() ==> rendered_from(
                    #[trigger] r.messages@[k],
                    db.messages@,
                    channel_id@,
                    before,
                )
            &&& forall|j: int|
                qualifies(db.messages@, j, channel_id@, before) ==> (seq_in(
                    r.messages@,
                    (#[trigger] db.messages@[j]).server_sequence,
                ) || r.has_more)
            &&& (r.has_more <==> exists|j: int|
                qualifies(db.messages@, j, channel_id@, before) && !seq_in(
                    r.messages@,
                    (#[trigger] db.messages@[j]).server_sequence,
                ))
            &&& (r.has_more ==> r.messages@.len() == limit)
        }),
{
    let before: i64 = match query.before {
        Some(b) => b,
        None => MAX_SEQUENCE + 1,
    };
    let limit: u32 = match query.limit {
        Some(l) => if l <= MAX_LIMIT {
            l
        } else {
            MAX_LIMIT
        },
        None => DEFAULT_LIMIT,
    };
    let mut out: Vec<MessageResponse> = Vec::new();
    let mut has_more = false;
    let n = db.messages.len();
    let mut i: usize = n;
    #[verifier::loop_isolation(false)]
    while i > 0
        invariant
            i <= n,
            n == db.messages@.len(),
            out@.len() <= limit as int,
            forall|k1: int, k2: int|
                0 <= k1 < k2 < out@.len() ==> (#[trigger] out@[k1]).server_sequence
                    > (#[trigger] out@[k2]).server_sequence,
            forall|k: int|
                0 <= k < out@.len() ==> exists|j: int|
                    i <= j < n && qualifies(db.messages@, j, channel_id@, before as int)
                        && msg_matches(#[trigger] out@[k], db.messages@[j]),
            forall|j: int|
                i <= j < n && qualifies(db.messages@, j, channel_id@, before as int) ==> (seq_in(
                    out@,
                    (#[trigger] db.messages@[j]).server_sequence,
                ) || has_more),
            has_more ==> out@.len() == limit as int,
            has_more ==> exists|j: int|
                i <= j < n && qualifies(db.messages@, j, channel_id@, before as int) && !seq_in(
                    out@,
                    (#[trigger] db.messages@[j]).server_sequence,
                ),
        decreases i,
    {
        i = i - 1;
        let ghost out0 = out@;
        let row = &db.messages[i];
        if str_eq(row.channel_id.as_str(), channel_id) && row.server_sequence < before
            && !row.deleted {
            proof {
                // every current entry renders a later row of the same
                // channel, whose sequence is strictly higher
                assert forall|k: int| 0 <= k < out0.len() implies (#[trigger] out0[k]).server_sequence
                    > db.messages@[i as int].server_sequence by {
                    let j = choose|j: int|
                        i + 1 <= j < n && qualifies(db.messages@, j, channel_id@, before as int)
                            && msg_matches(out0[k], db.messages@[j]);
                    assert(db.messages@[i as int].server_sequence
                        < db.messages@[j].server_sequence);
                }
            }
            if out.len() < limit as usize {
                let content = match &row.content_text {
                    Some(c) => c.clone(),
                    None => String::new(),
                };
                out.push(
                    MessageResponse {
                        id: row.id,
                        channel_id: row.channel_id.clone(),
                        sender_pubkey: row.sender_pubkey.clone(),
                        sender_display_name: String::new(),
                        content,
                        timestamp: row.timestamp,
                        server_sequence: row.server_sequence,
                        reply_to_id: crate::util::opt_string_clone(&row.reply_to_id),
                        edited: row.edited,
                        reactions: Vec::new(),
                    },
                );
                proof {
                    assert(msg_matches(out@.last(), db.messages@[i as int]));
                    assert(seq_in(out@, db.messages@[i as int].server_sequence));
                    assert(!has_more);
                    assert forall|j: int|
                        i <= j < n && qualifies(db.messages@, j, channel_id@, before as int)
                        implies (seq_in(out@, (#[trigger] db.messages@[j]).server_sequence)
                        || has_more) by {
                        if j > i && seq_in(out0, db.messages@[j].server_sequence) {
                            let k = choose|k: int|
                                0 <= k < out0.len() && (#[trigger] out0[k]).server_sequence
                                    == db.messages@[j].server_sequence;
                            assert(out@[k].server_sequence == db.messages@[j].server_sequence);
                        }
                    }
                }
            } else {
                has_more = true;
                proof {
                    assert(!seq_in(out@, db.messages@[i as int].server_sequence));
                }
            }
        } else {
            proof {
                if has_more {
                    let j = choose|j: int|
                        i + 1 <= j < n && qualifies(db.messages@, j, channel_id@, before as int)
                            && !seq_in(out@, (#[trigger] db.messages@[j]).server_sequence);
                    assert(i <= j < n);
                }
            }
        }
        proof {
            assert forall|k: int|
                0 <= k < out@.len() implies exists|j: int|
                i <= j < n && qualifies(db.messages@, j, channel_id@, before as int) && msg_matches(
                    #[trigger] out@[k],
                    db.messages@[j],
                ) by {
                if k < out0.len() {
                    let j = choose|j: int|
                        i + 1 <= j < n && qualifies(db.messages@, j, channel_id@, before as int)
                            && msg_matches(#[trigger] out0[k], db.messages@[j]);
                    assert(out@[k] == out0[k]);
                    assert(i <= j < n && qualifies(db.messages@, j, channel_id@, before as int)
                        && msg_matches(out@[k], db.messages@[j]));
                } else {
                    assert(msg_matches(out@[k], db.messages@[i as int]));
                    assert(qualifies(db.messages@, i as int, channel_id@, before as int));
                }
            }
        }
    }
    proof {
        if !has_more {
            assert forall|j: int|
                qualifies(db.messages@, j, channel_id@, before as int) implies seq_in(
                out@,
                (#[trigger] db.messages@[j]).server_sequence,
            ) by {}
        }
        assert forall|k: int|
            0 <= k < out@.len() implies rendered_from(
            #[trigger] out@[k],
            db.messages@,
            channel_id@,
            before as int,
        ) by {
            let j = choose|j: int|
                i <= j < n && qualifies(db.messages@, j, channel_id@, before as int)
                    && msg_matches(#[trigger] out@[k], db.messages@[j]);
            assert(qualifies(db.messages@, j, channel_id@, before as int) && msg_matches(
                out@[k],
                db.messages@[j],
            ));
        }
    }
    HistoryResponse { messages: out, has_more }
}

/// Whether some row is the live target of an edit or delete: the given
/// id, in the given channel, not yet deleted. Row ids are unique, so at
/// most one row qualifies.
pub open spec fn live_row_at(messages: Seq<Message>, j: int, mid: i64, cid: Seq<char>) -> bool {
    &&& 0 <= j < messages.len()
    &&& messages[j].id == mid
    &&& messages[j].channel_id@ == cid
    &&& !messages[j].deleted
}

/// Edit a message: only its sender may, the target must exist undeleted
/// in the named channel, and the trimmed text must be non-empty and
/// within the length cap; sets the new text and the edited flag. Success
/// is owed exactly on those conditions.
pub fn edit_message(
    db: &mut ServerDb,
    user_id: &str,
    channel_id: &str,
    message_id: i64,
    body: &EditMessageRequest,
    now: i64,
) -> (r: Result<(), ApiError>)
    requires
        old(db).wf(),
    ensures
        final(db).wf(),
        r matches Err(_) ==> *final(db) == *old(db),
        ({
            let content = trim_of(body.content@);
            let caller = crate::keyidx::has_key(old(db).user_ids(), user_id@);
            let target = exists|j: int| live_row_at(old(db).messages@, j, message_id, channel_id@);
            let sender_ok = exists|j: int|
                live_row_at(old(db).messages@, j, message_id, channel_id@)
                    && (#[trigger] old(db).messages@[j]).sender_pubkey@
                    == crate::hexcodec::hex_of(
                    old(db).users@[crate::keyidx::index_of(old(db).user_ids(), user_id@)].public_key@,
                );
            &&& (content.len() == 0 ==> r == Err::<(), ApiError>(ApiError::BadRequest))
            &&& (content.len() > MAX_CONTENT_LENGTH ==> r == Err::<(), ApiError>(
                ApiError::PayloadTooLarge,
            ))
            &&& (r is Ok <==> (0 < content.len() <= MAX_CONTENT_LENGTH && caller && sender_ok))
            &&& (0 < content.len() <= MAX_CONTENT_LENGTH && caller && !target ==> r == Err::<
                (),
                ApiError,
            >(ApiError::NotFound))
            &&& (0 < content.len() <= MAX_CONTENT_LENGTH && caller && target && !sender_ok ==> r
                == Err::<(), ApiError>(ApiError::Forbidden))
            &&& (r is Ok ==> exists|i: int|
                {
                    &&& live_row_at(old(db).messages@, i, message_id, channel_id@)
                    &&& final(db).messages@.len() == old(db).messages@.len()
                    &&& (#[trigger] final(db).messages@[i]).content_text matches Some(c) && c@
                        == content
                    &&& final(db).messages@[i].edited
                    &&& final(db).messages@[i].server_sequence == old(db).messages@[i].server_sequence
                    &&& !final(db).messages@[i].deleted
                    &&& forall|j: int|
                        0 <= j < old(db).messages@.len() && j != i ==> final(db).messages@[j]
                            == old(db).messages@[j]
                })
        }),
        final(db).users@ == old(db).users@,
        final(db).refresh_tokens@ == old(db).refresh_tokens@,
        final(db).rotation_records@ == old(db).rotation_records@,
        final(db).bans@ == old(db).bans@,
{
    let ghost db0 = *db;
    let content = trim(body.content.as_str());
    if content.as_str().unicode_len() == 0 {
        return Err(ApiError::BadRequest);
    }
    if content.as_str().unicode_len() > MAX_CONTENT_LENGTH {
        return Err(ApiError::PayloadTooLarge);
    }
    let uidx = match db.user_idx_by_id(user_id) {
        Some(i) => i,
        None => {
            return Err(ApiError::Internal);
        },
    };
    proof {
        assert(db.user_ids()[uidx as int] == user_id@);
        crate::keyidx::lemma_index_of_at(db.user_ids(), uidx as int);
    }
    let sender_pubkey = crate::hexcodec::hex_encode(&db.users[uidx].public_key);
    let mut i: usize = 0;
    let n = db.messages.len();
    #[verifier::loop_isolation(false)]
    while i < n
        invariant
            *db == db0,
            n == db.messages@.len(),
            i <= n,
            forall|j: int| 0 <= j < i ==> (#[trigger] db.messages@[j]).id != message_id,
        decreases n - i,
    {
        let row = &db.messages[i];
        if row.id == message_id {
            proof {
                assert forall|j: int|
                    0 <= j < db.messages@.len() && j != i implies (#[trigger] db.messages@[j]).id
                    != message_id by {
                    if j < i {
                        assert(db.messages@[j].id < db.messages@[i as int].id);
                    } else {
                        assert(db.messages@[i as int].id < db.messages@[j].id);
                    }
                }
            }
            if !str_eq(row.channel_id.as_str(), channel_id) || row.deleted {
                return Err(ApiError::NotFound);
            }
            if !str_eq(row.sender_pubkey.as_str(), sender_pubkey.as_str()) {
                proof {
                    assert(live_row_at(db0.messages@, i as int, message_id, channel_id@));
                }
                return Err(ApiError::Forbidden);
            }
            let updated = Message {
                id: row.id,
                channel_id: row.channel_id.clone(),
                sender_pubkey: row.sender_pubkey.clone(),
                message_type: row.message_type,
                payload: crate::util::opt_bytes_clone(&row.payload),
                timestamp: row.timestamp,
                sequence_hint: row.sequence_hint,
                server_sequence: row.server_sequence,
                signature: crate::util::bytes_clone(&row.signature),
                created_at: row.created_at,
                content_text: Some(content),
                edited: true,
                edit_timestamp: Some(now),
                deleted: false,
                reply_to_id: crate::util::opt_string_clone(&row.reply_to_id),
            };
            db.messages.set(i, updated);
            proof {
                lemma_message_update_wf(db0, *db, i as int);
                assert(live_row_at(db0.messages@, i as int, message_id, channel_id@));
            }
            return Ok(());
        }
        i = i + 1;
    }
    Err(ApiError::NotFound)
}

/// Soft-delete a message: the sender, an admin or the owner may; the
/// target must exist undeleted in the named channel; the row stays as a
/// tombstone. Success is owed exactly on those conditions.
pub fn delete_message(
    db: &mut ServerDb,
    user_id: &str,
    is_owner: bool,
    is_admin: bool,
    channel_id: &str,
    message_id: i64,
) -> (r: Result<(), ApiError>)
    requires
        old(db).wf(),
    ensures
        final(db).wf(),
        r matches Err(_) ==> *final(db) == *old(db),
        ({
            let caller = crate::keyidx::has_key(old(db).user_ids(), user_id@);
            let target = exists|j: int| live_row_at(old(db).messages@, j, message_id, channel_id@);
            let permitted = is_owner || is_admin || exists|j: int|
                live_row_at(old(db).messages@, j, message_id, channel_id@)
                    && (#[trigger] old(db).messages@[j]).sender_pubkey@
                    == crate::hexcodec::hex_of(
                    old(db).users@[crate::keyidx::index_of(old(db).user_ids(), user_id@)].public_key@,
                );
            &&& (r is Ok <==> (caller && target && permitted))
            &&& (caller && !target ==> r == Err::<(), ApiError>(ApiError::NotFound))
            &&& (caller && target && !permitted ==> r == Err::<(), ApiError>(ApiError::Forbidden))
            &&& (r is Ok ==> exists|i: int|
                {
                    &&& live_row_at(old(db).messages@, i, message_id, channel_id@)
                    &&& final(db).messages@.len() == old(db).messages@.len()
                    &&& (#[trigger] final(db).messages@[i]).deleted
                    &&& final(db).messages@[i].server_sequence == old(db).messages@[i].server_sequence
                    &&& forall|j: int|
                        0 <= j < old(db).messages@.len() && j != i ==> final(db).messages@[j]
                            == old(db).messages@[j]
                })
        }),
        final(db).users@ == old(db).users@,
        final(db).refresh_tokens@ == old(db).refresh_tokens@,
        final(db).rotation_records@ == old(db).rotation_records@,
        final(db).bans@ == old(db).bans@,
{
    let ghost db0 = *db;
    let uidx = match db.user_idx_by_id(user_id) {
        Some(i) => i,
        None => {
            return Err(ApiError::Internal);
        },
    };
    proof {
        assert(db.user_ids()[uidx as int] == user_id@);
        crate::keyidx::lemma_index_of_at(db.user_ids(), uidx as int);
    }
    let sender_pubkey = crate::hexcodec::hex_encode(&db.users[uidx].public_key);
    let mut i: usize = 0;
    let n = db.messages.len();
    #[verifier::loop_isolation(false)]
    while i < n
        invariant
            *db == db0,
            n == db.messages@.len(),
            i <= n,
            forall|j: int| 0 <= j < i ==> (#[trigger] db.messages@[j]).id != message_id,
        decreases n - i,
    {
        let row = &db.messages[i];
        if row.id == message_id {
            proof {
                assert forall|j: int|
                    0 <= j < db.messages@.len() && j != i implies (#[trigger] db.messages@[j]).id
                    != message_id by {
                    if j < i {
                        assert(db.messages@[j].id < db.messages@[i as int].id);
                    } else {
                        assert(db.messages@[i as int].id < db.messages@[j].id);
                    }
                }
            }
            if !str_eq(row.channel_id.as_str(), channel_id) || row.deleted {
                return Err(ApiError::NotFound);
            }
            if !str_eq(row.sender_pubkey.as_str(), sender_pubkey.as_str()) && !is_owner
                && !is_admin {
                proof {
                    assert(live_row_at(db0.messages@, i as int, message_id, channel_id@));
                }
                return Err(ApiError::Forbidden);
            }
            let updated = Message {
                id: row.id,
                channel_id: row.channel_id.clone(),
                sender_pubkey: row.sender_pubkey.clone(),
                message_type: row.message_type,
                payload: crate::util::opt_bytes_clone(&row.payload),
                timestamp: row.timestamp,
                sequence_hint: row.sequence_hint,
                server_sequence: row.server_sequence,
                signature: crate::util::bytes_clone(&row.signature),
                created_at: row.created_at,
                content_text: crate::util::opt_string_clone(&row.content_text),
                edited: row.edited,
                edit_timestamp: row.edit_timestamp,
                deleted: true,
                reply_to_id: crate::util::opt_string_clone(&row.reply_to_id),
            };
            db.messages.set(i, updated);
            proof {
                lemma_message_update_wf(db0, *db, i as int);
                assert(live_row_at(db0.messages@, i as int, message_id, channel_id@));
            }
            return Ok(());
        }
        i = i + 1;
    }
    Err(ApiError::NotFound)
}

/// Replacing one row while keeping id, channel and sequence preserves the
/// message invariant.
proof fn lemma_message_update_wf(pre: ServerDb, post: ServerDb, i: int)
    requires
        pre.wf(),
        0 <= i < pre.messages@.len(),
        post.messages@.len() == pre.messages@.len(),
        forall|j: int|
            0 <= j < pre.messages@.len() && j != i ==> post.messages@[j] == pre.messages@[j],
        post.messages@[i].id == pre.messages@[i].id,
        post.messages@[i].channel_id@ == pre.messages@[i].channel_id@,
        post.messages@[i].server_sequence == pre.messages@[i].server_sequence,
        post.next_message_id == pre.next_message_id,
        post.users@ == pre.users@,
        post.rotation_records@ == pre.rotation_records@,
        post.refresh_tokens@ == pre.refresh_tokens@,
        post.server_settings@ == pre.server_settings@,
        post.invites@ == pre.invites@,
        post.bans@ == pre.bans@,
        post.channels@ == pre.channels@,
        post.categories@ == pre.categories@,
        post.roles@ == pre.roles@,
        post.user_roles@ == pre.user_roles@,
        post.identity_blobs@ == pre.identity_blobs@,
        post.reactions@ == pre.reactions@,
        post.last_read@ == pre.last_read@,
        post.dm_conversations@ == pre.dm_conversations@,
        post.dm_messages@ == pre.dm_messages@,
        post.dm_public_keys@ == pre.dm_public_keys@,
        post.dm_offline_queue@ == pre.dm_offline_queue@,
        post.blocks@ == pre.blocks@,
    ensures
        post.wf(),
{
    assert(post.user_ids() =~= pre.user_ids());
    assert(post.user_fps() =~= pre.user_fps());
    assert(post.user_names() =~= pre.user_names());
    assert(post.record_fps() =~= pre.record_fps());
    assert forall|a: int, b: int|
        0 <= a < b < post.messages@.len() && (#[trigger] post.messages@[a]).channel_id@
            == (#[trigger] post.messages@[b]).channel_id@ implies post.messages@[a].server_sequence
        < post.messages@[b].server_sequence by {
        assert(post.messages@[a].channel_id@ == pre.messages@[a].channel_id@);
        assert(post.messages@[b].channel_id@ == pre.messages@[b].channel_id@);
        assert(post.messages@[a].server_sequence == pre.messages@[a].server_sequence);
        assert(post.messages@[b].server_sequence == pre.messages@[b].server_sequence);
    }
    assert forall|a: int, b: int|
        0 <= a < b < post.messages@.len() implies (#[trigger] post.messages@[a]).id
        < (#[trigger] post.messages@[b]).id by {
        assert(post.messages@[a].id == pre.messages@[a].id);
        assert(post.messages@[b].id == pre.messages@[b].id);
    }
    assert forall|a: int| 0 <= a < post.messages@.len() implies (#[trigger] post.messages@[a]).id
        < post.next_message_id by {
        assert(post.messages@[a].id == pre.messages@[a].id);
    }
    assert forall|a: int|
        0 <= a < post.messages@.len() implies 0 <= (#[trigger] post.messages@[a]).server_sequence
        <= MAX_SEQUENCE by {
        assert(post.messages@[a].server_sequence == pre.messages@[a].server_sequence);
    }
}

/// Record a reaction: the message must exist undeleted; the (message,
/// user, emoji) triple is unique and a repeated insert changes nothing.
/// Success is owed exactly when the message exists (up to the row-id
/// machine cap).
pub fn add_reaction(db: &mut ServerDb, user_pubkey: &str, message_id: i64, emoji: &str, now: i64) -> (r:
    Result<(), ApiError>)
    requires
        old(db).wf(),
    ensures
        final(db).wf(),
        r matches Err(_) ==> *final(db) == *old(db),
        ({
            let msg = exists|j: int|
                0 <= j < old(db).messages@.len() && (#[trigger] old(db).messages@[j]).id
                    == message_id && !old(db).messages@[j].deleted;
            let triple = exists|j: int|
                0 <= j < old(db).reactions@.len() && (#[trigger] old(db).reactions@[j]).message_id
                    == message_id && old(db).reactions@[j].user_pubkey@ == user_pubkey@ && old(
                    db,
                ).reactions@[j].emoji@ == emoji@;
            &&& (r is Ok <==> (msg && (triple || old(db).next_reaction_id < i64::MAX)))
            &&& (!msg ==> r == Err::<(), ApiError>(ApiError::NotFound))
            &&& (r is Ok && triple ==> *final(db) == *old(db))
            &&& (r is Ok && !triple ==> {
                &&& final(db).reactions@.len() == old(db).reactions@.len() + 1
                &&& final(db).reactions@.take(old(db).reactions@.len() as int) == old(db).reactions@
                &&& final(db).reactions@.last().message_id == message_id
                &&& final(db).reactions@.last().user_pubkey@ == user_pubkey@
                &&& final(db).reactions@.last().emoji@ == emoji@
            })
        }),
        final(db).messages@ == old(db).messages@,
        final(db).users@ == old(db).users@,
        final(db).refresh_tokens@ == old(db).refresh_tokens@,
        final(db).rotation_records@ == old(db).rotation_records@,
        final(db).bans@ == old(db).bans@,
{
    let ghost db0 = *db;
    let mut exists_msg = false;
    let mut i: usize = 0;
    let n = db.messages.len();
    #[verifier::loop_isolation(false)]
    while i < n
        invariant
            *db == db0,
            n == db.messages@.len(),
            i <= n,
            exists_msg <==> exists|j: int|
                0 <= j < i && (#[trigger] db.messages@[j]).id == message_id
                    && !db.messages@[j].deleted,
        decreases n - i,
    {
        if db.messages[i].id == message_id && !db.messages[i].deleted {
            exists_msg = true;
        }
        i = i + 1;
    }
    if !exists_msg {
        return Err(ApiError::NotFound);
    }
    let mut k: usize = 0;
    let m = db.reactions.len();
    #[verifier::loop_isolation(false)]
    while k < m
        invariant
            *db == db0,
            m == db.reactions@.len(),
            k <= m,
            forall|j: int|
                0 <= j < k ==> !((#[trigger] db.reactions@[j]).message_id == message_id
                    && db.reactions@[j].user_pubkey@ == user_pubkey@ && db.reactions@[j].emoji@
                    == emoji@),
        decreases m - k,
    {
        let rx = &db.reactions[k];
        if rx.message_id == message_id && str_eq(rx.user_pubkey.as_str(), user_pubkey) && str_eq(
            rx.emoji.as_str(),
            emoji,
        ) {
            proof {
                assert(db.reactions@[k as int].message_id == message_id);
            }
            return Ok(());
        }
        k = k + 1;
    }
    let id = db.next_reaction_id;
    if id == i64::MAX {
        return Err(ApiError::Internal);
    }
    db.reactions.push(
        Reaction {
            id,
            message_id,
            user_pubkey: String::from_str(user_pubkey),
            emoji: String::from_str(emoji),
            created_at: now,
        },
    );
    db.next_reaction_id = id + 1;
    proof {
        assert(db.reactions@.last().message_id == message_id);
        assert(db.reactions@.take(db0.reactions@.len() as int) =~= db0.reactions@);
        assert forall|x: int, y: int|
            0 <= x < y < db.reactions@.len() implies !((#[trigger] db.reactions@[x]).message_id
            == (#[trigger] db.reactions@[y]).message_id && db.reactions@[x].user_pubkey@
            == db.reactions@[y].user_pubkey@ && db.reactions@[x].emoji@
            == db.reactions@[y].emoji@) by {
            if y == db.reactions@.len() - 1 {
                assert(db.reactions@[x] == db0.reactions@[x]);
            }
        }
    }
    Ok(())
}

/// Remove the caller's own reaction; absent reactions are not found.
pub fn remove_reaction(db: &mut ServerDb, user_pubkey: &str, message_id: i64, emoji: &str) -> (r:
    Result<(), ApiError>)
    requires
        old(db).wf(),
    ensures
        final(db).wf(),
        r matches Err(e) ==> e == ApiError::NotFound && *final(db) == *old(db),
        r is Ok ==> final(db).reactions@.len() == old(db).reactions@.len() - 1,
        forall|i: int|
            0 <= i < final(db).reactions@.len() ==> old(db).reactions@.contains(
                #[trigger] final(db).reactions@[i],
            ),
        final(db).messages@ == old(db).messages@,
        final(db).users@ == old(db).users@,
        final(db).refresh_tokens@ == old(db).refresh_tokens@,
        final(db).rotation_records@ == old(db).rotation_records@,
        final(db).bans@ == old(db).bans@,
{
    let ghost db0 = *db;
    let mut k: usize = 0;
    let m = db.reactions.len();
    #[verifier::loop_isolation(false)]
    while k < m
        invariant
            *db == db0,
            m == db.reactions@.len(),
            k <= m,
        decreases m - k,
    {
        let rx = &db.reactions[k];
        if rx.message_id == message_id && str_eq(rx.user_pubkey.as_str(), user_pubkey) && str_eq(
            rx.emoji.as_str(),
            emoji,
        ) {
            db.reactions.remove(k);
            proof {
                assert forall|i: int|
                    0 <= i < db.reactions@.len() implies db0.reactions@.contains(
                    #[trigger] db.reactions@[i],
                ) by {
                    if i < k {
                        assert(db.reactions@[i] == db0.reactions@[i]);
                    } else {
                        assert(db.reactions@[i] == db0.reactions@[i + 1]);
                    }
                }
            }
            return Ok(());
        }
        k = k + 1;
    }
    Err(ApiError::NotFound)
}

/// Upsert the caller's read position in a channel.
pub fn update_last_read(db: &mut ServerDb, user_id: &str, channel_id: &str, last_sequence: i64, now: i64)
    requires
        old(db).wf(),
    ensures
        final(db).wf(),
        exists|i: int|
            {
                &&& 0 <= i < final(db).last_read@.len()
                &&& (#[trigger] final(db).last_read@[i]).user_id@ == user_id@
                &&& final(db).last_read@[i].channel_id@ == channel_id@
                &&& final(db).last_read@[i].last_sequence == last_sequence
            },
        // every other (user, channel) position is untouched
        (exists|i: int|
            {
                &&& 0 <= i < old(db).last_read@.len()
                &&& (#[trigger] old(db).last_read@[i]).user_id@ == user_id@
                &&& old(db).last_read@[i].channel_id@ == channel_id@
                &&& final(db).last_read@.len() == old(db).last_read@.len()
                &&& forall|j: int|
                    0 <= j < old(db).last_read@.len() && j != i ==> final(db).last_read@[j] == old(db).last_read@[j]
            }) || (final(db).last_read@.len() == old(db).last_read@.len() + 1 && final(db).last_read@.take(
            old(db).last_read@.len() as int,
        ) == old(db).last_read@),
        final(db).messages@ == old(db).messages@,
        final(db).users@ == old(db).users@,
        final(db).refresh_tokens@ == old(db).refresh_tokens@,
        final(db).rotation_records@ == old(db).rotation_records@,
        final(db).bans@ == old(db).bans@,
{
    let ghost db0 = *db;
    let mut k: usize = 0;
    let m = db.last_read.len();
    #[verifier::loop_isolation(false)]
    while k < m
        invariant
            *db == db0,
            m == db.last_read@.len(),
            k <= m,
            forall|j: int|
                0 <= j < k ==> !((#[trigger] db.last_read@[j]).user_id@ == user_id@
                    && db.last_read@[j].channel_id@ == channel_id@),
        decreases m - k,
    {
        let row = &db.last_read[k];
        if str_eq(row.user_id.as_str(), user_id) && str_eq(row.channel_id.as_str(), channel_id) {
            db.last_read.set(
                k,
                LastRead {
                    user_id: String::from_str(user_id),
                    channel_id: String::from_str(channel_id),
                    last_sequence,
                    updated_at: now,
                },
            );
            proof {
                assert(db.last_read@[k as int].user_id@ == user_id@);
                assert(db0.last_read@[k as int].user_id@ == user_id@);
            }
            return ;
        }
        k = k + 1;
    }
    db.last_read.push(
        LastRead {
            user_id: String::from_str(user_id),
            channel_id: String::from_str(channel_id),
            last_sequence,
            updated_at: now,
        },
    );
    proof {
        assert(db.last_read@.last().user_id@ == user_id@);
        assert(db.last_read@.take(db0.last_read@.len() as int) =~= db0.last_read@);
    }
}

/// The caller's read position in a channel, zero when never set.
pub fn get_last_read(db: &ServerDb, user_id: &str, channel_id: &str) -> (r: LastReadResponse)
    ensures
        (exists|i: int|
            0 <= i < db.last_read@.len() && (#[trigger] db.last_read@[i]).user_id@ == user_id@
                && db.last_read@[i].channel_id@ == channel_id@ && db.last_read@[i].last_sequence
                == r.last_sequence) || (r.last_sequence == 0 && forall|i: int|
            0 <= i < db.last_read@.len() ==> !((#[trigger] db.last_read@[i]).user_id@ == user_id@
                && db.last_read@[i].channel_id@ == channel_id@)),
{
    let mut k: usize = 0;
    let m = db.last_read.len();
    #[verifier::loop_isolation(false)]
    while k < m
        invariant
            m == db.last_read@.len(),
            k <= m,
            forall|i: int|
                0 <= i < k ==> !((#[trigger] db.last_read@[i]).user_id@ == user_id@
                    && db.last_read@[i].channel_id@ == channel_id@),
        decreases m - k,
    {
        let row = &db.last_read[k];
        if str_eq(row.user_id.as_str(), user_id) && str_eq(row.channel_id.as_str(), channel_id) {
            return LastReadResponse { last_sequence: row.last_sequence };
        }
        k = k + 1;
    }
    LastReadResponse { last_sequence: 0 }
}

/// Ids mentioned as `@user:<id>` in whitespace-split tokens.
pub fn parse_user_mentions(content: &str) -> (r: Vec<String>)
    ensures
        forall|k: int| 0 <= k < r@.len() ==> (#[trigger] r@[k])@.len() > 0,
{
    parse_mentions_with_tag(content, "@user:")
}

/// Ids mentioned as `@role:<id>` in whitespace-split tokens.
pub fn parse_role_mentions(content: &str) -> (r: Vec<String>)
    ensures
        forall|k: int| 0 <= k < r@.len() ==> (#[trigger] r@[k])@.len() > 0,
{
    parse_mentions_with_tag(content, "@role:")
}

fn parse_mentions_with_tag(content: &str, tag: &str) -> (r: Vec<String>)
    ensures
        forall|k: int| 0 <= k < r@.len() ==> (#[trigger] r@[k])@.len() > 0,
{
    let mut out: Vec<String> = Vec::new();
    let n = content.unicode_len();
    let tag_len = tag.unicode_len();
    let mut i: usize = 0;
    #[verifier::loop_isolation(false)]
    while i < n
        invariant
            n == content@.len(),
            tag_len == tag@.len(),
            i <= n,
            forall|k: int| 0 <= k < out@.len() ==> (#[trigger] out@[k])@.len() > 0,
        decreases n - i,
    {
        // token start: beginning of text or after whitespace
        let at_start = if i == 0 {
            true
        } else {
            let p = content.get_char(i - 1);
            p == ' ' || p == '\t' || p == '\n' || p == '\r'
        };
        let c = content.get_char(i);
        let is_ws = c == ' ' || c == '\t' || c == '\n' || c == '\r';
        if at_start && !is_ws {
            // find token end
            let mut j: usize = i;
            #[verifier::loop_isolation(false)]
            while j < n
                invariant
                    i <= j <= n,
                    n == content@.len(),
                decreases n - j,
            {
                let cj = content.get_char(j);
                if cj == ' ' || cj == '\t' || cj == '\n' || cj == '\r' {
                    break ;
                }
                j = j + 1;
            }
            if j - i > tag_len {
                let head = content.substring_char(i, i + tag_len);
                if crate::util::str_eq(head, tag) {
                    let id = content.substring_char(i + tag_len, j);
                    out.push(String::from_str(id));
                }
            }
            i = j;
        } else {
            i = i + 1;
        }
    }
    out
}


/// The reactions of one message, grouped per emoji with the reacting
/// public keys.
pub fn get_reactions(db: &ServerDb, message_id: i64) -> (r: Vec<ReactionGroupResponse>)
    ensures
        forall|g: int| 0 <= g < r@.len() ==> (#[trigger] r@[g]).count == r@[g].user_pubkeys@.len(),
{
    let mut out: Vec<ReactionGroupResponse> = Vec::new();
    let mut i: usize = 0;
    let n = db.reactions.len();
    #[verifier::loop_isolation(false)]
    while i < n
        invariant
            n == db.reactions@.len(),
            i <= n,
            forall|g: int|
                0 <= g < out@.len() ==> (#[trigger] out@[g]).count == out@[g].user_pubkeys@.len(),
        decreases n - i,
    {
        let rx = &db.reactions[i];
        if rx.message_id == message_id {
            let mut found: Option<usize> = None;
            let mut g: usize = 0;
            let m = out.len();
            #[verifier::loop_isolation(false)]
            while g < m
                invariant
                    m == out@.len(),
                    g <= m,
                    0 <= (i as int) < db.reactions@.len(),
                    match found {
                        Some(f) => (f as int) < m,
                        None => true,
                    },
                    forall|q: int|
                        0 <= q < out@.len() ==> (#[trigger] out@[q]).count
                            == out@[q].user_pubkeys@.len(),
                decreases m - g,
            {
                if str_eq(out[g].emoji.as_str(), db.reactions[i].emoji.as_str()) {
                    if found.is_none() {
                        found = Some(g);
                    }
                }
                g = g + 1;
            }
            match found {
                Some(f) => {
                    if out[f].count < i64::MAX && out[f].user_pubkeys.len() < usize::MAX {
                        let mut keys = clone_string_vec(&out[f].user_pubkeys);
                        keys.push(rx.user_pubkey.clone());
                        let count = keys.len();
                        let emoji = out[f].emoji.clone();
                        out.set(
                            f,
                            ReactionGroupResponse { emoji, count: count as i64, user_pubkeys: keys },
                        );
                    }
                },
                None => {
                    let mut keys: Vec<String> = Vec::new();
                    keys.push(rx.user_pubkey.clone());
                    out.push(
                        ReactionGroupResponse {
                            emoji: rx.emoji.clone(),
                            count: 1,
                            user_pubkeys: keys,
                        },
                    );
                },
            }
        }
        i = i + 1;
    }
    out
}

fn clone_string_vec(v: &Vec<String>) -> (r: Vec<String>)
    ensures
        r@.len() == v@.len(),
{
    let mut out: Vec<String> = Vec::new();
    let mut i: usize = 0;
    #[verifier::loop_isolation(false)]
    while i < v.len()
        invariant
            i <= v@.len(),
            out@.len() == i,
        decreases v@.len() - i,
    {
        out.push(v[i].clone());
        i = i + 1;
    }
    out
}

} // verus!
