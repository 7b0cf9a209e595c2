//! Gossipsub integration: the signed envelope's canonical bytes, topic
//! parsing, signature verification, and persistence of remote messages
//! under the same per-channel sequencing as local writes. The protobuf
//! framing itself lives at the transport edge.

use vstd::prelude::*;
use crate::chat::{append_message, max_channel_seq};
use crate::errors::ApiError;
use crate::hexcodec::hex_encode;
use crate::state::{ServerDb, MAX_TIME_MS, MAX_SEQUENCE};
use crate::trusted::{ed_check_key, ed_key_valid, ed_verify, ed_verifies, ed_sign, ed_sig_of,
    ed_pubkey_of};
use vstd::string::StringSliceAdditionalSpecFns;

verus! {

/// A gossip envelope, as carried by the mesh.
pub struct GossipEnvelope {
    pub sender_pubkey: Vec<u8>,
    pub signature: Vec<u8>,
    pub topic: String,
    pub message_type: i32,
    pub timestamp: u64,
    pub sequence_hint: u64,
    pub payload: Vec<u8>,
}

/// Errors of envelope handling; invalid envelopes are dropped, never
/// fatal.
#[derive(PartialEq, Eq, Structural, Clone, Copy, Debug)]
pub enum EnvelopeError {
    InvalidPublicKey,
    InvalidSignature,
    InvalidTopic,
    DbError,
}

impl EnvelopeError {
    /// A short description of the error.
    pub fn message(&self) -> (r: &'static str)
        ensures
            r@.len() > 0,
    {
        proof {
            reveal_strlit("invalid Ed25519 public key");
            reveal_strlit("invalid Ed25519 signature");
            reveal_strlit("invalid topic");
            reveal_strlit("database error");
        }
        match self {
            EnvelopeError::InvalidPublicKey => "invalid Ed25519 public key",
            EnvelopeError::InvalidSignature => "invalid Ed25519 signature",
            EnvelopeError::InvalidTopic => "invalid topic",
            EnvelopeError::DbError => "database error",
        }
    }
}

/// Big-endian bytes of a 32-bit value.
pub open spec fn be32(x: u32) -> Seq<u8> {
    seq![(x / 0x1000000) as u8, ((x / 0x10000) % 0x100) as u8, ((x / 0x100) % 0x100) as u8, (x
        % 0x100) as u8]
}

/// Big-endian bytes of a 64-bit value.
pub open spec fn be64(x: u64) -> Seq<u8> {
    seq![
        (x / 0x100000000000000) as u8,
        ((x / 0x1000000000000) % 0x100) as u8,
        ((x / 0x10000000000) % 0x100) as u8,
        ((x / 0x100000000) % 0x100) as u8,
        ((x / 0x1000000) % 0x100) as u8,
        ((x / 0x10000) % 0x100) as u8,
        ((x / 0x100) % 0x100) as u8,
        (x % 0x100) as u8,
    ]
}

/// The canonical signed bytes of an envelope: topic, message type as
/// 4-byte big-endian, timestamp and sequence hint as 8-byte big-endian,
/// then the payload.
pub open spec fn canonical_spec(
    topic: Seq<char>,
    message_type: i32,
    timestamp: u64,
    sequence_hint: u64,
    payload: Seq<u8>,
) -> Seq<u8> {
    vstd::utf8::encode_utf8(topic) + be32(message_type as u32) + be64(timestamp) + be64(
        sequence_hint,
    ) + payload
}

fn push_be32(out: &mut Vec<u8>, x: u32)
    ensures
        final(out)@ == old(out)@ + be32(x),
{
    out.push((x / 0x1000000) as u8);
    out.push(((x / 0x10000) % 0x100) as u8);
    out.push(((x / 0x100) % 0x100) as u8);
    out.push((x % 0x100) as u8);
    proof {
        assert(final(out)@ =~= old(out)@ + be32(x));
    }
}

fn push_be64(out: &mut Vec<u8>, x: u64)
    ensures
        final(out)@ == old(out)@ + be64(x),
{
    out.push((x / 0x100000000000000) as u8);
    out.push(((x / 0x1000000000000) % 0x100) as u8);
    out.push(((x / 0x10000000000) % 0x100) as u8);
    out.push(((x / 0x100000000) % 0x100) as u8);
    out.push(((x / 0x1000000) % 0x100) as u8);
    out.push(((x / 0x10000) % 0x100) as u8);
    out.push(((x / 0x100) % 0x100) as u8);
    out.push((x % 0x100) as u8);
    proof {
        assert(final(out)@ =~= old(out)@ + be64(x));
    }
}

fn push_all(out: &mut Vec<u8>, src: &Vec<u8>)
    ensures
        final(out)@ == old(out)@ + src@,
{
    let mut i: usize = 0;
    #[verifier::loop_isolation(false)]
    while i < src.len()
        invariant
            i <= src@.len(),
            out@ == old(out)@ + src@.take(i as int),
        decreases src@.len() - i,
    {
        out.push(src[i]);
        i = i + 1;
        proof {
            assert(old(out)@ + src@.take(i as int) =~= (old(out)@ + src@.take(i as int - 1)).push(
                src@[i as int - 1]));
        }
    }
    proof {
        assert(src@.take(src@.len() as int) =~= src@);
    }
}

/// Build the canonical bytes an envelope's signature covers.
pub fn canonical_bytes(
    topic: &str,
    message_type: i32,
    timestamp: u64,
    sequence_hint: u64,
    payload: &Vec<u8>,
) -> (r: Vec<u8>)
    ensures
        r@ == canonical_spec(topic@, message_type, timestamp, sequence_hint, payload@),
{
    let mut out = topic.as_bytes_vec();
    push_be32(&mut out, message_type as u32);
    push_be64(&mut out, timestamp);
    push_be64(&mut out, sequence_hint);
    push_all(&mut out, payload);
    proof {
        assert(out@ =~= canonical_spec(topic@, message_type, timestamp, sequence_hint, payload@));
    }
    out
}

/// Sign an envelope's canonical bytes with the node's Ed25519 seed; the
/// produced envelope verifies under the seed's public key.
pub fn sign_envelope(
    seed: &Vec<u8>,
    sender_pubkey: &Vec<u8>,
    topic: &str,
    message_type: i32,
    timestamp: u64,
    sequence_hint: u64,
    payload: Vec<u8>,
) -> (r: GossipEnvelope)
    requires
        seed@.len() == 32,
    ensures
        r.signature@ == ed_sig_of(
            seed@,
            canonical_spec(topic@, message_type, timestamp, sequence_hint, r.payload@),
        ),
        r.signature@.len() == 64,
        ed_verifies(
            ed_pubkey_of(seed@),
            canonical_spec(topic@, message_type, timestamp, sequence_hint, r.payload@),
            r.signature@,
        ),
        r.sender_pubkey@ == sender_pubkey@,
        r.topic@ == topic@,
        r.message_type == message_type,
        r.timestamp == timestamp,
        r.sequence_hint == sequence_hint,
{
    let canonical = canonical_bytes(topic, message_type, timestamp, sequence_hint, &payload);
    let signature = ed_sign(seed, &canonical);
    GossipEnvelope {
        sender_pubkey: crate::util::bytes_clone(sender_pubkey),
        signature,
        topic: String::from_str(topic),
        message_type,
        timestamp,
        sequence_hint,
        payload,
    }
}

/// Verify an envelope: a 32-byte well-formed key, a 64-byte signature,
/// and the signature holding over the canonical bytes.
pub fn verify_envelope(env: &GossipEnvelope) -> (r: Result<(), EnvelopeError>)
    ensures
        r is Ok <==> (env.sender_pubkey@.len() == 32 && ed_key_valid(env.sender_pubkey@)
            && env.signature@.len() == 64 && ed_verifies(
            env.sender_pubkey@,
            canonical_spec(
                env.topic@,
                env.message_type,
                env.timestamp,
                env.sequence_hint,
                env.payload@,
            ),
            env.signature@,
        )),
{
    if env.sender_pubkey.len() != 32 {
        return Err(EnvelopeError::InvalidPublicKey);
    }
    if !ed_check_key(&env.sender_pubkey) {
        return Err(EnvelopeError::InvalidPublicKey);
    }
    if env.signature.len() != 64 {
        return Err(EnvelopeError::InvalidSignature);
    }
    let canonical = canonical_bytes(
        env.topic.as_str(),
        env.message_type,
        env.timestamp,
        env.sequence_hint,
        &env.payload,
    );
    if !ed_verify(&env.sender_pubkey, &canonical, &env.signature) {
        return Err(EnvelopeError::InvalidSignature);
    }
    Ok(())
}

/// The channel id carried after the last slash of a topic.
pub fn extract_channel_id(topic: &str) -> (r: Result<String, EnvelopeError>)
    ensures
        r matches Ok(s) ==> exists|i: int|
            {
                &&& 0 <= i < topic@.len()
                &&& topic@[i] == '/'
                &&& s@ == topic@.skip(i + 1)
                &&& s@.len() > 0
                &&& forall|j: int| i < j < topic@.len() ==> topic@[j] != '/'
            },
        r is Err ==> (forall|i: int| 0 <= i < topic@.len() ==> topic@[i] != '/') || topic@.last()
            == '/',
        r matches Err(e) ==> e == EnvelopeError::InvalidTopic,
{
    let n = topic.unicode_len();
    let mut i: usize = n;
    #[verifier::loop_isolation(false)]
    while i > 0
        invariant
            i <= n,
            n == topic@.len(),
            forall|j: int| i <= j < n ==> topic@[j] != '/',
        decreases i,
    {
        i = i - 1;
        let c = topic.get_char(i);
        if c == '/' {
            if i + 1 == n {
                return Err(EnvelopeError::InvalidTopic);
            }
            let suffix = topic.substring_char(i + 1, n);
            proof {
                assert(topic@.subrange(i as int + 1, n as int) =~= topic@.skip(i as int + 1));
            }
            return Ok(String::from_str(suffix));
        }
    }
    Err(EnvelopeError::InvalidTopic)
}

/// Persist a verified envelope under the channel its topic names, with
/// the same sequencing rule as local writes.
pub fn handle_gossip_message(db: &mut ServerDb, env: &GossipEnvelope, now: i64) -> (r: Result<
    i64,
    EnvelopeError,
>)
    requires
        old(db).wf(),
        0 <= now <= MAX_TIME_MS,
        env.timestamp <= MAX_TIME_MS,
        env.sequence_hint <= MAX_SEQUENCE as u64,
    ensures
        final(db).wf(),
        r matches Err(_) ==> *final(db) == *old(db),
        ({
            let suffix_ok = (exists|i: int| 0 <= i < env.topic@.len() && env.topic@[i] == '/')
                && env.topic@.len() > 0 && env.topic@.last() != '/';
            &&& (!suffix_ok ==> r == Err::<i64, EnvelopeError>(EnvelopeError::InvalidTopic))
            &&& (r matches Err(e) ==> (e == EnvelopeError::InvalidTopic || e
                == EnvelopeError::DbError))
            &&& (suffix_ok && r is Err ==> r == Err::<i64, EnvelopeError>(EnvelopeError::DbError))
        }),
        r matches Ok(seq) ==> final(db).messages@.len() == old(db).messages@.len() + 1
            && final(db).messages@.last().server_sequence == seq
            && final(db).messages@.last().sender_pubkey@ == crate::hexcodec::hex_of(
            env.sender_pubkey@,
        ) && exists|i: int| (0 <= i < env.topic@.len() && #[trigger] env.topic@[i] == '/'
            && final(db).messages@.last().channel_id@ == env.topic@.skip(i + 1) && seq
            == max_channel_seq(old(db).messages@, env.topic@.skip(i + 1)) + 1),
        final(db).users@ == old(db).users@,
        final(db).refresh_tokens@ == old(db).refresh_tokens@,
        final(db).rotation_records@ == old(db).rotation_records@,
        final(db).bans@ == old(db).bans@,
{
    let channel_id = match extract_channel_id(env.topic.as_str()) {
        Ok(c) => c,
        Err(e) => {
            proof {
                if (forall|i: int| 0 <= i < env.topic@.len() ==> env.topic@[i] != '/') {
                    assert(!(exists|i: int|
                        0 <= i < env.topic@.len() && env.topic@[i] == '/'));
                } else {
                    assert(env.topic@.last() == '/');
                }
            }
            return Err(e);
        },
    };
    let ghost slash = choose|i: int|
        {
            &&& 0 <= i < env.topic@.len()
            &&& env.topic@[i] == '/'
            &&& channel_id@ == env.topic@.skip(i + 1)
            &&& channel_id@.len() > 0
            &&& forall|j: int| i < j < env.topic@.len() ==> env.topic@[j] != '/'
        };
    let sender_hex = hex_encode(&env.sender_pubkey);
    match append_message(
        db,
        channel_id.as_str(),
        sender_hex.as_str(),
        env.message_type,
        Some(crate::util::bytes_clone(&env.payload)),
        env.timestamp as i64,
        env.sequence_hint as i64,
        crate::util::bytes_clone(&env.signature),
        None,
        None,
        now,
    ) {
        Ok((_, seq)) => {
            proof {
                assert(env.topic@[slash] == '/');
                assert(db.messages@.last().channel_id@ == env.topic@.skip(slash + 1));
                assert(seq == max_channel_seq(old(db).messages@, env.topic@.skip(slash + 1)) + 1);
            }
            Ok(seq)
        },
        Err(_) => Err(EnvelopeError::DbError),
    }
}

} // verus!
