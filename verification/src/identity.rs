//! Identity lifecycle: genesis registration, dual-signed key rotation with
//! a cancellation window, the public rotation chain, and the encrypted
//! identity blob. A fingerprint is assigned at genesis and never changes;
//! bans and the chain are keyed by it.

use vstd::prelude::*;
use crate::admin::{setup_token_hash_of, verify_setup_token, consume_setup_token};
use crate::auth::{tokens_without_user, delete_refresh_tokens_of};
use crate::channels::{seed_with_ids, starter_template_added};
use crate::errors::ApiError;
use crate::hexcodec::{hex_decode, hex_decoded, hex_encode, hex_of, is_hex_string};
use crate::invites::{consume_invite, consumed, invite_live};
use crate::keyidx::{has_key, keys_unique, lemma_no_key, lemma_push_fresh, lemma_index_of_at};
use crate::models::{User, IdentityBlobRow, RotationRecordRow, ROLE_ADMIN, Role, UserRole};
use crate::state::{ServerDb, chain_wf, MAX_TIME_MS};
use crate::trusted::{ed_check_key, ed_key_valid, ed_verify, ed_verifies, new_uuid_string};
use crate::util::{str_eq, bytes_eq, bytes_clone};
use vstd::string::StringSliceAdditionalSpecFns;

verus! {

/// Cancellation window of a key rotation: 72 hours, in milliseconds.
pub const ROTATION_WINDOW_MS: i64 = 259200000;

/// Size cap of the encrypted identity blob, in bytes.
pub const MAX_BLOB_BYTES: usize = 65536;

// --- Request and response shapes ---

pub struct RegisterApiRequest {
    pub public_key: String,
    pub fingerprint: String,
    pub display_name: String,
    pub encrypted_blob: String,
    pub setup_token: Option<String>,
    pub invite_code: Option<String>,
    pub genesis_signature: String,
}

#[derive(Debug)]
pub struct RegisterApiResponse {
    pub user_id: String,
    pub is_owner: bool,
}

pub struct RotateKeyRequest {
    pub prev_key: String,
    pub new_key: String,
    pub reason: String,
    pub signature_old: String,
    pub signature_new: String,
}

#[derive(Debug)]
pub struct RotateKeyResponse {
    pub accepted: bool,
    pub cancellation_deadline: i64,
}

pub struct CancelRotationRequest {
    pub signature_old_key: String,
}

#[derive(Debug)]
pub struct CancelRotationResponse {
    pub cancelled: bool,
}

#[derive(Debug)]
pub struct RotationChainEntry {
    pub id: String,
    pub record_type: String,
    pub prev_key: Option<String>,
    pub new_key: String,
    pub reason: Option<String>,
    pub signature_old: Option<String>,
    pub signature_new: String,
    pub cancellation_deadline: Option<i64>,
    pub cancelled: bool,
    pub created_at: i64,
}

#[derive(Debug)]
pub struct RotationChainResponse {
    pub fingerprint: String,
    pub chain: Vec<RotationChainEntry>,
}

#[derive(Debug)]
pub struct BlobResponse {
    pub fingerprint: String,
    pub encrypted_blob: String,
    pub created_at: i64,
    pub updated_at: i64,
}

pub struct PutBlobRequest {
    pub encrypted_blob: String,
}

#[derive(Debug)]
pub struct PutBlobResponse {
    pub success: bool,
}

// --- Canonical signed payloads ---

/// The bytes "rotate:".
pub open spec fn rotate_prefix() -> Seq<u8> {
    seq![114u8, 111u8, 116u8, 97u8, 116u8, 101u8, 58u8]
}

/// The bytes "cancel_rotation:".
pub open spec fn cancel_prefix() -> Seq<u8> {
    seq![
        99u8,
        97u8,
        110u8,
        99u8,
        101u8,
        108u8,
        95u8,
        114u8,
        111u8,
        116u8,
        97u8,
        116u8,
        105u8,
        111u8,
        110u8,
        58u8,
    ]
}

/// The canonical payload both keys sign for a rotation:
/// `"rotate:" ‖ prev_key ‖ ":" ‖ new_key ‖ ":" ‖ reason`.
pub open spec fn rotation_payload_spec(prev: Seq<u8>, new: Seq<u8>, reason: Seq<u8>) -> Seq<u8> {
    rotate_prefix() + prev + seq![58u8] + new + seq![58u8] + reason
}

/// The canonical payload the old key signs to cancel:
/// `"cancel_rotation:" ‖ fingerprint`.
pub open spec fn cancel_payload_spec(fp: Seq<u8>) -> Seq<u8> {
    cancel_prefix() + fp
}

fn push_bytes(out: &mut Vec<u8>, src: &Vec<u8>)
    ensures
        final(out)@ == old(out)@ + src@,
{
    let mut i: usize = 0;
    #[verifier::loop_isolation(false)]
    while i < src.len()
        invariant
            i <= src@.len(),
            out@ == old(out)@ + src@.take(i as int),
        decreases src@.len() - i,
    {
        out.push(src[i]);
        i = i + 1;
        proof {
            assert(old(out)@ + src@.take(i as int) =~= (old(out)@ + src@.take(i as int - 1)).push(
                src@[i as int - 1]));
        }
    }
    proof {
        assert(src@.take(src@.len() as int) =~= src@);
    }
}

/// Build the payload that must be signed for a rotation.
pub fn rotation_payload(prev_key: &Vec<u8>, new_key: &Vec<u8>, reason: &str) -> (r: Vec<u8>)
    ensures
        r@ == rotation_payload_spec(prev_key@, new_key@, reason.spec_bytes()),
{
    let mut out: Vec<u8> = Vec::new();
    out.push(114);
    out.push(111);
    out.push(116);
    out.push(97);
    out.push(116);
    out.push(101);
    out.push(58);
    push_bytes(&mut out, prev_key);
    out.push(58);
    push_bytes(&mut out, new_key);
    out.push(58);
    let reason_bytes = reason.as_bytes_vec();
    push_bytes(&mut out, &reason_bytes);
    proof {
        assert(out@ =~= rotation_payload_spec(prev_key@, new_key@, reason.spec_bytes()));
    }
    out
}

/// Build the payload that must be signed to cancel a rotation.
pub fn cancel_payload(fingerprint: &str) -> (r: Vec<u8>)
    ensures
        r@ == cancel_payload_spec(fingerprint.spec_bytes()),
{
    let mut out: Vec<u8> = Vec::new();
    out.push(99);
    out.push(97);
    out.push(110);
    out.push(99);
    out.push(101);
    out.push(108);
    out.push(95);
    out.push(114);
    out.push(111);
    out.push(116);
    out.push(97);
    out.push(116);
    out.push(105);
    out.push(111);
    out.push(110);
    out.push(58);
    let fp_bytes = fingerprint.as_bytes_vec();
    push_bytes(&mut out, &fp_bytes);
    proof {
        assert(out@ =~= cancel_payload_spec(fingerprint.spec_bytes()));
    }
    out
}

/// The outcome of verifying an Ed25519 signature over a payload, with the
/// error taxonomy of the identity endpoints.
pub open spec fn sig_verdict(pk: Seq<u8>, payload: Seq<u8>, sig: Seq<u8>) -> Option<ApiError> {
    if pk.len() != 32 {
        Some(ApiError::BadRequest)
    } else if !ed_key_valid(pk) {
        Some(ApiError::BadRequest)
    } else if sig.len() != 64 {
        Some(ApiError::BadRequest)
    } else if !ed_verifies(pk, payload, sig) {
        Some(ApiError::Unauthorized)
    } else {
        None
    }
}

/// Verify an Ed25519 signature over a payload: malformed key or signature
/// is a bad request, a failing signature is unauthorized.
pub fn verify_signature(public_key: &Vec<u8>, payload: &Vec<u8>, signature: &Vec<u8>) -> (r: Result<
    (),
    ApiError,
>)
    ensures
        r == (match sig_verdict(public_key@, payload@, signature@) {
            Some(e) => Err::<(), ApiError>(e),
            None => Ok::<(), ApiError>(()),
        }),
{
    if public_key.len() != 32 {
        return Err(ApiError::BadRequest);
    }
    if !ed_check_key(public_key) {
        return Err(ApiError::BadRequest);
    }
    if signature.len() != 64 {
        return Err(ApiError::BadRequest);
    }
    if !ed_verify(public_key, payload, signature) {
        return Err(ApiError::Unauthorized);
    }
    Ok(())
}

// --- Registration ---

/// ASCII whitespace, as the blank-name check reads it.
pub open spec fn is_space(c: char) -> bool {
    c == ' ' || c == '\t' || c == '\n' || c == '\r'
}

/// Whether a name holds no visible character.
pub open spec fn is_blank(s: Seq<char>) -> bool {
    forall|i: int| 0 <= i < s.len() ==> is_space(#[trigger] s[i])
}

fn blank_exec(s: &str) -> (r: bool)
    ensures
        r == is_blank(s@),
{
    let n = s.unicode_len();
    let mut i: usize = 0;
    #[verifier::loop_isolation(false)]
    while i < n
        invariant
            n == s@.len(),
            i <= n,
            forall|j: int| 0 <= j < i ==> is_space(#[trigger] s@[j]),
        decreases n - i,
    {
        let c = s.get_char(i);
        if !(c == ' ' || c == '\t' || c == '\n' || c == '\r') {
            return false;
        }
        i = i + 1;
    }
    true
}

/// A valid Ed25519 public key in hex: 64 hex characters decoding to a
/// well-formed key.
pub open spec fn pk_hex_ok(s: Seq<char>) -> bool {
    is_hex_string(s) && s.len() == 64 && ed_key_valid(hex_decoded(s))
}

/// The first check a registration fails, if any. `token_ok` is whether the
/// presented setup token matched the stored hash.
pub open spec fn register_verdict(
    db: ServerDb,
    mode: Seq<char>,
    public_key: Seq<char>,
    fingerprint: Seq<char>,
    display_name: Seq<char>,
    encrypted_blob: Seq<char>,
    genesis_signature: Seq<char>,
    token_ok: bool,
    invite_code: Option<Seq<char>>,
    now: i64,
) -> Option<ApiError> {
    if is_blank(display_name) {
        Some(ApiError::BadRequest)
    } else if !pk_hex_ok(public_key) {
        Some(ApiError::BadRequest)
    } else if mode == "invite-only"@ && !token_ok && invite_code is None {
        Some(ApiError::Forbidden)
    } else if !is_hex_string(encrypted_blob) {
        Some(ApiError::BadRequest)
    } else if !is_hex_string(genesis_signature) {
        Some(ApiError::BadRequest)
    } else if has_key(db.user_fps(), fingerprint) {
        Some(ApiError::Conflict)
    } else if has_key(db.user_names(), display_name) {
        Some(ApiError::Conflict)
    } else if match invite_code {
        Some(code) => !(exists|i: int|
            0 <= i < db.invites@.len() && (#[trigger] db.invites@[i]).code@ == code && invite_live(
                db.invites@[i],
                now,
            )),
        None => false,
    } {
        Some(ApiError::BadRequest)
    } else {
        None
    }
}

/// Everything a successful registration adds: the user row, the genesis
/// record, the identity blob, and the default-role assignment.
pub open spec fn register_added(
    pre: ServerDb,
    post: ServerDb,
    user_id: Seq<char>,
    public_key: Seq<char>,
    fingerprint: Seq<char>,
    display_name: Seq<char>,
    encrypted_blob: Seq<char>,
    genesis_signature: Seq<char>,
    is_owner: bool,
    now: i64,
) -> bool {
    &&& post.users@.len() == pre.users@.len() + 1
    &&& post.users@.take(pre.users@.len() as int) == pre.users@
    &&& {
        let u = post.users@.last();
        &&& u.id@ == user_id
        &&& u.public_key@ == hex_decoded(public_key)
        &&& u.fingerprint@ == fingerprint
        &&& u.display_name@ == display_name
        &&& u.roles == (if is_owner {
            ROLE_ADMIN
        } else {
            0
        })
        &&& u.is_owner == is_owner
        &&& u.totp_secret_encrypted is None
        &&& !u.totp_enrolled
        &&& u.created_at == now
    }
    &&& post.rotation_records@.len() == pre.rotation_records@.len() + 1
    &&& post.rotation_records@.take(pre.rotation_records@.len() as int) == pre.rotation_records@
    &&& {
        let g = post.rotation_records@.last();
        &&& g.fingerprint@ == fingerprint
        &&& g.record_type@ == "genesis"@
        &&& g.prev_key is None
        &&& g.new_key@ == hex_decoded(public_key)
        &&& g.signature_old is None
        &&& g.signature_new@ == hex_decoded(genesis_signature)
        &&& g.cancellation_deadline is None
        &&& !g.cancelled
        &&& g.created_at == now
    }
    &&& post.identity_blobs@.len() == pre.identity_blobs@.len() + 1
    &&& post.identity_blobs@.take(pre.identity_blobs@.len() as int) == pre.identity_blobs@
    &&& post.identity_blobs@.last().fingerprint@ == fingerprint
    &&& post.identity_blobs@.last().encrypted_blob@ == hex_decoded(encrypted_blob)
    &&& post.user_roles@.len() == pre.user_roles@.len() + 1
    &&& post.user_roles@.take(pre.user_roles@.len() as int) == pre.user_roles@
    &&& post.user_roles@.last().user_id@ == user_id
    &&& exists|k: int|
        0 <= k < post.roles@.len() && (#[trigger] post.roles@[k]).is_default
            && post.user_roles@.last().role_id@ == post.roles@[k].id@
    &&& post.refresh_tokens@ == pre.refresh_tokens@
    &&& post.bans@ == pre.bans@
    &&& post.messages@ == pre.messages@
    &&& post.dm_conversations@ == pre.dm_conversations@
    &&& post.dm_messages@ == pre.dm_messages@
    &&& post.blocks@ == pre.blocks@
}

fn blob_idx_by_fp(db: &ServerDb, fp: &str) -> (r: Option<usize>)
    ensures
        match r {
            Some(i) => i < db.identity_blobs@.len() && db.identity_blobs@[i as int].fingerprint@
                == fp@,
            None => forall|j: int|
                0 <= j < db.identity_blobs@.len() ==> (#[trigger] db.identity_blobs@[j]).fingerprint@
                    != fp@,
        },
{
    let mut i: usize = 0;
    #[verifier::loop_isolation(false)]
    while i < db.identity_blobs.len()
        invariant
            i <= db.identity_blobs@.len(),
            forall|j: int|
                0 <= j < i ==> (#[trigger] db.identity_blobs@[j]).fingerprint@ != fp@,
        decreases db.identity_blobs@.len() - i,
    {
        if str_eq(db.identity_blobs[i].fingerprint.as_str(), fp) {
            return Some(i);
        }
        i = i + 1;
    }
    None
}

fn role_default_idx(db: &ServerDb) -> (r: Option<usize>)
    ensures
        match r {
            Some(i) => i < db.roles@.len() && db.roles@[i as int].is_default,
            None => forall|j: int| 0 <= j < db.roles@.len() ==> !(#[trigger] db.roles@[j]).is_default,
        },
{
    let mut i: usize = 0;
    #[verifier::loop_isolation(false)]
    while i < db.roles.len()
        invariant
            i <= db.roles@.len(),
            forall|j: int| 0 <= j < i ==> !(#[trigger] db.roles@[j]).is_default,
        decreases db.roles@.len() - i,
    {
        if db.roles[i].is_default {
            return Some(i);
        }
        i = i + 1;
    }
    None
}

fn role_idx_by_id(db: &ServerDb, id: &str) -> (r: Option<usize>)
    ensures
        match r {
            Some(i) => i < db.roles@.len() && db.roles@[i as int].id@ == id@,
            None => !has_key(db.role_ids(), id@),
        },
{
    let mut i: usize = 0;
    #[verifier::loop_isolation(false)]
    while i < db.roles.len()
        invariant
            i <= db.roles@.len(),
            forall|j: int| 0 <= j < i ==> db.role_ids()[j] != id@,
        decreases db.roles@.len() - i,
    {
        if str_eq(db.roles[i].id.as_str(), id) {
            return Some(i);
        }
        i = i + 1;
    }
    proof {
        lemma_no_key(db.role_ids(), id@);
    }
    None
}

/// Register a new user: validate the key, decide ownership by setup token,
/// enforce the registration mode, consume an invite when one is given, and
/// atomically insert the user, its genesis record, its identity blob and
/// its default-role membership (creating the default role if missing). The
/// owning registration also seeds the starter template and consumes the
/// setup token.
#[verifier::rlimit(60)]
pub fn register(db: &mut ServerDb, req: &RegisterApiRequest, registration_mode: &str, now: i64) -> (r:
    Result<RegisterApiResponse, ApiError>)
    requires
        old(db).wf(),
        old(db).times_ok(now),
        0 <= now <= MAX_TIME_MS,
    ensures
        final(db).wf(),
        final(db).times_ok(now),
        ({
            let token_ok = match req.setup_token {
                Some(t) => old(db).spec_setting("setup_token_hash"@) == Some(
                    setup_token_hash_of(t@),
                ),
                None => false,
            };
            let verdict = register_verdict(
                *old(db),
                registration_mode@,
                req.public_key@,
                req.fingerprint@,
                req.display_name@,
                req.encrypted_blob@,
                req.genesis_signature@,
                token_ok,
                match req.invite_code {
                    Some(c) => Some(c@),
                    None => None,
                },
                now,
            );
            &&& (verdict matches Some(e) ==> r == Err::<RegisterApiResponse, ApiError>(e))
            &&& (verdict is None ==> (r is Ok || r == Err::<RegisterApiResponse, ApiError>(
                ApiError::Internal,
            )))
            &&& (r matches Err(_) ==> *final(db) == *old(db))
            &&& (r matches Ok(out) ==> {
                &&& verdict is None
                &&& out.is_owner == token_ok
                &&& register_added(
                    *old(db),
                    *final(db),
                    out.user_id@,
                    req.public_key@,
                    req.fingerprint@,
                    req.display_name@,
                    req.encrypted_blob@,
                    req.genesis_signature@,
                    out.is_owner,
                    now,
                )
                &&& (match req.invite_code {
                    None => final(db).invites@ == old(db).invites@,
                    Some(c) => exists|i: int|
                        {
                            &&& 0 <= i < old(db).invites@.len()
                            &&& (#[trigger] old(db).invites@[i]).code@ == c@
                            &&& final(db).invites@ == old(db).invites@.update(
                                i,
                                consumed(old(db).invites@[i]),
                            )
                        },
                })
                &&& (out.is_owner ==> {
                    &&& final(db).spec_setting("setup_token_hash"@) is None
                    &&& final(db).spec_setting("setup_complete"@) == Some("true"@)
                    &&& (old(db).categories@.len() == 0 ==> starter_template_added(
                        *old(db),
                        *final(db),
                    ))
                })
                &&& (!out.is_owner ==> final(db).server_settings@ == old(db).server_settings@
                    && final(db).categories@ == old(db).categories@ && final(db).channels@ == old(db).channels@)
            })
        }),
{
    let ghost db0 = *db;
    let token_ok = match &req.setup_token {
        Some(t) => verify_setup_token(db, t.as_str()),
        None => false,
    };
    if blank_exec(req.display_name.as_str()) {
        return Err(ApiError::BadRequest);
    }
    let pk_bytes = match hex_decode(req.public_key.as_str()) {
        Ok(v) => v,
        Err(_) => {
            return Err(ApiError::BadRequest);
        },
    };
    if pk_bytes.len() != 32 {
        return Err(ApiError::BadRequest);
    }
    if !ed_check_key(&pk_bytes) {
        return Err(ApiError::BadRequest);
    }
    if str_eq(registration_mode, "invite-only") && !token_ok && req.invite_code.is_none() {
        return Err(ApiError::Forbidden);
    }
    let blob_bytes = match hex_decode(req.encrypted_blob.as_str()) {
        Ok(v) => v,
        Err(_) => {
            return Err(ApiError::BadRequest);
        },
    };
    let sig_bytes = match hex_decode(req.genesis_signature.as_str()) {
        Ok(v) => v,
        Err(_) => {
            return Err(ApiError::BadRequest);
        },
    };
    match db.user_idx_by_fp(req.fingerprint.as_str()) {
        Some(i) => {
            proof {
                assert(db.user_fps()[i as int] == req.fingerprint@);
            }
            return Err(ApiError::Conflict);
        },
        None => {},
    }
    match db.user_idx_by_name(req.display_name.as_str()) {
        Some(i) => {
            proof {
                assert(db.user_names()[i as int] == req.display_name@);
            }
            return Err(ApiError::Conflict);
        },
        None => {},
    }
    match &req.invite_code {
        Some(code) => {
            if !crate::invites::invite_valid(db, code.as_str(), now) {
                return Err(ApiError::BadRequest);
            }
        },
        None => {},
    }
    // Generate and pre-check every fresh id before anything is written, so
    // that a collision leaves the store untouched.
    let user_id = new_uuid_string();
    if db.user_idx_by_id(user_id.as_str()).is_some() {
        return Err(ApiError::Internal);
    }
    let rotation_id = new_uuid_string();
    if blob_idx_by_fp(db, req.fingerprint.as_str()).is_some() {
        return Err(ApiError::Internal);
    }
    let default_idx = role_default_idx(db);
    let everyone_id: Option<String> = match default_idx {
        Some(_) => None,
        None => {
            let id = new_uuid_string();
            if role_idx_by_id(db, id.as_str()).is_some() {
                return Err(ApiError::Internal);
            }
            Some(id)
        },
    };
    let mut seed_ids: Option<(String, String, String, String, String)> = None;
    if token_ok && db.categories.len() == 0 {
        let gc = new_uuid_string();
        let vc = new_uuid_string();
        let g = new_uuid_string();
        let intro = new_uuid_string();
        let v = new_uuid_string();
        if str_eq(gc.as_str(), vc.as_str()) {
            return Err(ApiError::Internal);
        }
        if db.channel_idx_by_id(g.as_str()).is_some() || db.channel_idx_by_id(
            intro.as_str(),
        ).is_some() || db.channel_idx_by_id(v.as_str()).is_some() {
            return Err(ApiError::Internal);
        }
        if str_eq(g.as_str(), intro.as_str()) || str_eq(g.as_str(), v.as_str()) || str_eq(
            intro.as_str(),
            v.as_str(),
        ) {
            return Err(ApiError::Internal);
        }
        seed_ids = Some((gc, vc, g, intro, v));
    }
    match &req.invite_code {
        Some(code) => {
            match consume_invite(db, code.as_str(), now) {
                Ok(_) => {},
                Err(_) => {
                    return Err(ApiError::BadRequest);
                },
            }
        },
        None => {},
    }
    let ghost mid = *db;
    proof {
        assert(mid.user_fps() == db0.user_fps());
        assert(mid.user_names() == db0.user_names());
        assert(mid.user_ids() == db0.user_ids());
    }
    let roles_bits: i64 = if token_ok {
        ROLE_ADMIN
    } else {
        0
    };
    db.users.push(
        User {
            id: user_id.clone(),
            public_key: bytes_clone(&pk_bytes),
            fingerprint: req.fingerprint.clone(),
            display_name: req.display_name.clone(),
            roles: roles_bits,
            is_owner: token_ok,
            totp_secret_encrypted: None,
            totp_enrolled: false,
            created_at: now,
            updated_at: now,
        },
    );
    db.rotation_records.push(
        RotationRecordRow {
            id: rotation_id,
            fingerprint: req.fingerprint.clone(),
            record_type: String::from_str("genesis"),
            prev_key: None,
            new_key: pk_bytes,
            reason: None,
            signature_old: None,
            signature_new: sig_bytes,
            cancellation_deadline: None,
            cancelled: false,
            created_at: now,
        },
    );
    db.identity_blobs.push(
        IdentityBlobRow {
            fingerprint: req.fingerprint.clone(),
            encrypted_blob: blob_bytes,
            created_at: now,
            updated_at: now,
        },
    );
    let assigned_role_id = match (default_idx, everyone_id) {
        (Some(k), _) => db.roles[k].id.clone(),
        (None, Some(id)) => {
            db.roles.push(
                Role {
                    id: id.clone(),
                    name: String::from_str("everyone"),
                    permissions: 1,
                    color: None,
                    position: 0,
                    is_default: true,
                    created_at: now,
                    updated_at: now,
                },
            );
            id
        },
        (None, None) => {
            proof {
                assert(false);
            }
            String::new()
        },
    };
    db.user_roles.push(
        UserRole { user_id: user_id.clone(), role_id: assigned_role_id, assigned_at: now },
    );
    proof {
        lemma_register_inserts_wf(mid, *db, now);
        assert(register_added(
            db0,
            *db,
            user_id@,
            req.public_key@,
            req.fingerprint@,
            req.display_name@,
            req.encrypted_blob@,
            req.genesis_signature@,
            token_ok,
            now,
        )) by {
            assert(db.users@.take(db0.users@.len() as int) =~= db0.users@);
            assert(db.rotation_records@.take(db0.rotation_records@.len() as int)
                =~= db0.rotation_records@);
            assert(db.identity_blobs@.take(db0.identity_blobs@.len() as int)
                =~= db0.identity_blobs@);
            assert(db.user_roles@.take(db0.user_roles@.len() as int) =~= db0.user_roles@);
            if default_idx is Some {
                let k = default_idx->Some_0 as int;
                assert(db.roles@[k].is_default);
                assert(db.user_roles@.last().role_id@ == db.roles@[k].id@);
            } else {
                let k = db.roles@.len() - 1;
                assert(db.roles@[k].is_default);
                assert(db.user_roles@.last().role_id@ == db.roles@[k].id@);
            }
        }
    }
    if token_ok {
        match seed_ids {
            Some((gc, vc, g, intro, v)) => {
                seed_with_ids(db, gc, vc, g, intro, v, now);
            },
            None => {},
        }
        consume_setup_token(db);
    }
    Ok(RegisterApiResponse { user_id, is_owner: token_ok })
}

/// The pure inserts of a registration preserve the store invariant.
proof fn lemma_register_inserts_wf(mid: ServerDb, post: ServerDb, now: i64)
    requires
        mid.wf(),
        mid.times_ok(now),
        post.users@.len() == mid.users@.len() + 1,
        forall|j: int| 0 <= j < mid.users@.len() ==> post.users@[j] == mid.users@[j],
        !has_key(mid.user_ids(), post.users@.last().id@),
        !has_key(mid.user_fps(), post.users@.last().fingerprint@),
        !has_key(mid.user_names(), post.users@.last().display_name@),
        post.rotation_records@.len() == mid.rotation_records@.len() + 1,
        forall|j: int|
            0 <= j < mid.rotation_records@.len() ==> post.rotation_records@[j]
                == mid.rotation_records@[j],
        post.rotation_records@.last().fingerprint@ == post.users@.last().fingerprint@,
        post.rotation_records@.last().record_type@ == "genesis"@,
        post.rotation_records@.last().prev_key is None,
        post.rotation_records@.last().signature_old is None,
        post.rotation_records@.last().created_at == now,
        post.identity_blobs@.len() == mid.identity_blobs@.len() + 1,
        forall|j: int|
            0 <= j < mid.identity_blobs@.len() ==> post.identity_blobs@[j]
                == mid.identity_blobs@[j],
        post.identity_blobs@.last().fingerprint@ == post.users@.last().fingerprint@,
        forall|j: int|
            0 <= j < mid.identity_blobs@.len() ==> (#[trigger] mid.identity_blobs@[j]).fingerprint@
                != post.users@.last().fingerprint@,
        post.roles@ == mid.roles@ || (post.roles@.len() == mid.roles@.len() + 1 && (forall|j: int|
            0 <= j < mid.roles@.len() ==> post.roles@[j] == mid.roles@[j])
            && !has_key(mid.role_ids(), post.roles@.last().id@) && post.roles@.last().is_default
            && (forall|j: int| 0 <= j < mid.roles@.len() ==> !(#[trigger] mid.roles@[j]).is_default)),
        post.server_settings@ == mid.server_settings@,
        post.invites@ == mid.invites@,
        post.bans@ == mid.bans@,
        post.messages@ == mid.messages@,
        post.next_message_id == mid.next_message_id,
        post.dm_messages@ == mid.dm_messages@,
        post.dm_conversations@ == mid.dm_conversations@,
        post.dm_public_keys@ == mid.dm_public_keys@,
        post.categories@ == mid.categories@,
        post.channels@ == mid.channels@,
        post.blocks@ == mid.blocks@,
        post.refresh_tokens@ == mid.refresh_tokens@,
        post.reactions@ == mid.reactions@,
        post.last_read@ == mid.last_read@,
        post.dm_offline_queue@ == mid.dm_offline_queue@,
    ensures
        post.wf(),
        post.times_ok(now),
{
    lemma_register_keys(mid, post);
    lemma_register_chain(mid, post, now);
    if post.roles@ != mid.roles@ {
        assert(post.role_ids() =~= mid.role_ids().push(post.roles@.last().id@));
        lemma_push_fresh(mid.role_ids(), post.roles@.last().id@);
    }
    assert(post.setting_keys() == mid.setting_keys());
    assert(post.invite_codes() == mid.invite_codes());
    assert(post.ban_fps() == mid.ban_fps());
    assert(post.block_hashes() == mid.block_hashes());
    assert(post.channel_ids() == mid.channel_ids());
    assert(post.category_ids() == mid.category_ids());
    assert(post.dm_key_owners() == mid.dm_key_owners());
}

/// Uniqueness of the keyed user and blob columns survives the inserts.
proof fn lemma_register_keys(mid: ServerDb, post: ServerDb)
    requires
        mid.wf(),
        post.users@.len() == mid.users@.len() + 1,
        forall|j: int| 0 <= j < mid.users@.len() ==> post.users@[j] == mid.users@[j],
        !has_key(mid.user_ids(), post.users@.last().id@),
        !has_key(mid.user_fps(), post.users@.last().fingerprint@),
        !has_key(mid.user_names(), post.users@.last().display_name@),
        post.identity_blobs@.len() == mid.identity_blobs@.len() + 1,
        forall|j: int|
            0 <= j < mid.identity_blobs@.len() ==> post.identity_blobs@[j]
                == mid.identity_blobs@[j],
        post.identity_blobs@.last().fingerprint@ == post.users@.last().fingerprint@,
        forall|j: int|
            0 <= j < mid.identity_blobs@.len() ==> (#[trigger] mid.identity_blobs@[j]).fingerprint@
                != post.users@.last().fingerprint@,
    ensures
        keys_unique(post.user_ids()),
        keys_unique(post.user_fps()),
        keys_unique(post.user_names()),
        keys_unique(post.identity_blobs@.map_values(|b: IdentityBlobRow| b.fingerprint@)),
{
    let fp = post.users@.last().fingerprint@;
    assert(post.user_ids() =~= mid.user_ids().push(post.users@.last().id@));
    assert(post.user_fps() =~= mid.user_fps().push(fp));
    assert(post.user_names() =~= mid.user_names().push(post.users@.last().display_name@));
    lemma_push_fresh(mid.user_ids(), post.users@.last().id@);
    lemma_push_fresh(mid.user_fps(), fp);
    lemma_push_fresh(mid.user_names(), post.users@.last().display_name@);
    assert(post.identity_blobs@.map_values(|b: IdentityBlobRow| b.fingerprint@)
        =~= mid.identity_blobs@.map_values(|b: IdentityBlobRow| b.fingerprint@).push(fp));
    lemma_no_key(mid.identity_blobs@.map_values(|b: IdentityBlobRow| b.fingerprint@), fp);
    lemma_push_fresh(mid.identity_blobs@.map_values(|b: IdentityBlobRow| b.fingerprint@), fp);
}

/// Appending a genesis record for a brand-new fingerprint keeps the chain
/// well-formed and the user/record cross-references intact.
proof fn lemma_register_chain(mid: ServerDb, post: ServerDb, now: i64)
    requires
        mid.wf(),
        mid.times_ok(now),
        post.users@.len() == mid.users@.len() + 1,
        forall|j: int| 0 <= j < mid.users@.len() ==> post.users@[j] == mid.users@[j],
        !has_key(mid.user_fps(), post.users@.last().fingerprint@),
        post.rotation_records@.len() == mid.rotation_records@.len() + 1,
        forall|j: int|
            0 <= j < mid.rotation_records@.len() ==> post.rotation_records@[j]
                == mid.rotation_records@[j],
        post.rotation_records@.last().fingerprint@ == post.users@.last().fingerprint@,
        post.rotation_records@.last().record_type@ == "genesis"@,
        post.rotation_records@.last().prev_key is None,
        post.rotation_records@.last().signature_old is None,
        post.rotation_records@.last().created_at == now,
    ensures
        chain_wf(post.rotation_records@),
        forall|i: int|
            0 <= i < post.rotation_records@.len() ==> has_key(
                post.user_fps(),
                (#[trigger] post.rotation_records@[i]).fingerprint@,
            ),
        forall|i: int|
            0 <= i < post.users@.len() ==> has_key(
                post.record_fps(),
                (#[trigger] post.users@[i]).fingerprint@,
            ),
        post.times_ok(now),
{
    let fp = post.users@.last().fingerprint@;
    let n = mid.rotation_records@.len() as int;
    assert forall|j: int| 0 <= j < n implies (#[trigger] post.rotation_records@[j]).fingerprint@
        != fp by {
        assert(mid.record_fps()[j] == mid.rotation_records@[j].fingerprint@);
        assert(has_key(mid.user_fps(), mid.rotation_records@[j].fingerprint@));
        if mid.rotation_records@[j].fingerprint@ == fp {
            let u = crate::keyidx::index_of(mid.user_fps(), fp);
            assert(mid.user_fps()[u] == fp);
        }
    }
    lemma_chain_push_genesis(mid.rotation_records@, post.rotation_records@, now);
    lemma_register_crossrefs(mid, post, now);
}

/// A genesis record for a fingerprint absent from a well-formed chain may
/// be appended.
proof fn lemma_chain_push_genesis(pre: Seq<RotationRecordRow>, post: Seq<RotationRecordRow>, now: i64)
    requires
        chain_wf(pre),
        forall|i: int| 0 <= i < pre.len() ==> (#[trigger] pre[i]).created_at <= now,
        post.len() == pre.len() + 1,
        forall|j: int| 0 <= j < pre.len() ==> post[j] == pre[j],
        post.last().record_type@ == "genesis"@,
        post.last().prev_key is None,
        post.last().signature_old is None,
        post.last().created_at == now,
        forall|j: int| 0 <= j < pre.len() ==> (#[trigger] post[j]).fingerprint@ != post.last().fingerprint@,
    ensures
        chain_wf(post),
{
    reveal_strlit("genesis");
    reveal_strlit("rotation");
    assert("genesis"@.len() == 7);
    assert("rotation"@.len() == 8);
    lemma_chain_push_iff(pre, post);
    lemma_chain_push_rest(pre, post, now);
}

#[verifier::spinoff_prover]
#[verifier::rlimit(100)]
proof fn lemma_chain_push_iff(pre: Seq<RotationRecordRow>, post: Seq<RotationRecordRow>)
    requires
        chain_wf(pre),
        post.len() == pre.len() + 1,
        forall|j: int| 0 <= j < pre.len() ==> post[j] == pre[j],
        post.last().record_type@ == "genesis"@,
        forall|j: int| 0 <= j < pre.len() ==> (#[trigger] post[j]).fingerprint@ != post.last().fingerprint@,
    ensures
        forall|i: int|
            0 <= i < post.len() ==> (((#[trigger] post[i]).record_type@ == "genesis"@)
                <==> crate::state::first_fp_at(post, i)),
{
    let n = pre.len() as int;
    assert forall|i: int|
        0 <= i < post.len() implies (((#[trigger] post[i]).record_type@ == "genesis"@)
        <==> crate::state::first_fp_at(post, i)) by {
        if i < n {
            assert(post[i] == pre[i]);
            assert((pre[i].record_type@ == "genesis"@) <==> crate::state::first_fp_at(pre, i));
            if crate::state::first_fp_at(pre, i) {
                assert forall|j: int| 0 <= j < i implies (#[trigger] post[j]).fingerprint@
                    != post[i].fingerprint@ by {
                    assert(pre[j].fingerprint@ != pre[i].fingerprint@);
                }
                assert(crate::state::first_fp_at(post, i));
            } else {
                let j = choose|j: int|
                    0 <= j < i && (#[trigger] pre[j]).fingerprint@ == pre[i].fingerprint@;
                assert(post[j].fingerprint@ == post[i].fingerprint@);
                assert(!crate::state::first_fp_at(post, i));
            }
        } else {
            assert forall|j: int| 0 <= j < i implies (#[trigger] post[j]).fingerprint@
                != post[i].fingerprint@ by {}
            assert(crate::state::first_fp_at(post, i));
        }
    }
}

#[verifier::spinoff_prover]
#[verifier::rlimit(100)]
proof fn lemma_chain_push_rest(pre: Seq<RotationRecordRow>, post: Seq<RotationRecordRow>, now: i64)
    requires
        chain_wf(pre),
        forall|i: int| 0 <= i < pre.len() ==> (#[trigger] pre[i]).created_at <= now,
        post.len() == pre.len() + 1,
        forall|j: int| 0 <= j < pre.len() ==> post[j] == pre[j],
        post.last().record_type@ == "genesis"@ || post.last().record_type@ == "rotation"@,
        post.last().record_type@ == "genesis"@ ==> post.last().prev_key is None
            && post.last().signature_old is None,
        post.last().record_type@ == "rotation"@ ==> post.last().prev_key is Some
            && post.last().signature_old is Some,
        post.last().created_at == now,
    ensures
        forall|i: int|
            0 <= i < post.len() ==> ((#[trigger] post[i]).record_type@ == "genesis"@
                || post[i].record_type@ == "rotation"@),
        forall|i: int|
            0 <= i < post.len() && (#[trigger] post[i]).record_type@ == "genesis"@ ==> (
            post[i].prev_key is None && post[i].signature_old is None),
        forall|i: int|
            0 <= i < post.len() && (#[trigger] post[i]).record_type@ == "rotation"@ ==> (
            post[i].prev_key is Some && post[i].signature_old is Some),
        forall|i: int, j: int|
            0 <= i < j < post.len() && (#[trigger] post[i]).fingerprint@
                == (#[trigger] post[j]).fingerprint@ ==> post[i].created_at <= post[j].created_at,
{
    let n = pre.len() as int;
    reveal_strlit("genesis");
    reveal_strlit("rotation");
    assert("genesis"@.len() == 7);
    assert("rotation"@.len() == 8);
    assert forall|i: int|
        0 <= i < post.len() implies ((#[trigger] post[i]).record_type@ == "genesis"@
        || post[i].record_type@ == "rotation"@) by {
        if i < n {
            assert(post[i] == pre[i]);
        }
    }
    assert forall|i: int|
        0 <= i < post.len() && (#[trigger] post[i]).record_type@ == "genesis"@ implies (
        post[i].prev_key is None && post[i].signature_old is None) by {
        if i < n {
            assert(post[i] == pre[i]);
        }
    }
    assert forall|i: int|
        0 <= i < post.len() && (#[trigger] post[i]).record_type@ == "rotation"@ implies (
        post[i].prev_key is Some && post[i].signature_old is Some) by {
        if i < n {
            assert(post[i] == pre[i]);
        }
    }
    assert forall|i: int, j: int|
        0 <= i < j < post.len() && (#[trigger] post[i]).fingerprint@
            == (#[trigger] post[j]).fingerprint@ implies post[i].created_at
        <= post[j].created_at by {
        if j < n {
            assert(post[i] == pre[i]);
            assert(post[j] == pre[j]);
        } else {
            assert(post[i] == pre[i]);
        }
    }
}

/// Users and rotation records keep referencing one another after the
/// paired insert.
#[verifier::rlimit(100)]
proof fn lemma_register_crossrefs(mid: ServerDb, post: ServerDb, now: i64)
    requires
        mid.wf(),
        post.users@.len() == mid.users@.len() + 1,
        forall|j: int| 0 <= j < mid.users@.len() ==> post.users@[j] == mid.users@[j],
        post.rotation_records@.len() == mid.rotation_records@.len() + 1,
        forall|j: int|
            0 <= j < mid.rotation_records@.len() ==> post.rotation_records@[j]
                == mid.rotation_records@[j],
        post.rotation_records@.last().fingerprint@ == post.users@.last().fingerprint@,
    ensures
        forall|i: int|
            0 <= i < post.rotation_records@.len() ==> has_key(
                post.user_fps(),
                (#[trigger] post.rotation_records@[i]).fingerprint@,
            ),
        forall|i: int|
            0 <= i < post.users@.len() ==> has_key(
                post.record_fps(),
                (#[trigger] post.users@[i]).fingerprint@,
            ),
{
    let fp = post.users@.last().fingerprint@;
    let n = mid.rotation_records@.len() as int;
    assert forall|i: int| 0 <= i < post.rotation_records@.len() implies has_key(
        post.user_fps(),
        (#[trigger] post.rotation_records@[i]).fingerprint@,
    ) by {
        if i < n {
            assert(post.rotation_records@[i] == mid.rotation_records@[i]);
            assert(has_key(mid.user_fps(), mid.rotation_records@[i].fingerprint@));
            let u = crate::keyidx::index_of(
                mid.user_fps(),
                mid.rotation_records@[i].fingerprint@,
            );
            assert(mid.user_fps()[u] == mid.rotation_records@[i].fingerprint@);
            assert(post.user_fps()[u] == mid.rotation_records@[i].fingerprint@);
        } else {
            assert(post.user_fps()[post.users@.len() - 1] == fp);
        }
    }
    assert forall|i: int| 0 <= i < post.users@.len() implies has_key(
        post.record_fps(),
        (#[trigger] post.users@[i]).fingerprint@,
    ) by {
        if i < mid.users@.len() {
            assert(post.users@[i] == mid.users@[i]);
            assert(has_key(mid.record_fps(), mid.users@[i].fingerprint@));
            let k = crate::keyidx::index_of(mid.record_fps(), mid.users@[i].fingerprint@);
            assert(mid.record_fps()[k] == mid.users@[i].fingerprint@);
            assert(post.record_fps()[k] == mid.users@[i].fingerprint@);
        } else {
            assert(post.record_fps()[n] == fp);
        }
    }
}


// --- Key rotation ---

/// A rotation record still inside its cancellation window.
pub open spec fn rot_live(r: RotationRecordRow, fp: Seq<char>, now: i64) -> bool {
    &&& r.fingerprint@ == fp
    &&& r.record_type@ == "rotation"@
    &&& !r.cancelled
    &&& r.cancellation_deadline matches Some(d) && d > now
}

/// Whether any rotation for this fingerprint is inside its window.
pub open spec fn live_rotation_exists(records: Seq<RotationRecordRow>, fp: Seq<char>, now: i64) -> bool {
    exists|i: int| 0 <= i < records.len() && rot_live(#[trigger] records[i], fp, now)
}

/// Index of the most recent rotation still inside its window; -1 when
/// there is none.
pub open spec fn last_live_idx(records: Seq<RotationRecordRow>, fp: Seq<char>, now: i64) -> int
    decreases records.len(),
{
    if records.len() == 0 {
        -1
    } else if rot_live(records.last(), fp, now) {
        records.len() - 1
    } else {
        last_live_idx(records.drop_last(), fp, now)
    }
}

/// Index of the most recent rotation still inside its window.
fn find_live_rotation(db: &ServerDb, fp: &str, now: i64) -> (r: Option<usize>)
    ensures
        match r {
            Some(i) => {
                &&& i < db.rotation_records@.len()
                &&& i == last_live_idx(db.rotation_records@, fp@, now)
                &&& rot_live(db.rotation_records@[i as int], fp@, now)
                &&& forall|j: int|
                    i < j < db.rotation_records@.len() ==> !rot_live(
                        #[trigger] db.rotation_records@[j],
                        fp@,
                        now,
                    )
            },
            None => !live_rotation_exists(db.rotation_records@, fp@, now),
        },
{
    let n = db.rotation_records.len();
    let mut i: usize = n;
    proof {
        assert(db.rotation_records@.take(n as int) =~= db.rotation_records@);
    }
    #[verifier::loop_isolation(false)]
    while i > 0
        invariant
            i <= n,
            n == db.rotation_records@.len(),
            forall|j: int|
                i <= j < n ==> !rot_live(#[trigger] db.rotation_records@[j], fp@, now),
            last_live_idx(db.rotation_records@, fp@, now) == last_live_idx(
                db.rotation_records@.take(i as int),
                fp@,
                now,
            ),
        decreases i,
    {
        i = i - 1;
        proof {
            assert(db.rotation_records@.take(i as int + 1).drop_last()
                =~= db.rotation_records@.take(i as int));
            assert(db.rotation_records@.take(i as int + 1).last()
                == db.rotation_records@[i as int]);
        }
        let rec = &db.rotation_records[i];
        let fp_match = str_eq(rec.fingerprint.as_str(), fp);
        let kind_match = str_eq(rec.record_type.as_str(), "rotation");
        let live = match rec.cancellation_deadline {
            Some(d) => d > now,
            None => false,
        };
        if fp_match && kind_match && !rec.cancelled && live {
            return Some(i);
        }
    }
    proof {
        if live_rotation_exists(db.rotation_records@, fp@, now) {
            let k = choose|k: int|
                0 <= k < db.rotation_records@.len() && rot_live(
                    #[trigger] db.rotation_records@[k],
                    fp@,
                    now,
                );
            assert(!rot_live(db.rotation_records@[k], fp@, now));
        }
    }
    None
}

/// One user row after its key was replaced.
pub open spec fn user_rekeyed(pre_u: User, post_u: User, new_key: Seq<u8>, now: i64) -> bool {
    &&& post_u.id@ == pre_u.id@
    &&& post_u.public_key@ == new_key
    &&& post_u.fingerprint@ == pre_u.fingerprint@
    &&& post_u.display_name@ == pre_u.display_name@
    &&& post_u.roles == pre_u.roles
    &&& post_u.is_owner == pre_u.is_owner
    &&& (match pre_u.totp_secret_encrypted {
        Some(v) => post_u.totp_secret_encrypted matches Some(w) && w@ == v@,
        None => post_u.totp_secret_encrypted is None,
    })
    &&& post_u.totp_enrolled == pre_u.totp_enrolled
    &&& post_u.created_at == pre_u.created_at
    &&& post_u.updated_at == now
}

/// The first check a rotation fails, if any.
pub open spec fn rotate_verdict(
    db: ServerDb,
    sub: Seq<char>,
    prev_hex: Seq<char>,
    new_hex: Seq<char>,
    reason: Seq<char>,
    sig_old_hex: Seq<char>,
    sig_new_hex: Seq<char>,
    now: i64,
) -> Option<ApiError> {
    let prev = hex_decoded(prev_hex);
    let new = hex_decoded(new_hex);
    let sig_old = hex_decoded(sig_old_hex);
    let sig_new = hex_decoded(sig_new_hex);
    let payload = rotation_payload_spec(prev, new, vstd::utf8::encode_utf8(reason));
    if !(reason == "compromise"@ || reason == "scheduled"@ || reason == "device_loss"@) {
        Some(ApiError::BadRequest)
    } else if !is_hex_string(prev_hex) {
        Some(ApiError::BadRequest)
    } else if !is_hex_string(new_hex) {
        Some(ApiError::BadRequest)
    } else if !is_hex_string(sig_old_hex) {
        Some(ApiError::BadRequest)
    } else if !is_hex_string(sig_new_hex) {
        Some(ApiError::BadRequest)
    } else if new.len() != 32 || !ed_key_valid(new) {
        Some(ApiError::BadRequest)
    } else if sig_verdict(prev, payload, sig_old) is Some {
        sig_verdict(prev, payload, sig_old)
    } else if sig_verdict(new, payload, sig_new) is Some {
        sig_verdict(new, payload, sig_new)
    } else if !has_key(db.user_ids(), sub) {
        Some(ApiError::NotFound)
    } else if db.users@[crate::keyidx::index_of(db.user_ids(), sub)].public_key@ != prev {
        Some(ApiError::BadRequest)
    } else if live_rotation_exists(
        db.rotation_records@,
        db.users@[crate::keyidx::index_of(db.user_ids(), sub)].fingerprint@,
        now,
    ) {
        Some(ApiError::Conflict)
    } else {
        None
    }
}

/// Everything a successful rotation changes: the appended record, the
/// replaced key, and the cleared sessions.
pub open spec fn rotate_post(
    pre: ServerDb,
    post: ServerDb,
    uidx: int,
    new_key: Seq<u8>,
    reason: Seq<char>,
    sig_old: Seq<u8>,
    sig_new: Seq<u8>,
    now: i64,
) -> bool {
    &&& 0 <= uidx < pre.users@.len()
    &&& post.users@.len() == pre.users@.len()
    &&& user_rekeyed(pre.users@[uidx], post.users@[uidx], new_key, now)
    &&& forall|j: int| 0 <= j < pre.users@.len() && j != uidx ==> post.users@[j] == pre.users@[j]
    &&& post.rotation_records@.len() == pre.rotation_records@.len() + 1
    &&& post.rotation_records@.take(pre.rotation_records@.len() as int) == pre.rotation_records@
    &&& {
        let rec = post.rotation_records@.last();
        &&& rec.fingerprint@ == pre.users@[uidx].fingerprint@
        &&& rec.record_type@ == "rotation"@
        &&& rec.prev_key matches Some(p) && p@ == pre.users@[uidx].public_key@
        &&& rec.new_key@ == new_key
        &&& rec.reason matches Some(rr) && rr@ == reason
        &&& rec.signature_old matches Some(so) && so@ == sig_old
        &&& rec.signature_new@ == sig_new
        &&& rec.cancellation_deadline == Some((now + ROTATION_WINDOW_MS) as i64)
        &&& !rec.cancelled
        &&& rec.created_at == now
    }
    &&& post.refresh_tokens@ == tokens_without_user(pre.refresh_tokens@, pre.users@[uidx].id@)
    &&& post.bans@ == pre.bans@
    &&& post.messages@ == pre.messages@
    &&& post.server_settings@ == pre.server_settings@
    &&& post.invites@ == pre.invites@
    &&& post.identity_blobs@ == pre.identity_blobs@
    &&& post.roles@ == pre.roles@
    &&& post.user_roles@ == pre.user_roles@
    &&& post.categories@ == pre.categories@
    &&& post.channels@ == pre.channels@
    &&& post.dm_conversations@ == pre.dm_conversations@
    &&& post.dm_messages@ == pre.dm_messages@
    &&& post.blocks@ == pre.blocks@
}

/// Accept a key rotation: verify both signatures over the canonical
/// payload, require the previous key to be the user's current key and no
/// other rotation to be pending, append the record with a 72-hour window,
/// replace the user's key, and delete every refresh token of the user.
#[verifier::rlimit(100)]
pub fn rotate_key(db: &mut ServerDb, sub: &str, req: &RotateKeyRequest, now: i64) -> (r: Result<
    RotateKeyResponse,
    ApiError,
>)
    requires
        old(db).wf(),
        old(db).times_ok(now),
        0 <= now <= MAX_TIME_MS,
    ensures
        final(db).wf(),
        ({
            let verdict = rotate_verdict(
                *old(db),
                sub@,
                req.prev_key@,
                req.new_key@,
                req.reason@,
                req.signature_old@,
                req.signature_new@,
                now,
            );
            &&& (verdict matches Some(e) ==> r == Err::<RotateKeyResponse, ApiError>(e))
            &&& (verdict is None ==> r is Ok)
            &&& (r matches Err(_) ==> *final(db) == *old(db))
            &&& (r matches Ok(out) ==> {
                &&& verdict is None
                &&& out.accepted
                &&& out.cancellation_deadline == now + ROTATION_WINDOW_MS
                &&& has_key(old(db).user_ids(), sub@)
                &&& rotate_post(
                    *old(db),
                    *final(db),
                    crate::keyidx::index_of(old(db).user_ids(), sub@),
                    hex_decoded(req.new_key@),
                    req.reason@,
                    hex_decoded(req.signature_old@),
                    hex_decoded(req.signature_new@),
                    now,
                )
            })
        }),
{
    let ghost db0 = *db;
    let reason_ok = str_eq(req.reason.as_str(), "compromise") || str_eq(
        req.reason.as_str(),
        "scheduled",
    ) || str_eq(req.reason.as_str(), "device_loss");
    if !reason_ok {
        return Err(ApiError::BadRequest);
    }
    let prev_bytes = match hex_decode(req.prev_key.as_str()) {
        Ok(v) => v,
        Err(_) => {
            return Err(ApiError::BadRequest);
        },
    };
    let new_bytes = match hex_decode(req.new_key.as_str()) {
        Ok(v) => v,
        Err(_) => {
            return Err(ApiError::BadRequest);
        },
    };
    let sig_old = match hex_decode(req.signature_old.as_str()) {
        Ok(v) => v,
        Err(_) => {
            return Err(ApiError::BadRequest);
        },
    };
    let sig_new = match hex_decode(req.signature_new.as_str()) {
        Ok(v) => v,
        Err(_) => {
            return Err(ApiError::BadRequest);
        },
    };
    if new_bytes.len() != 32 {
        return Err(ApiError::BadRequest);
    }
    if !ed_check_key(&new_bytes) {
        return Err(ApiError::BadRequest);
    }
    let payload = rotation_payload(&prev_bytes, &new_bytes, req.reason.as_str());
    match verify_signature(&prev_bytes, &payload, &sig_old) {
        Ok(_) => {},
        Err(e) => {
            return Err(e);
        },
    }
    match verify_signature(&new_bytes, &payload, &sig_new) {
        Ok(_) => {},
        Err(e) => {
            return Err(e);
        },
    }
    let uidx = match db.user_idx_by_id(sub) {
        Some(i) => i,
        None => {
            return Err(ApiError::NotFound);
        },
    };
    proof {
        assert(db.user_ids()[uidx as int] == sub@);
        lemma_index_of_at(db.user_ids(), uidx as int);
    }
    if !bytes_eq(&db.users[uidx].public_key, &prev_bytes) {
        return Err(ApiError::BadRequest);
    }
    let fp = db.users[uidx].fingerprint.clone();
    match find_live_rotation(db, fp.as_str(), now) {
        Some(i) => {
            proof {
                assert(live_rotation_exists(db.rotation_records@, fp@, now));
            }
            return Err(ApiError::Conflict);
        },
        None => {},
    }
    let rotation_id = new_uuid_string();
    let deadline = now + ROTATION_WINDOW_MS;
    db.rotation_records.push(
        RotationRecordRow {
            id: rotation_id,
            fingerprint: fp.clone(),
            record_type: String::from_str("rotation"),
            prev_key: Some(bytes_clone(&prev_bytes)),
            new_key: bytes_clone(&new_bytes),
            reason: Some(req.reason.clone()),
            signature_old: Some(sig_old),
            signature_new: sig_new,
            cancellation_deadline: Some(deadline),
            cancelled: false,
            created_at: now,
        },
    );
    let old_user = &db.users[uidx];
    let updated = User {
        id: old_user.id.clone(),
        public_key: new_bytes,
        fingerprint: old_user.fingerprint.clone(),
        display_name: old_user.display_name.clone(),
        roles: old_user.roles,
        is_owner: old_user.is_owner,
        totp_secret_encrypted: crate::util::opt_bytes_clone(&old_user.totp_secret_encrypted),
        totp_enrolled: old_user.totp_enrolled,
        created_at: old_user.created_at,
        updated_at: now,
    };
    db.users.set(uidx, updated);
    let user_id = db.users[uidx].id.clone();
    proof {
        lemma_rotate_inserts_wf(db0, *db, uidx as int, now);
    }
    delete_refresh_tokens_of(db, user_id.as_str());
    proof {
        assert(db.rotation_records@.take(db0.rotation_records@.len() as int)
            =~= db0.rotation_records@);
    }
    Ok(RotateKeyResponse { accepted: true, cancellation_deadline: deadline })
}

/// Appending a rotation record for an existing user and replacing that
/// user's key preserves the store invariant.
#[verifier::rlimit(100)]
proof fn lemma_rotate_inserts_wf(pre: ServerDb, post: ServerDb, uidx: int, now: i64)
    requires
        pre.wf(),
        pre.times_ok(now),
        0 <= uidx < pre.users@.len(),
        post.users@.len() == pre.users@.len(),
        forall|j: int| 0 <= j < pre.users@.len() && j != uidx ==> post.users@[j] == pre.users@[j],
        post.users@[uidx].id@ == pre.users@[uidx].id@,
        post.users@[uidx].fingerprint@ == pre.users@[uidx].fingerprint@,
        post.users@[uidx].display_name@ == pre.users@[uidx].display_name@,
        post.rotation_records@.len() == pre.rotation_records@.len() + 1,
        forall|j: int|
            0 <= j < pre.rotation_records@.len() ==> post.rotation_records@[j]
                == pre.rotation_records@[j],
        post.rotation_records@.last().fingerprint@ == pre.users@[uidx].fingerprint@,
        post.rotation_records@.last().record_type@ == "rotation"@,
        post.rotation_records@.last().prev_key is Some,
        post.rotation_records@.last().signature_old is Some,
        post.rotation_records@.last().created_at == now,
        post.server_settings@ == pre.server_settings@,
        post.invites@ == pre.invites@,
        post.bans@ == pre.bans@,
        post.messages@ == pre.messages@,
        post.next_message_id == pre.next_message_id,
        post.dm_messages@ == pre.dm_messages@,
        post.dm_conversations@ == pre.dm_conversations@,
        post.dm_public_keys@ == pre.dm_public_keys@,
        post.categories@ == pre.categories@,
        post.channels@ == pre.channels@,
        post.blocks@ == pre.blocks@,
        post.refresh_tokens@ == pre.refresh_tokens@,
        post.roles@ == pre.roles@,
        post.user_roles@ == pre.user_roles@,
        post.identity_blobs@ == pre.identity_blobs@,
        post.reactions@ == pre.reactions@,
        post.last_read@ == pre.last_read@,
        post.dm_offline_queue@ == pre.dm_offline_queue@,
    ensures
        post.wf(),
        post.times_ok(now),
{
    let fp = pre.users@[uidx].fingerprint@;
    assert(post.user_ids() =~= pre.user_ids());
    assert(post.user_fps() =~= pre.user_fps());
    assert(post.user_names() =~= pre.user_names());
    assert(post.record_fps() =~= pre.record_fps().push(fp));
    lemma_rotation_append_chain(pre.rotation_records@, post.rotation_records@, fp, now);
    assert forall|i: int| 0 <= i < post.rotation_records@.len() implies has_key(
        post.user_fps(),
        (#[trigger] post.rotation_records@[i]).fingerprint@,
    ) by {
        if i < pre.rotation_records@.len() {
            assert(post.rotation_records@[i] == pre.rotation_records@[i]);
            assert(has_key(pre.user_fps(), pre.rotation_records@[i].fingerprint@));
        } else {
            assert(pre.user_fps()[uidx] == fp);
        }
    }
    assert forall|i: int| 0 <= i < post.users@.len() implies has_key(
        post.record_fps(),
        (#[trigger] post.users@[i]).fingerprint@,
    ) by {
        assert(post.users@[i].fingerprint@ == pre.users@[i].fingerprint@);
        assert(has_key(pre.record_fps(), pre.users@[i].fingerprint@));
        let k = crate::keyidx::index_of(pre.record_fps(), pre.users@[i].fingerprint@);
        assert(pre.record_fps()[k] == pre.users@[i].fingerprint@);
        assert(post.record_fps()[k] == pre.users@[i].fingerprint@);
    }
}

/// Appending a rotation record for a fingerprint that already has records
/// keeps the chain well-formed.
proof fn lemma_rotation_append_chain(
    pre: Seq<RotationRecordRow>,
    post: Seq<RotationRecordRow>,
    fp: Seq<char>,
    now: i64,
)
    requires
        chain_wf(pre),
        forall|i: int| 0 <= i < pre.len() ==> (#[trigger] pre[i]).created_at <= now,
        post.len() == pre.len() + 1,
        forall|j: int| 0 <= j < pre.len() ==> post[j] == pre[j],
        post.last().fingerprint@ == fp,
        post.last().record_type@ == "rotation"@,
        post.last().prev_key is Some,
        post.last().signature_old is Some,
        post.last().created_at == now,
        exists|j: int| 0 <= j < pre.len() && (#[trigger] pre[j]).fingerprint@ == fp,
    ensures
        chain_wf(post),
{
    reveal_strlit("genesis");
    reveal_strlit("rotation");
    assert("genesis"@.len() == 7);
    assert("rotation"@.len() == 8);
    lemma_rotation_append_iff(pre, post, fp);
    lemma_chain_push_rest(pre, post, now);
}

/// A repeated fingerprint is never a first occurrence, so the appended
/// rotation record satisfies the genesis criterion vacuously.
#[verifier::spinoff_prover]
#[verifier::rlimit(100)]
proof fn lemma_rotation_append_iff(
    pre: Seq<RotationRecordRow>,
    post: Seq<RotationRecordRow>,
    fp: Seq<char>,
)
    requires
        chain_wf(pre),
        post.len() == pre.len() + 1,
        forall|j: int| 0 <= j < pre.len() ==> post[j] == pre[j],
        post.last().fingerprint@ == fp,
        post.last().record_type@ != "genesis"@,
        exists|j: int| 0 <= j < pre.len() && (#[trigger] pre[j]).fingerprint@ == fp,
    ensures
        forall|i: int|
            0 <= i < post.len() ==> (((#[trigger] post[i]).record_type@ == "genesis"@)
                <==> crate::state::first_fp_at(post, i)),
{
    let n = pre.len() as int;
    assert forall|i: int|
        0 <= i < post.len() implies (((#[trigger] post[i]).record_type@ == "genesis"@)
        <==> crate::state::first_fp_at(post, i)) by {
        if i < n {
            assert(post[i] == pre[i]);
            assert((pre[i].record_type@ == "genesis"@) <==> crate::state::first_fp_at(pre, i));
            if crate::state::first_fp_at(pre, i) {
                assert forall|j: int| 0 <= j < i implies (#[trigger] post[j]).fingerprint@
                    != post[i].fingerprint@ by {
                    assert(pre[j].fingerprint@ != pre[i].fingerprint@);
                }
                assert(crate::state::first_fp_at(post, i));
            } else {
                let j = choose|j: int|
                    0 <= j < i && (#[trigger] pre[j]).fingerprint@ == pre[i].fingerprint@;
                assert(post[j].fingerprint@ == post[i].fingerprint@);
                assert(!crate::state::first_fp_at(post, i));
            }
        } else {
            let j = choose|j: int| 0 <= j < pre.len() && (#[trigger] pre[j]).fingerprint@ == fp;
            assert(post[j].fingerprint@ == post[i].fingerprint@);
            assert(!crate::state::first_fp_at(post, i));
        }
    }
}


// --- Cancellation ---

/// One rotation record after cancellation: every field kept, the
/// cancelled flag set.
pub open spec fn record_cancelled(pre_r: RotationRecordRow, post_r: RotationRecordRow) -> bool {
    &&& post_r.id@ == pre_r.id@
    &&& post_r.fingerprint@ == pre_r.fingerprint@
    &&& post_r.record_type@ == pre_r.record_type@
    &&& (match pre_r.prev_key {
        Some(v) => post_r.prev_key matches Some(w) && w@ == v@,
        None => post_r.prev_key is None,
    })
    &&& post_r.new_key@ == pre_r.new_key@
    &&& (match pre_r.reason {
        Some(v) => post_r.reason matches Some(w) && w@ == v@,
        None => post_r.reason is None,
    })
    &&& (match pre_r.signature_old {
        Some(v) => post_r.signature_old matches Some(w) && w@ == v@,
        None => post_r.signature_old is None,
    })
    &&& post_r.signature_new@ == pre_r.signature_new@
    &&& post_r.cancellation_deadline == pre_r.cancellation_deadline
    &&& post_r.cancelled
    &&& post_r.created_at == pre_r.created_at
}

/// Everything a successful cancellation changes: the record marked
/// cancelled, the key reverted, and the sessions cleared.
pub open spec fn cancel_post(pre: ServerDb, post: ServerDb, uidx: int, ridx: int, now: i64) -> bool {
    &&& 0 <= uidx < pre.users@.len()
    &&& 0 <= ridx < pre.rotation_records@.len()
    &&& rot_live(pre.rotation_records@[ridx], pre.users@[uidx].fingerprint@, now)
    &&& post.rotation_records@.len() == pre.rotation_records@.len()
    &&& forall|j: int|
        0 <= j < pre.rotation_records@.len() && j != ridx ==> post.rotation_records@[j]
            == pre.rotation_records@[j]
    &&& record_cancelled(pre.rotation_records@[ridx], post.rotation_records@[ridx])
    &&& post.users@.len() == pre.users@.len()
    &&& user_rekeyed(
        pre.users@[uidx],
        post.users@[uidx],
        pre.rotation_records@[ridx].prev_key->Some_0@,
        now,
    )
    &&& forall|j: int| 0 <= j < pre.users@.len() && j != uidx ==> post.users@[j] == pre.users@[j]
    &&& post.refresh_tokens@ == tokens_without_user(pre.refresh_tokens@, pre.users@[uidx].id@)
    &&& post.bans@ == pre.bans@
    &&& post.messages@ == pre.messages@
    &&& post.server_settings@ == pre.server_settings@
    &&& post.invites@ == pre.invites@
    &&& post.identity_blobs@ == pre.identity_blobs@
    &&& post.roles@ == pre.roles@
    &&& post.user_roles@ == pre.user_roles@
    &&& post.categories@ == pre.categories@
    &&& post.channels@ == pre.channels@
    &&& post.dm_conversations@ == pre.dm_conversations@
    &&& post.dm_messages@ == pre.dm_messages@
    &&& post.blocks@ == pre.blocks@
}

/// The first check a cancellation fails, if any.
pub open spec fn cancel_verdict(db: ServerDb, sub: Seq<char>, sig_hex: Seq<char>, now: i64) -> Option<
    ApiError,
> {
    if !is_hex_string(sig_hex) {
        Some(ApiError::BadRequest)
    } else if !has_key(db.user_ids(), sub) {
        Some(ApiError::NotFound)
    } else {
        let fp = db.users@[crate::keyidx::index_of(db.user_ids(), sub)].fingerprint@;
        if !live_rotation_exists(db.rotation_records@, fp, now) {
            Some(ApiError::NotFound)
        } else {
            let ridx = last_live_idx(db.rotation_records@, fp, now);
            sig_verdict(
                db.rotation_records@[ridx].prev_key->Some_0@,
                cancel_payload_spec(vstd::utf8::encode_utf8(fp)),
                hex_decoded(sig_hex),
            )
        }
    }
}

/// Cancel a pending rotation within its window: the signature by the old
/// key over the canonical cancellation payload marks the record cancelled,
/// reverts the user's key, and clears every session.
#[verifier::rlimit(100)]
pub fn cancel_rotation(db: &mut ServerDb, sub: &str, req: &CancelRotationRequest, now: i64) -> (r:
    Result<CancelRotationResponse, ApiError>)
    requires
        old(db).wf(),
        old(db).times_ok(now),
        0 <= now <= MAX_TIME_MS,
    ensures
        final(db).wf(),
        ({
            let verdict = cancel_verdict(*old(db), sub@, req.signature_old_key@, now);
            &&& (verdict matches Some(e) ==> r == Err::<CancelRotationResponse, ApiError>(e))
            &&& (verdict is None ==> r is Ok)
            &&& (r matches Err(_) ==> *final(db) == *old(db))
            &&& (r matches Ok(out) ==> {
                &&& verdict is None
                &&& out.cancelled
                &&& has_key(old(db).user_ids(), sub@)
                &&& cancel_post(
                    *old(db),
                    *final(db),
                    crate::keyidx::index_of(old(db).user_ids(), sub@),
                    last_live_idx(
                        old(db).rotation_records@,
                        old(db).users@[crate::keyidx::index_of(old(db).user_ids(), sub@)].fingerprint@,
                        now,
                    ),
                    now,
                )
            })
        }),
{
    let ghost db0 = *db;
    let sig_bytes = match hex_decode(req.signature_old_key.as_str()) {
        Ok(v) => v,
        Err(_) => {
            return Err(ApiError::BadRequest);
        },
    };
    let uidx = match db.user_idx_by_id(sub) {
        Some(i) => i,
        None => {
            return Err(ApiError::NotFound);
        },
    };
    proof {
        assert(db.user_ids()[uidx as int] == sub@);
        lemma_index_of_at(db.user_ids(), uidx as int);
    }
    let fp = db.users[uidx].fingerprint.clone();
    let ridx = match find_live_rotation(db, fp.as_str(), now) {
        Some(i) => i,
        None => {
            return Err(ApiError::NotFound);
        },
    };
    let prev_key = match &db.rotation_records[ridx].prev_key {
        Some(p) => bytes_clone(p),
        None => {
            proof {
                assert(false);
            }
            return Err(ApiError::Internal);
        },
    };
    let payload = cancel_payload(fp.as_str());
    match verify_signature(&prev_key, &payload, &sig_bytes) {
        Ok(_) => {},
        Err(e) => {
            return Err(e);
        },
    }
    let pre_rec = &db.rotation_records[ridx];
    let updated_rec = RotationRecordRow {
        id: pre_rec.id.clone(),
        fingerprint: pre_rec.fingerprint.clone(),
        record_type: pre_rec.record_type.clone(),
        prev_key: crate::util::opt_bytes_clone(&pre_rec.prev_key),
        new_key: bytes_clone(&pre_rec.new_key),
        reason: crate::util::opt_string_clone(&pre_rec.reason),
        signature_old: crate::util::opt_bytes_clone(&pre_rec.signature_old),
        signature_new: bytes_clone(&pre_rec.signature_new),
        cancellation_deadline: pre_rec.cancellation_deadline,
        cancelled: true,
        created_at: pre_rec.created_at,
    };
    db.rotation_records.set(ridx, updated_rec);
    let old_user = &db.users[uidx];
    let updated_user = User {
        id: old_user.id.clone(),
        public_key: prev_key,
        fingerprint: old_user.fingerprint.clone(),
        display_name: old_user.display_name.clone(),
        roles: old_user.roles,
        is_owner: old_user.is_owner,
        totp_secret_encrypted: crate::util::opt_bytes_clone(&old_user.totp_secret_encrypted),
        totp_enrolled: old_user.totp_enrolled,
        created_at: old_user.created_at,
        updated_at: now,
    };
    db.users.set(uidx, updated_user);
    let user_id = db.users[uidx].id.clone();
    proof {
        lemma_cancel_wf(db0, *db, uidx as int, ridx as int, now);
    }
    delete_refresh_tokens_of(db, user_id.as_str());
    Ok(CancelRotationResponse { cancelled: true })
}

/// Marking one record cancelled and reverting one user's key preserves
/// the store invariant.
#[verifier::rlimit(100)]
proof fn lemma_cancel_wf(pre: ServerDb, post: ServerDb, uidx: int, ridx: int, now: i64)
    requires
        pre.wf(),
        pre.times_ok(now),
        0 <= uidx < pre.users@.len(),
        0 <= ridx < pre.rotation_records@.len(),
        post.users@.len() == pre.users@.len(),
        forall|j: int| 0 <= j < pre.users@.len() && j != uidx ==> post.users@[j] == pre.users@[j],
        post.users@[uidx].id@ == pre.users@[uidx].id@,
        post.users@[uidx].fingerprint@ == pre.users@[uidx].fingerprint@,
        post.users@[uidx].display_name@ == pre.users@[uidx].display_name@,
        post.rotation_records@.len() == pre.rotation_records@.len(),
        forall|j: int|
            0 <= j < pre.rotation_records@.len() && j != ridx ==> post.rotation_records@[j]
                == pre.rotation_records@[j],
        record_cancelled(pre.rotation_records@[ridx], post.rotation_records@[ridx]),
        post.server_settings@ == pre.server_settings@,
        post.invites@ == pre.invites@,
        post.bans@ == pre.bans@,
        post.messages@ == pre.messages@,
        post.next_message_id == pre.next_message_id,
        post.dm_messages@ == pre.dm_messages@,
        post.dm_conversations@ == pre.dm_conversations@,
        post.dm_public_keys@ == pre.dm_public_keys@,
        post.categories@ == pre.categories@,
        post.channels@ == pre.channels@,
        post.blocks@ == pre.blocks@,
        post.refresh_tokens@ == pre.refresh_tokens@,
        post.roles@ == pre.roles@,
        post.user_roles@ == pre.user_roles@,
        post.identity_blobs@ == pre.identity_blobs@,
        post.reactions@ == pre.reactions@,
        post.last_read@ == pre.last_read@,
        post.dm_offline_queue@ == pre.dm_offline_queue@,
    ensures
        post.wf(),
        post.times_ok(now),
{
    assert(post.user_ids() =~= pre.user_ids());
    assert(post.user_fps() =~= pre.user_fps());
    assert(post.user_names() =~= pre.user_names());
    assert(post.record_fps() =~= pre.record_fps());
    lemma_cancel_chain(pre.rotation_records@, post.rotation_records@, ridx);
    assert forall|i: int| 0 <= i < post.rotation_records@.len() implies has_key(
        post.user_fps(),
        (#[trigger] post.rotation_records@[i]).fingerprint@,
    ) by {
        assert(post.rotation_records@[i].fingerprint@ == pre.rotation_records@[i].fingerprint@);
        assert(has_key(pre.user_fps(), pre.rotation_records@[i].fingerprint@));
    }
    assert forall|i: int| 0 <= i < post.users@.len() implies has_key(
        post.record_fps(),
        (#[trigger] post.users@[i]).fingerprint@,
    ) by {
        assert(post.users@[i].fingerprint@ == pre.users@[i].fingerprint@);
        assert(has_key(pre.record_fps(), pre.users@[i].fingerprint@));
    }
    assert forall|i: int| 0 <= i < post.rotation_records@.len() implies (#[trigger] post.rotation_records@[i]).created_at
        <= now by {
        assert(post.rotation_records@[i].created_at == pre.rotation_records@[i].created_at);
    }
}

/// Setting the cancelled flag on one record leaves the chain well-formed.
#[verifier::spinoff_prover]
#[verifier::rlimit(100)]
proof fn lemma_cancel_chain(pre: Seq<RotationRecordRow>, post: Seq<RotationRecordRow>, ridx: int)
    requires
        chain_wf(pre),
        0 <= ridx < pre.len(),
        post.len() == pre.len(),
        forall|j: int| 0 <= j < pre.len() && j != ridx ==> post[j] == pre[j],
        record_cancelled(pre[ridx], post[ridx]),
    ensures
        chain_wf(post),
{
    assert forall|i: int| 0 <= i < post.len() implies (#[trigger] post[i]).fingerprint@
        == pre[i].fingerprint@ && post[i].record_type@ == pre[i].record_type@ && (
    post[i].prev_key is Some <==> pre[i].prev_key is Some) && (post[i].signature_old is Some
        <==> pre[i].signature_old is Some) && post[i].created_at == pre[i].created_at by {
        if i != ridx {
            assert(post[i] == pre[i]);
        }
    }
    assert forall|i: int|
        0 <= i < post.len() implies (((#[trigger] post[i]).record_type@ == "genesis"@)
        <==> crate::state::first_fp_at(post, i)) by {
        assert((pre[i].record_type@ == "genesis"@) <==> crate::state::first_fp_at(pre, i));
        if crate::state::first_fp_at(pre, i) {
            assert forall|j: int| 0 <= j < i implies (#[trigger] post[j]).fingerprint@
                != post[i].fingerprint@ by {
                assert(pre[j].fingerprint@ != pre[i].fingerprint@);
            }
            assert(crate::state::first_fp_at(post, i));
        } else {
            let j = choose|j: int|
                0 <= j < i && (#[trigger] pre[j]).fingerprint@ == pre[i].fingerprint@;
            assert(post[j].fingerprint@ == post[i].fingerprint@);
            assert(!crate::state::first_fp_at(post, i));
        }
    }
}

// --- Laws of the rotation lifecycle ---

/// For every fingerprint the chain holds at most one genesis record, and
/// where any record exists a genesis exists, standing first; every other
/// record of the fingerprint is a rotation carrying both signatures.
pub proof fn lemma_chain_single_genesis(records: Seq<RotationRecordRow>, fp: Seq<char>)
    requires
        chain_wf(records),
    ensures
        forall|i: int, j: int|
            0 <= i < records.len() && 0 <= j < records.len() && (#[trigger] records[i]).fingerprint@
                == fp && (#[trigger] records[j]).fingerprint@ == fp && records[i].record_type@
                == "genesis"@ && records[j].record_type@ == "genesis"@ ==> i == j,
        (exists|i: int| 0 <= i < records.len() && (#[trigger] records[i]).fingerprint@ == fp)
            ==> exists|i: int|
            0 <= i < records.len() && (#[trigger] records[i]).fingerprint@ == fp
                && records[i].record_type@ == "genesis"@,
        forall|i: int|
            0 <= i < records.len() && (#[trigger] records[i]).fingerprint@ == fp
                && records[i].record_type@ != "genesis"@ ==> records[i].record_type@ == "rotation"@
                && records[i].prev_key is Some && records[i].signature_old is Some,
{
    assert forall|i: int, j: int|
        0 <= i < records.len() && 0 <= j < records.len() && (#[trigger] records[i]).fingerprint@
            == fp && (#[trigger] records[j]).fingerprint@ == fp && records[i].record_type@
            == "genesis"@ && records[j].record_type@ == "genesis"@ implies i == j by {
        if i < j {
            assert(crate::state::first_fp_at(records, j));
            assert(records[i].fingerprint@ != records[j].fingerprint@);
        } else if j < i {
            assert(crate::state::first_fp_at(records, i));
            assert(records[j].fingerprint@ != records[i].fingerprint@);
        }
    }
    if exists|i: int| 0 <= i < records.len() && (#[trigger] records[i]).fingerprint@ == fp {
        let i = choose|i: int| 0 <= i < records.len() && (#[trigger] records[i]).fingerprint@ == fp;
        lemma_genesis_before(records, i);
    }
}

proof fn lemma_genesis_before(records: Seq<RotationRecordRow>, i: int)
    requires
        chain_wf(records),
        0 <= i < records.len(),
    ensures
        exists|j: int|
            0 <= j <= i && (#[trigger] records[j]).fingerprint@ == records[i].fingerprint@
                && records[j].record_type@ == "genesis"@,
    decreases i,
{
    if crate::state::first_fp_at(records, i) {
        assert(records[i].record_type@ == "genesis"@);
    } else {
        let j = choose|j: int|
            0 <= j < i && (#[trigger] records[j]).fingerprint@ == records[i].fingerprint@;
        lemma_genesis_before(records, j);
    }
}

/// A rotation followed by a cancellation inside the window restores the
/// pre-rotation key and leaves the user with no refresh token after
/// either transition.
pub proof fn lemma_rotate_cancel_restores(
    db0: ServerDb,
    db1: ServerDb,
    db2: ServerDb,
    uidx: int,
    new_key: Seq<u8>,
    reason: Seq<char>,
    sig_old: Seq<u8>,
    sig_new: Seq<u8>,
    now1: i64,
    now2: i64,
)
    requires
        rotate_post(db0, db1, uidx, new_key, reason, sig_old, sig_new, now1),
        0 <= now1 <= MAX_TIME_MS,
        now1 <= now2 < now1 + ROTATION_WINDOW_MS,
        cancel_post(
            db1,
            db2,
            uidx,
            last_live_idx(db1.rotation_records@, db1.users@[uidx].fingerprint@, now2),
            now2,
        ),
    ensures
        db2.users@[uidx].public_key@ == db0.users@[uidx].public_key@,
        forall|i: int|
            0 <= i < db1.refresh_tokens@.len() ==> (#[trigger] db1.refresh_tokens@[i]).user_id@
                != db0.users@[uidx].id@,
        forall|i: int|
            0 <= i < db2.refresh_tokens@.len() ==> (#[trigger] db2.refresh_tokens@[i]).user_id@
                != db0.users@[uidx].id@,
        db2.bans@ == db0.bans@,
{
    let fp = db1.users@[uidx].fingerprint@;
    let pushed = db1.rotation_records@.last();
    assert(rot_live(pushed, fp, now2));
    assert(last_live_idx(db1.rotation_records@, fp, now2) == db1.rotation_records@.len() - 1);
    let ridx = db1.rotation_records@.len() - 1;
    assert(db1.rotation_records@[ridx].prev_key->Some_0@ == db0.users@[uidx].public_key@);
    assert(user_rekeyed(
        db1.users@[uidx],
        db2.users@[uidx],
        db0.users@[uidx].public_key@,
        now2,
    ));
    crate::auth::lemma_tokens_without_user_clean(db0.refresh_tokens@, db0.users@[uidx].id@);
    assert(db1.users@[uidx].id@ == db0.users@[uidx].id@);
    crate::auth::lemma_tokens_without_user_clean(db1.refresh_tokens@, db1.users@[uidx].id@);
}

/// A ban is keyed by fingerprint and survives a key rotation: the ban
/// table and the banned state of every fingerprint are untouched by the
/// rotation, and the user's fingerprint itself does not change.
pub proof fn lemma_ban_survives_rotation(
    pre: ServerDb,
    post: ServerDb,
    uidx: int,
    new_key: Seq<u8>,
    reason: Seq<char>,
    sig_old: Seq<u8>,
    sig_new: Seq<u8>,
    now: i64,
)
    requires
        rotate_post(pre, post, uidx, new_key, reason, sig_old, sig_new, now),
    ensures
        post.bans@ == pre.bans@,
        forall|fp: Seq<char>| #[trigger] post.spec_has_ban(fp) == pre.spec_has_ban(fp),
        post.users@[uidx].fingerprint@ == pre.users@[uidx].fingerprint@,
{
    assert(post.ban_fps() == pre.ban_fps());
}


// --- Rotation chain and identity blob ---

/// The records of one fingerprint, in creation order.
pub open spec fn chain_of(records: Seq<RotationRecordRow>, fp: Seq<char>) -> Seq<RotationRecordRow>
    decreases records.len(),
{
    if records.len() == 0 {
        Seq::empty()
    } else if records.last().fingerprint@ == fp {
        chain_of(records.drop_last(), fp).push(records.last())
    } else {
        chain_of(records.drop_last(), fp)
    }
}

/// A chain entry faithfully rendering one record, keys hex-encoded.
pub open spec fn entry_matches(e: RotationChainEntry, rec: RotationRecordRow) -> bool {
    &&& e.id@ == rec.id@
    &&& e.record_type@ == rec.record_type@
    &&& (match rec.prev_key {
        Some(b) => e.prev_key matches Some(h) && h@ == hex_of(b@),
        None => e.prev_key is None,
    })
    &&& e.new_key@ == hex_of(rec.new_key@)
    &&& (match rec.reason {
        Some(v) => e.reason matches Some(w) && w@ == v@,
        None => e.reason is None,
    })
    &&& (match rec.signature_old {
        Some(b) => e.signature_old matches Some(h) && h@ == hex_of(b@),
        None => e.signature_old is None,
    })
    &&& e.signature_new@ == hex_of(rec.signature_new@)
    &&& e.cancellation_deadline == rec.cancellation_deadline
    &&& e.cancelled == rec.cancelled
    &&& e.created_at == rec.created_at
}

/// The full rotation chain for a fingerprint, genesis and all rotations in
/// creation order; not found when the fingerprint has no records.
pub fn get_rotation_chain(db: &ServerDb, fingerprint: &str) -> (r: Result<
    RotationChainResponse,
    ApiError,
>)
    requires
        db.wf(),
    ensures
        r is Err <==> chain_of(db.rotation_records@, fingerprint@).len() == 0,
        r matches Err(e) ==> e == ApiError::NotFound,
        r matches Ok(out) ==> {
            &&& out.fingerprint@ == fingerprint@
            &&& out.chain@.len() == chain_of(db.rotation_records@, fingerprint@).len()
            &&& forall|i: int|
                0 <= i < out.chain@.len() ==> entry_matches(
                    #[trigger] out.chain@[i],
                    chain_of(db.rotation_records@, fingerprint@)[i],
                )
        },
{
    let mut out: Vec<RotationChainEntry> = Vec::new();
    let mut i: usize = 0;
    let n = db.rotation_records.len();
    proof {
        assert(db.rotation_records@.take(0) =~= Seq::<RotationRecordRow>::empty());
    }
    #[verifier::loop_isolation(false)]
    while i < n
        invariant
            i <= n,
            n == db.rotation_records@.len(),
            out@.len() == chain_of(db.rotation_records@.take(i as int), fingerprint@).len(),
            forall|k: int|
                0 <= k < out@.len() ==> entry_matches(
                    #[trigger] out@[k],
                    chain_of(db.rotation_records@.take(i as int), fingerprint@)[k],
                ),
        decreases n - i,
    {
        proof {
            assert(db.rotation_records@.take(i as int + 1).drop_last()
                =~= db.rotation_records@.take(i as int));
            assert(db.rotation_records@.take(i as int + 1).last()
                == db.rotation_records@[i as int]);
        }
        let rec = &db.rotation_records[i];
        if str_eq(rec.fingerprint.as_str(), fingerprint) {
            let prev_key = match &rec.prev_key {
                Some(b) => Some(hex_encode(b)),
                None => None,
            };
            let signature_old = match &rec.signature_old {
                Some(b) => Some(hex_encode(b)),
                None => None,
            };
            out.push(
                RotationChainEntry {
                    id: rec.id.clone(),
                    record_type: rec.record_type.clone(),
                    prev_key,
                    new_key: hex_encode(&rec.new_key),
                    reason: crate::util::opt_string_clone(&rec.reason),
                    signature_old,
                    signature_new: hex_encode(&rec.signature_new),
                    cancellation_deadline: rec.cancellation_deadline,
                    cancelled: rec.cancelled,
                    created_at: rec.created_at,
                },
            );
        }
        i = i + 1;
    }
    proof {
        assert(db.rotation_records@.take(n as int) =~= db.rotation_records@);
    }
    if out.len() == 0 {
        return Err(ApiError::NotFound);
    }
    Ok(RotationChainResponse { fingerprint: String::from_str(fingerprint), chain: out })
}

/// Fetch the encrypted recovery blob for a fingerprint, hex-encoded.
pub fn get_blob(db: &ServerDb, fingerprint: &str) -> (r: Result<BlobResponse, ApiError>)
    ensures
        r matches Ok(out) ==> exists|i: int|
            {
                &&& 0 <= i < db.identity_blobs@.len()
                &&& (#[trigger] db.identity_blobs@[i]).fingerprint@ == fingerprint@
                &&& out.fingerprint@ == fingerprint@
                &&& out.encrypted_blob@ == hex_of(db.identity_blobs@[i].encrypted_blob@)
                &&& out.created_at == db.identity_blobs@[i].created_at
                &&& out.updated_at == db.identity_blobs@[i].updated_at
            },
        r is Err <==> (forall|i: int|
            0 <= i < db.identity_blobs@.len() ==> (#[trigger] db.identity_blobs@[i]).fingerprint@
                != fingerprint@),
        r matches Err(e) ==> e == ApiError::NotFound,
{
    match blob_idx_by_fp(db, fingerprint) {
        Some(i) => {
            let row = &db.identity_blobs[i];
            Ok(
                BlobResponse {
                    fingerprint: String::from_str(fingerprint),
                    encrypted_blob: hex_encode(&row.encrypted_blob),
                    created_at: row.created_at,
                    updated_at: row.updated_at,
                },
            )
        },
        None => Err(ApiError::NotFound),
    }
}

/// Store or replace the caller's encrypted recovery blob. Rejects bad hex
/// and anything over the 64 KiB cap; creates the row if the user had
/// none.
pub fn put_blob(db: &mut ServerDb, fingerprint: &str, req: &PutBlobRequest, now: i64) -> (r: Result<
    PutBlobResponse,
    ApiError,
>)
    requires
        old(db).wf(),
    ensures
        final(db).wf(),
        r is Ok <==> (is_hex_string(req.encrypted_blob@) && hex_decoded(req.encrypted_blob@).len()
            <= MAX_BLOB_BYTES),
        r matches Err(e) ==> *final(db) == *old(db) && (e == ApiError::BadRequest || e
            == ApiError::PayloadTooLarge),
        r is Ok ==> exists|i: int|
            {
                &&& 0 <= i < final(db).identity_blobs@.len()
                &&& (#[trigger] final(db).identity_blobs@[i]).fingerprint@ == fingerprint@
                &&& final(db).identity_blobs@[i].encrypted_blob@ == hex_decoded(
                    req.encrypted_blob@,
                )
                &&& final(db).identity_blobs@[i].updated_at == now
            },
        final(db).users@ == old(db).users@,
        final(db).rotation_records@ == old(db).rotation_records@,
        final(db).refresh_tokens@ == old(db).refresh_tokens@,
        final(db).bans@ == old(db).bans@,
        final(db).messages@ == old(db).messages@,
        final(db).server_settings@ == old(db).server_settings@,
{
    let ghost db0 = *db;
    let blob_bytes = match hex_decode(req.encrypted_blob.as_str()) {
        Ok(v) => v,
        Err(_) => {
            return Err(ApiError::BadRequest);
        },
    };
    if blob_bytes.len() > MAX_BLOB_BYTES {
        return Err(ApiError::PayloadTooLarge);
    }
    match blob_idx_by_fp(db, fingerprint) {
        Some(i) => {
            let created = db.identity_blobs[i].created_at;
            db.identity_blobs.set(
                i,
                IdentityBlobRow {
                    fingerprint: String::from_str(fingerprint),
                    encrypted_blob: blob_bytes,
                    created_at: created,
                    updated_at: now,
                },
            );
            proof {
                assert(db.identity_blobs@.map_values(|b: IdentityBlobRow| b.fingerprint@)
                    =~= db0.identity_blobs@.map_values(|b: IdentityBlobRow| b.fingerprint@));
                assert(db.identity_blobs@[i as int].fingerprint@ == fingerprint@);
                assert(db.identity_blobs@[i as int].updated_at == now);
            }
            Ok(PutBlobResponse { success: true })
        },
        None => {
            db.identity_blobs.push(
                IdentityBlobRow {
                    fingerprint: String::from_str(fingerprint),
                    encrypted_blob: blob_bytes,
                    created_at: now,
                    updated_at: now,
                },
            );
            proof {
                assert(db.identity_blobs@.map_values(|b: IdentityBlobRow| b.fingerprint@)
                    =~= db0.identity_blobs@.map_values(|b: IdentityBlobRow| b.fingerprint@).push(
                    fingerprint@));
                lemma_no_key(
                    db0.identity_blobs@.map_values(|b: IdentityBlobRow| b.fingerprint@),
                    fingerprint@,
                );
                lemma_push_fresh(
                    db0.identity_blobs@.map_values(|b: IdentityBlobRow| b.fingerprint@),
                    fingerprint@,
                );
                assert(db.identity_blobs@[db.identity_blobs@.len() - 1].fingerprint@
                    == fingerprint@);
            }
            Ok(PutBlobResponse { success: true })
        },
    }
}

} // verus!
