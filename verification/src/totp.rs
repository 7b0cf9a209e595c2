//! Optional second factor: a 160-bit TOTP secret per user, stored
//! encrypted under the server's wrapping key, confirmed once before it
//! counts, and verified at login time by fingerprint; users without an
//! enrollment pass automatically.

use vstd::prelude::*;
use crate::errors::ApiError;
use crate::models::User;
use crate::state::ServerDb;
use crate::trusted::{aes_seal, aes256gcm_encrypt, aes256gcm_decrypt, random_bytes12,
    random_bytes20, totp_check, totp_url, secret_base32};
use crate::util::{bytes_clone, opt_bytes_clone, str_eq};
use crate::keyidx::has_key;

verus! {

/// TOTP code length.
pub const TOTP_DIGITS: u8 = 6;

/// Allowed step skew on either side.
pub const TOTP_SKEW: u16 = 1;

/// Step length in seconds.
pub const TOTP_STEP: u64 = 30;

#[derive(Debug)]
pub struct TotpEnrollResponse {
    pub secret: String,
    pub otpauth_uri: String,
}

pub struct TotpVerifyRequest {
    pub code: String,
}

#[derive(Debug)]
pub struct TotpVerifyResponse {
    pub valid: bool,
}

pub struct TotpVerifyWithFingerprint {
    pub fingerprint: String,
    pub code: String,
}

/// Encrypt a TOTP secret under the server key; the stored form is the
/// random nonce followed by the ciphertext and tag.
pub fn encrypt_totp_secret(encryption_key: &Vec<u8>, secret_bytes: &Vec<u8>) -> (r: Vec<u8>)
    requires
        encryption_key@.len() == 32,
        secret_bytes@.len() <= 0xfffffffe0,
    ensures
        r@.len() == 12 + secret_bytes@.len() + 16,
        r@ == r@.take(12) + aes_seal(encryption_key@, r@.take(12), secret_bytes@),
{
    let nonce = random_bytes12();
    let ct = aes256gcm_encrypt(encryption_key, &nonce, secret_bytes);
    let mut out = bytes_clone(&nonce);
    let mut i: usize = 0;
    #[verifier::loop_isolation(false)]
    while i < ct.len()
        invariant
            i <= ct@.len(),
            out@ == nonce@ + ct@.take(i as int),
        decreases ct@.len() - i,
    {
        out.push(ct[i]);
        i = i + 1;
        proof {
            assert(nonce@ + ct@.take(i as int) =~= (nonce@ + ct@.take(i as int - 1)).push(
                ct@[i as int - 1]));
        }
    }
    proof {
        assert(ct@.take(ct@.len() as int) =~= ct@);
        assert(out@.take(12) =~= nonce@);
        assert(out@ =~= out@.take(12) + aes_seal(encryption_key@, out@.take(12), secret_bytes@));
    }
    out
}

/// Decrypt a stored TOTP secret; anything that is not a valid sealed
/// form under the server key is rejected.
pub fn decrypt_totp_secret(encryption_key: &Vec<u8>, encrypted: &Vec<u8>) -> (r: Result<
    Vec<u8>,
    ApiError,
>)
    requires
        encryption_key@.len() == 32,
    ensures
        r matches Ok(v) ==> encrypted@.len() >= 12 && encrypted@ == encrypted@.take(12) + aes_seal(
            encryption_key@,
            encrypted@.take(12),
            v@,
        ),
        r matches Ok(v) ==> forall|p: Seq<u8>|
            encrypted@ == encrypted@.take(12) + aes_seal(encryption_key@, encrypted@.take(12), p)
                ==> p == v@,
        (encrypted@.len() >= 12 && exists|p: Seq<u8>|
            encrypted@ == encrypted@.take(12) + aes_seal(
                encryption_key@,
                encrypted@.take(12),
                p,
            )) ==> r is Ok,
{
    if encrypted.len() < 12 {
        return Err(ApiError::BadRequest);
    }
    let mut nonce: Vec<u8> = Vec::new();
    let mut i: usize = 0;
    #[verifier::loop_isolation(false)]
    while i < 12
        invariant
            i <= 12,
            encrypted@.len() >= 12,
            nonce@ == encrypted@.take(i as int),
        decreases 12 - i,
    {
        nonce.push(encrypted[i]);
        i = i + 1;
        proof {
            assert(encrypted@.take(i as int) =~= encrypted@.take(i as int - 1).push(
                encrypted@[i as int - 1]));
        }
    }
    let mut ct: Vec<u8> = Vec::new();
    let mut j: usize = 12;
    #[verifier::loop_isolation(false)]
    while j < encrypted.len()
        invariant
            12 <= j <= encrypted@.len(),
            ct@ == encrypted@.subrange(12, j as int),
        decreases encrypted@.len() - j,
    {
        ct.push(encrypted[j]);
        j = j + 1;
        proof {
            assert(encrypted@.subrange(12, j as int) =~= encrypted@.subrange(12, j as int - 1).push(
                encrypted@[j as int - 1]));
        }
    }
    proof {
        assert(encrypted@ =~= nonce@ + ct@);
        assert(encrypted@.take(12) =~= nonce@);
    }
    match aes256gcm_decrypt(encryption_key, &nonce, &ct) {
        Ok(v) => {
            proof {
                assert(encrypted@ =~= encrypted@.take(12) + aes_seal(
                    encryption_key@,
                    encrypted@.take(12),
                    v@,
                ));
                assert forall|p: Seq<u8>|
                    encrypted@ == encrypted@.take(12) + aes_seal(
                        encryption_key@,
                        encrypted@.take(12),
                        p,
                    ) implies p == v@ by {
                    assert(ct@ =~= aes_seal(encryption_key@, nonce@, p));
                }
            }
            Ok(v)
        },
        Err(_) => {
            proof {
                assert forall|p: Seq<u8>|
                    encrypted@ != encrypted@.take(12) + aes_seal(
                        encryption_key@,
                        encrypted@.take(12),
                        p,
                    ) by {
                    if encrypted@ == encrypted@.take(12) + aes_seal(
                        encryption_key@,
                        encrypted@.take(12),
                        p,
                    ) {
                        assert(ct@ =~= aes_seal(encryption_key@, nonce@, p));
                    }
                }
            }
            Err(ApiError::BadRequest)
        },
    }
}

/// Begin enrollment: a fresh 160-bit secret, returned in base32 with its
/// otpauth URI, and stored encrypted; enrollment is not yet confirmed.
pub fn totp_enroll(db: &mut ServerDb, user_id: &str, issuer: &str, fingerprint: &str, encryption_key: &Vec<u8>, now: i64) -> (r: Result<
    TotpEnrollResponse,
    ApiError,
>)
    requires
        old(db).wf(),
        encryption_key@.len() == 32,
    ensures
        final(db).wf(),
        r matches Err(_) ==> *final(db) == *old(db),
        r matches Ok(out) ==> exists|i: int|
            {
                &&& 0 <= i < final(db).users@.len()
                &&& (#[trigger] final(db).users@[i]).id@ == user_id@
                &&& final(db).users@[i].totp_secret_encrypted is Some
                &&& !final(db).users@[i].totp_enrolled
            },
        final(db).refresh_tokens@ == old(db).refresh_tokens@,
        final(db).rotation_records@ == old(db).rotation_records@,
        final(db).bans@ == old(db).bans@,
        final(db).messages@ == old(db).messages@,
{
    let ghost db0 = *db;
    let uidx = match db.user_idx_by_id(user_id) {
        Some(i) => i,
        None => {
            return Err(ApiError::NotFound);
        },
    };
    let secret = random_bytes20();
    let uri = match totp_url(&secret, TOTP_DIGITS, issuer, fingerprint) {
        Some(u) => u,
        None => {
            return Err(ApiError::Internal);
        },
    };
    let secret_b32 = secret_base32(&secret);
    let encrypted = encrypt_totp_secret(encryption_key, &secret);
    let u = &db.users[uidx];
    let updated = User {
        id: u.id.clone(),
        public_key: bytes_clone(&u.public_key),
        fingerprint: u.fingerprint.clone(),
        display_name: u.display_name.clone(),
        roles: u.roles,
        is_owner: u.is_owner,
        totp_secret_encrypted: Some(encrypted),
        totp_enrolled: false,
        created_at: u.created_at,
        updated_at: now,
    };
    db.users.set(uidx, updated);
    proof {
        lemma_totp_update_wf(db0, *db, uidx as int);
        assert(db.users@[uidx as int].id@ == user_id@);
    }
    Ok(TotpEnrollResponse { secret: secret_b32, otpauth_uri: uri })
}

/// Confirm enrollment with a live code; only then does verification
/// become mandatory.
pub fn totp_confirm(db: &mut ServerDb, user_id: &str, encryption_key: &Vec<u8>, code: &str, time: u64, now: i64) -> (r: Result<
    TotpVerifyResponse,
    ApiError,
>)
    requires
        old(db).wf(),
        encryption_key@.len() == 32,
    ensures
        final(db).wf(),
        r matches Err(_) ==> *final(db) == *old(db),
        ({
            let caller = crate::keyidx::has_key(old(db).user_ids(), user_id@);
            let row_ok = caller && (old(db).users@[crate::keyidx::index_of(
                old(db).user_ids(),
                user_id@,
            )].totp_secret_encrypted matches Some(enc) && enc@.len() >= 12 && (exists|p: Seq<u8>|
                enc@ == enc@.take(12) + aes_seal(encryption_key@, enc@.take(12), p) && p.len()
                    >= 16));
            &&& (!caller ==> r == Err::<TotpVerifyResponse, ApiError>(ApiError::NotFound))
            &&& (r is Ok <==> row_ok)
        }),
        // the verdict is the real TOTP check of the sealed secret
        r matches Ok(out) ==> exists|i: int|
            {
                &&& 0 <= i < old(db).users@.len()
                &&& (#[trigger] old(db).users@[i]).id@ == user_id@
                &&& old(db).users@[i].totp_secret_encrypted matches Some(enc) && (forall|
                    p: Seq<u8>,
                |
                    enc@ == enc@.take(12) + aes_seal(encryption_key@, enc@.take(12), p)
                        ==> out.valid == crate::trusted::totp_valid(
                        p,
                        TOTP_DIGITS,
                        TOTP_SKEW,
                        TOTP_STEP,
                        code@,
                        time,
                    ))
            },
        r matches Ok(out) && out.valid ==> exists|i: int|
            {
                &&& 0 <= i < final(db).users@.len()
                &&& (#[trigger] final(db).users@[i]).id@ == user_id@
                &&& final(db).users@[i].totp_enrolled
            },
        r matches Ok(out) && !out.valid ==> *final(db) == *old(db),
        final(db).refresh_tokens@ == old(db).refresh_tokens@,
        final(db).rotation_records@ == old(db).rotation_records@,
        final(db).bans@ == old(db).bans@,
        final(db).messages@ == old(db).messages@,
{
    let ghost db0 = *db;
    let uidx = match db.user_idx_by_id(user_id) {
        Some(i) => i,
        None => {
            return Err(ApiError::NotFound);
        },
    };
    proof {
        assert(db.user_ids()[uidx as int] == user_id@);
        crate::keyidx::lemma_index_of_at(db.user_ids(), uidx as int);
    }
    let encrypted = match &db.users[uidx].totp_secret_encrypted {
        Some(e) => bytes_clone(e),
        None => {
            return Err(ApiError::BadRequest);
        },
    };
    let secret = match decrypt_totp_secret(encryption_key, &encrypted) {
        Ok(s) => s,
        Err(e) => {
            return Err(ApiError::Internal);
        },
    };
    if secret.len() < 16 {
        proof {
            assert forall|p: Seq<u8>|
                encrypted@ == encrypted@.take(12) + aes_seal(
                    encryption_key@,
                    encrypted@.take(12),
                    p,
                ) implies !(p.len() >= 16) by {
                assert(p == secret@);
            }
        }
        return Err(ApiError::Internal);
    }
    let valid = totp_check(&secret, TOTP_DIGITS, TOTP_SKEW, TOTP_STEP, code, time);
    proof {
        assert forall|p: Seq<u8>|
            encrypted@ == encrypted@.take(12) + aes_seal(encryption_key@, encrypted@.take(12), p)
            implies valid == crate::trusted::totp_valid(
            p,
            TOTP_DIGITS,
            TOTP_SKEW,
            TOTP_STEP,
            code@,
            time,
        ) by {
            assert(p == secret@);
        }
    }
    if valid {
        let u = &db.users[uidx];
        let updated = User {
            id: u.id.clone(),
            public_key: bytes_clone(&u.public_key),
            fingerprint: u.fingerprint.clone(),
            display_name: u.display_name.clone(),
            roles: u.roles,
            is_owner: u.is_owner,
            totp_secret_encrypted: opt_bytes_clone(&u.totp_secret_encrypted),
            totp_enrolled: true,
            created_at: u.created_at,
            updated_at: now,
        };
        db.users.set(uidx, updated);
        proof {
            lemma_totp_update_wf(db0, *db, uidx as int);
            assert(db.users@[uidx as int].id@ == user_id@);
        }
    }
    Ok(TotpVerifyResponse { valid })
}

/// Login-time verification keyed by fingerprint: absence of an
/// enrollment passes automatically; an enrolled user's verdict is the
/// real TOTP check of the sealed secret, so a code-independent answer
/// cannot meet this contract.
pub fn totp_verify(db: &ServerDb, req: &TotpVerifyWithFingerprint, encryption_key: &Vec<u8>, time: u64) -> (r:
    Result<TotpVerifyResponse, ApiError>)
    requires
        db.wf(),
        encryption_key@.len() == 32,
    ensures
        ({
            let known = crate::keyidx::has_key(db.user_fps(), req.fingerprint@);
            let u = db.users@[crate::keyidx::index_of(db.user_fps(), req.fingerprint@)];
            &&& (!known ==> r == Err::<TotpVerifyResponse, ApiError>(ApiError::NotFound))
            &&& (r is Ok <==> (known && (!u.totp_enrolled || (u.totp_secret_encrypted matches Some(
                enc,
            ) && enc@.len() >= 12 && (exists|p: Seq<u8>|
                enc@ == enc@.take(12) + aes_seal(encryption_key@, enc@.take(12), p) && p.len()
                    >= 16)))))
            &&& (r matches Ok(out) ==> {
                &&& (!u.totp_enrolled ==> out.valid)
                &&& (u.totp_enrolled ==> (u.totp_secret_encrypted matches Some(enc) && (forall|
                    p: Seq<u8>,
                |
                    enc@ == enc@.take(12) + aes_seal(encryption_key@, enc@.take(12), p)
                        ==> out.valid == crate::trusted::totp_valid(
                        p,
                        TOTP_DIGITS,
                        TOTP_SKEW,
                        TOTP_STEP,
                        req.code@,
                        time,
                    ))))
            })
        }),
{
    let uidx = match db.user_idx_by_fp(req.fingerprint.as_str()) {
        Some(i) => i,
        None => {
            return Err(ApiError::NotFound);
        },
    };
    proof {
        assert(db.user_fps()[uidx as int] == req.fingerprint@);
        crate::keyidx::lemma_index_of_at(db.user_fps(), uidx as int);
    }
    if !db.users[uidx].totp_enrolled {
        return Ok(TotpVerifyResponse { valid: true });
    }
    let encrypted = match &db.users[uidx].totp_secret_encrypted {
        Some(e) => bytes_clone(e),
        None => {
            return Err(ApiError::Internal);
        },
    };
    let secret = match decrypt_totp_secret(encryption_key, &encrypted) {
        Ok(s) => s,
        Err(_) => {
            return Err(ApiError::Internal);
        },
    };
    if secret.len() < 16 {
        proof {
            assert forall|p: Seq<u8>|
                encrypted@ == encrypted@.take(12) + aes_seal(
                    encryption_key@,
                    encrypted@.take(12),
                    p,
                ) implies !(p.len() >= 16) by {
                assert(p == secret@);
            }
        }
        return Err(ApiError::Internal);
    }
    let valid = totp_check(&secret, TOTP_DIGITS, TOTP_SKEW, TOTP_STEP, req.code.as_str(), time);
    proof {
        assert forall|p: Seq<u8>|
            encrypted@ == encrypted@.take(12) + aes_seal(encryption_key@, encrypted@.take(12), p)
            implies valid == crate::trusted::totp_valid(
            p,
            TOTP_DIGITS,
            TOTP_SKEW,
            TOTP_STEP,
            req.code@,
            time,
        ) by {
            assert(p == secret@);
        }
    }
    Ok(TotpVerifyResponse { valid })
}

/// Whether a fingerprint has a confirmed TOTP enrollment.
pub fn check_totp_enrolled(db: &ServerDb, fingerprint: &str) -> (r: bool)
    ensures
        r == exists|i: int|
            0 <= i < db.users@.len() && (#[trigger] db.users@[i]).fingerprint@ == fingerprint@
                && db.users@[i].totp_enrolled,
{
    let mut i: usize = 0;
    let n = db.users.len();
    #[verifier::loop_isolation(false)]
    while i < n
        invariant
            n == db.users@.len(),
            i <= n,
            forall|j: int|
                0 <= j < i ==> !((#[trigger] db.users@[j]).fingerprint@ == fingerprint@
                    && db.users@[j].totp_enrolled),
        decreases n - i,
    {
        if str_eq(db.users[i].fingerprint.as_str(), fingerprint) && db.users[i].totp_enrolled {
            return true;
        }
        i = i + 1;
    }
    false
}

/// Replacing the TOTP fields of one user preserves the store invariant.
proof fn lemma_totp_update_wf(pre: ServerDb, post: ServerDb, i: int)
    requires
        pre.wf(),
        0 <= i < pre.users@.len(),
        post.users@.len() == pre.users@.len(),
        forall|j: int| 0 <= j < pre.users@.len() && j != i ==> post.users@[j] == pre.users@[j],
        post.users@[i].id@ == pre.users@[i].id@,
        post.users@[i].fingerprint@ == pre.users@[i].fingerprint@,
        post.users@[i].display_name@ == pre.users@[i].display_name@,
        post.rotation_records@ == pre.rotation_records@,
        post.refresh_tokens@ == pre.refresh_tokens@,
        post.server_settings@ == pre.server_settings@,
        post.invites@ == pre.invites@,
        post.bans@ == pre.bans@,
        post.messages@ == pre.messages@,
        post.next_message_id == pre.next_message_id,
        post.channels@ == pre.channels@,
        post.categories@ == pre.categories@,
        post.roles@ == pre.roles@,
        post.user_roles@ == pre.user_roles@,
        post.identity_blobs@ == pre.identity_blobs@,
        post.reactions@ == pre.reactions@,
        post.last_read@ == pre.last_read@,
        post.dm_conversations@ == pre.dm_conversations@,
        post.dm_messages@ == pre.dm_messages@,
        post.dm_public_keys@ == pre.dm_public_keys@,
        post.dm_offline_queue@ == pre.dm_offline_queue@,
        post.blocks@ == pre.blocks@,
    ensures
        post.wf(),
{
    assert(post.user_ids() =~= pre.user_ids());
    assert(post.user_fps() =~= pre.user_fps());
    assert(post.user_names() =~= pre.user_names());
    assert(post.record_fps() =~= pre.record_fps());
    assert forall|k: int| 0 <= k < post.users@.len() implies has_key(
        post.record_fps(),
        (#[trigger] post.users@[k]).fingerprint@,
    ) by {
        assert(post.users@[k].fingerprint@ == pre.users@[k].fingerprint@);
        assert(has_key(pre.record_fps(), pre.users@[k].fingerprint@));
    }
    assert forall|k: int| 0 <= k < post.rotation_records@.len() implies has_key(
        post.user_fps(),
        (#[trigger] post.rotation_records@[k]).fingerprint@,
    ) by {
        assert(has_key(pre.user_fps(), pre.rotation_records@[k].fingerprint@));
    }
}

} // verus!
