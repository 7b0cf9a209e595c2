//! Challenge/response authentication and refresh-token rotation. A
//! challenge lives sixty seconds and is consumed by its first use; a
//! refresh token is stored only as a SHA-256 hash and is deleted the
//! moment it is presented.

use vstd::prelude::*;
use crate::errors::ApiError;
use crate::hexcodec::{hex_decode, hex_decoded, hex_encode, hex_of, is_hex_string};
use crate::models::{ChallengeRow, RefreshTokenRow, ROLE_ADMIN};
use crate::state::{ServerDb, MAX_TIME_MS};
use crate::trusted::{ed_check_key, ed_key_valid, ed_verify, ed_verifies, sha256, sha256_of,
    random_bytes32, new_uuid_string};
use crate::util::str_eq;
use vstd::string::StringSliceAdditionalSpecFns;

verus! {

/// Lifetime of a challenge, in milliseconds.
pub const CHALLENGE_TTL_MS: i64 = 60000;

/// Lifetime of an access token, in seconds.
pub const ACCESS_TOKEN_TTL_S: i64 = 900;

/// Lifetime of a refresh token, in milliseconds (seven days).
pub const REFRESH_TOKEN_TTL_MS: i64 = 604800000;

/// Claims carried by an access token.
pub struct Claims {
    pub sub: String,
    pub fingerprint: String,
    pub is_owner: bool,
    pub is_admin: bool,
    pub iat: i64,
    pub exp: i64,
}

/// The HMAC secret access tokens are signed with.
pub struct JwtSecret(pub Vec<u8>);

#[derive(Debug)]
pub struct ChallengeApiResponse {
    pub challenge_id: String,
    pub challenge_bytes: String,
}

pub struct VerifyApiRequest {
    pub challenge_id: String,
    pub public_key: String,
    pub signature: String,
    pub fingerprint: String,
}

#[derive(Debug)]
pub struct AuthTokensResponse {
    pub access_token: String,
    pub refresh_token: String,
}

pub struct RefreshApiRequest {
    pub refresh_token: String,
}

/// Query parameters of the socket upgrade: browsers cannot set headers on
/// an upgrade, so the access token rides in the query string.
pub struct WsAuthQuery {
    pub token: String,
}

/// Close code for an expired token at the socket upgrade.
pub const CLOSE_TOKEN_EXPIRED: u16 = 4001;

/// Close code for an invalid token at the socket upgrade.
pub const CLOSE_TOKEN_INVALID: u16 = 4002;

/// The identity established by a successful challenge verification; the
/// transport layer turns it into a signed token pair.
#[derive(Debug)]
pub struct VerifiedIdentity {
    pub user_id: String,
    pub fingerprint: String,
    pub is_owner: bool,
    pub is_admin: bool,
}

/// Build the claims of a fresh access token: issued now, expiring in
/// fifteen minutes.
pub fn make_claims(user_id: &str, fingerprint: &str, is_owner: bool, is_admin: bool, now_secs: i64) -> (r: Claims)
    requires
        0 <= now_secs <= MAX_TIME_MS,
    ensures
        r.sub@ == user_id@,
        r.fingerprint@ == fingerprint@,
        r.is_owner == is_owner,
        r.is_admin == is_admin,
        r.iat == now_secs,
        r.exp == now_secs + ACCESS_TOKEN_TTL_S,
{
    Claims {
        sub: String::from_str(user_id),
        fingerprint: String::from_str(fingerprint),
        is_owner,
        is_admin,
        iat: now_secs,
        exp: now_secs + ACCESS_TOKEN_TTL_S,
    }
}

// --- Challenges ---

/// In-memory store of outstanding challenges, one per id.
pub struct ChallengeStore {
    pub entries: Vec<ChallengeRow>,
}

impl ChallengeStore {
    pub open spec fn key_seq(self) -> Seq<Seq<char>> {
        self.entries@.map_values(|e: ChallengeRow| e.id@)
    }

    pub open spec fn wf(self) -> bool {
        crate::keyidx::keys_unique(self.key_seq())
    }

    pub fn new() -> (r: ChallengeStore)
        ensures
            r.wf(),
            r.entries@.len() == 0,
    {
        ChallengeStore { entries: Vec::new() }
    }
}

/// Issue a 32-byte random challenge with a sixty-second expiry; an id
/// collision replaces the stale entry, so ids stay unique.
pub fn issue_challenge(store: &mut ChallengeStore, now: i64) -> (r: ChallengeApiResponse)
    requires
        old(store).wf(),
        0 <= now <= MAX_TIME_MS,
    ensures
        final(store).wf(),
        exists|i: int|
            {
                &&& 0 <= i < final(store).entries@.len()
                &&& (#[trigger] final(store).entries@[i]).id@ == r.challenge_id@
                &&& final(store).entries@[i].expires_at == now + CHALLENGE_TTL_MS
                &&& final(store).entries@[i].challenge_bytes@.len() == 32
                &&& r.challenge_bytes@ == hex_of(final(store).entries@[i].challenge_bytes@)
            },
{
    let ghost pre = *store;
    let bytes = random_bytes32();
    let id = new_uuid_string();
    let hexed = hex_encode(&bytes);
    let row = ChallengeRow {
        id: id.clone(),
        challenge_bytes: bytes,
        expires_at: now + CHALLENGE_TTL_MS,
    };
    let mut i: usize = 0;
    let n = store.entries.len();
    #[verifier::loop_isolation(false)]
    while i < n
        invariant
            *store == pre,
            n == store.entries@.len(),
            i <= n,
            forall|j: int| 0 <= j < i ==> pre.key_seq()[j] != id@,
        decreases n - i,
    {
        if str_eq(store.entries[i].id.as_str(), id.as_str()) {
            store.entries.set(i, row);
            proof {
                assert(store.key_seq() =~= pre.key_seq());
                assert(store.entries@[i as int].id@ == id@);
            }
            return ChallengeApiResponse { challenge_id: id, challenge_bytes: hexed };
        }
        i = i + 1;
    }
    store.entries.push(row);
    proof {
        assert(store.key_seq() =~= pre.key_seq().push(id@));
        crate::keyidx::lemma_no_key(pre.key_seq(), id@);
        crate::keyidx::lemma_push_fresh(pre.key_seq(), id@);
        assert(store.entries@.last().id@ == id@);
    }
    ChallengeApiResponse { challenge_id: id, challenge_bytes: hexed }
}

/// Remove and return the challenge with this id; one-shot.
fn take_challenge(store: &mut ChallengeStore, id: &str) -> (r: Option<ChallengeRow>)
    ensures
        match r {
            Some(c) => exists|i: int|
                {
                    &&& 0 <= i < old(store).entries@.len()
                    &&& (#[trigger] old(store).entries@[i]).id@ == id@
                    &&& c == old(store).entries@[i]
                    &&& final(store).entries@ == old(store).entries@.remove(i)
                },
            None => final(store).entries@ == old(store).entries@ && forall|i: int|
                0 <= i < old(store).entries@.len() ==> (#[trigger] old(store).entries@[i]).id@
                    != id@,
        },
{
    let ghost pre = *store;
    let mut i: usize = 0;
    let n = store.entries.len();
    #[verifier::loop_isolation(false)]
    while i < n
        invariant
            *store == pre,
            n == store.entries@.len(),
            i <= n,
            forall|j: int| 0 <= j < i ==> (#[trigger] pre.entries@[j]).id@ != id@,
        decreases n - i,
    {
        if str_eq(store.entries[i].id.as_str(), id) {
            let row = store.entries.remove(i);
            return Some(row);
        }
        i = i + 1;
    }
    None
}

/// The first check a challenge verification fails, if any: unknown
/// challenge, expired challenge, malformed key or signature, failing
/// signature, unknown fingerprint.
pub open spec fn challenge_verdict(
    db: ServerDb,
    store: ChallengeStore,
    req: VerifyApiRequest,
    now: i64,
) -> Option<ApiError> {
    if !crate::keyidx::has_key(store.key_seq(), req.challenge_id@) {
        Some(ApiError::BadRequest)
    } else {
        let ch = store.entries@[crate::keyidx::index_of(store.key_seq(), req.challenge_id@)];
        if ch.expires_at < now {
            Some(ApiError::Gone)
        } else if !(is_hex_string(req.public_key@) && hex_decoded(req.public_key@).len() == 32
            && ed_key_valid(hex_decoded(req.public_key@))) {
            Some(ApiError::BadRequest)
        } else if !(is_hex_string(req.signature@) && hex_decoded(req.signature@).len() == 64) {
            Some(ApiError::BadRequest)
        } else if !ed_verifies(
            hex_decoded(req.public_key@),
            ch.challenge_bytes@,
            hex_decoded(req.signature@),
        ) {
            Some(ApiError::Unauthorized)
        } else if !crate::keyidx::has_key(db.user_fps(), req.fingerprint@) {
            Some(ApiError::Unauthorized)
        } else {
            None
        }
    }
}

/// Consume a challenge, verify the Ed25519 signature over its bytes, and
/// resolve the fingerprint to a user. The challenge is removed by its
/// first use whatever the outcome; success is owed exactly when every
/// check of the verdict passes.
pub fn verify_challenge(
    db: &ServerDb,
    store: &mut ChallengeStore,
    req: &VerifyApiRequest,
    now: i64,
) -> (r: Result<VerifiedIdentity, ApiError>)
    requires
        db.wf(),
        old(store).wf(),
    ensures
        final(store).wf(),
        ({
            let verdict = challenge_verdict(*db, *old(store), *req, now);
            &&& (verdict matches Some(e) ==> r == Err::<VerifiedIdentity, ApiError>(e))
            &&& (verdict is None ==> r is Ok)
        }),
        // one-shot: the presented id is gone afterwards, other entries stay
        !crate::keyidx::has_key(final(store).key_seq(), req.challenge_id@),
        (crate::keyidx::has_key(old(store).key_seq(), req.challenge_id@) ==> exists|i: int|
            0 <= i < old(store).entries@.len() && (#[trigger] old(store).entries@[i]).id@
                == req.challenge_id@ && final(store).entries@ == old(store).entries@.remove(i)),
        (!crate::keyidx::has_key(old(store).key_seq(), req.challenge_id@) ==> final(store).entries@
            == old(store).entries@),
        r matches Ok(out) ==> {
            let u = db.users@[crate::keyidx::index_of(db.user_fps(), req.fingerprint@)];
            &&& out.user_id@ == u.id@
            &&& out.fingerprint@ == u.fingerprint@
            &&& out.is_owner == u.is_owner
            &&& out.is_admin == (u.roles & ROLE_ADMIN != 0)
        },
{
    let ghost store0 = *store;
    let challenge = match take_challenge(store, req.challenge_id.as_str()) {
        Some(c) => c,
        None => {
            proof {
                lemma_no_id(store0.entries@, req.challenge_id@);
            }
            return Err(ApiError::BadRequest);
        },
    };
    let ghost cidx = choose|i: int|
        {
            &&& 0 <= i < store0.entries@.len()
            &&& (#[trigger] store0.entries@[i]).id@ == req.challenge_id@
            &&& challenge == store0.entries@[i]
            &&& store.entries@ == store0.entries@.remove(i)
        };
    proof {
        assert(store0.key_seq()[cidx] == req.challenge_id@);
        crate::keyidx::lemma_index_of_at(store0.key_seq(), cidx);
        assert(store.key_seq() =~= store0.key_seq().remove(cidx));
        crate::keyidx::lemma_remove_at(store0.key_seq(), cidx);
    }
    if challenge.expires_at < now {
        return Err(ApiError::Gone);
    }
    let pk_bytes = match hex_decode(req.public_key.as_str()) {
        Ok(v) => v,
        Err(_) => {
            return Err(ApiError::BadRequest);
        },
    };
    if pk_bytes.len() != 32 {
        return Err(ApiError::BadRequest);
    }
    if !ed_check_key(&pk_bytes) {
        return Err(ApiError::BadRequest);
    }
    let sig_bytes = match hex_decode(req.signature.as_str()) {
        Ok(v) => v,
        Err(_) => {
            return Err(ApiError::BadRequest);
        },
    };
    if sig_bytes.len() != 64 {
        return Err(ApiError::BadRequest);
    }
    if !ed_verify(&pk_bytes, &challenge.challenge_bytes, &sig_bytes) {
        return Err(ApiError::Unauthorized);
    }
    match db.user_idx_by_fp(req.fingerprint.as_str()) {
        Some(u) => {
            proof {
                assert(db.user_fps()[u as int] == req.fingerprint@);
                crate::keyidx::lemma_index_of_at(db.user_fps(), u as int);
            }
            let user = &db.users[u];
            Ok(
                VerifiedIdentity {
                    user_id: user.id.clone(),
                    fingerprint: user.fingerprint.clone(),
                    is_owner: user.is_owner,
                    is_admin: user.roles & ROLE_ADMIN != 0,
                },
            )
        },
        None => Err(ApiError::Unauthorized),
    }
}

proof fn lemma_no_id(entries: Seq<ChallengeRow>, id: Seq<char>)
    requires
        forall|i: int| 0 <= i < entries.len() ==> (#[trigger] entries[i]).id@ != id,
    ensures
        !crate::keyidx::has_key(entries.map_values(|e: ChallengeRow| e.id@), id),
{
    let keys = entries.map_values(|e: ChallengeRow| e.id@);
    assert forall|i: int| 0 <= i < keys.len() implies keys[i] != id by {
        assert(keys[i] == entries[i].id@);
    }
    crate::keyidx::lemma_no_key(keys, id);
}

// --- Refresh tokens ---

/// Issue an access token: HS256 over the claims, issued now, expiring in
/// fifteen minutes. The token text is exactly the encoding of these claim
/// fields under the secret.
pub fn issue_access_token(
    secret: &Vec<u8>,
    user_id: &str,
    fingerprint: &str,
    is_owner: bool,
    is_admin: bool,
    now_secs: i64,
) -> (r: Result<String, ApiError>)
    requires
        0 <= now_secs <= MAX_TIME_MS,
    ensures
        r matches Ok(t) ==> t@ == crate::trusted::jwt_of(
            secret@,
            user_id@,
            fingerprint@,
            is_owner,
            is_admin,
            now_secs,
            (now_secs + ACCESS_TOKEN_TTL_S) as i64,
        ),
        r matches Err(e) ==> e == ApiError::Internal,
{
    match crate::trusted::jwt_encode(
        secret,
        user_id,
        fingerprint,
        is_owner,
        is_admin,
        now_secs,
        now_secs + ACCESS_TOKEN_TTL_S,
    ) {
        Some(t) => Ok(t),
        None => Err(ApiError::Internal),
    }
}

/// Validate an access token and return its claims. Signature and expiry
/// are checked by the decoding call against the process clock; the
/// outcome therefore depends on the clock and nothing more is promised
/// of it here.
pub fn validate_access_token(secret: &Vec<u8>, token: &str) -> (r: Option<Claims>)
{
    match crate::trusted::jwt_decode(secret, token) {
        Some((sub, fingerprint, is_owner, is_admin, iat, exp)) => Some(
            Claims { sub, fingerprint, is_owner, is_admin, iat, exp },
        ),
        None => None,
    }
}

/// The stored form of a refresh token: the hex SHA-256 of its text.
pub open spec fn refresh_hash_of(token: Seq<char>) -> Seq<char> {
    hex_of(sha256_of(vstd::utf8::encode_utf8(token)))
}

/// SHA-256 hash of a refresh token for storage comparison.
pub fn hash_refresh_token(token: &str) -> (r: String)
    ensures
        r@ == refresh_hash_of(token@),
{
    let bytes = token.as_bytes_vec();
    let digest = sha256(&bytes);
    hex_encode(&digest)
}

/// Issue a refresh token: 32 random bytes hex-encoded, returned with the
/// hash under which it will be stored.
pub fn issue_refresh_token() -> (r: (String, String))
    ensures
        r.0@.len() == 64,
        is_hex_string(r.0@),
        r.1@ == refresh_hash_of(r.0@),
{
    let bytes = random_bytes32();
    let token = hex_encode(&bytes);
    proof {
        crate::hexcodec::lemma_hex_round_trip(bytes@);
    }
    let hash = hash_refresh_token(token.as_str());
    (token, hash)
}

/// Store a refresh token hash with a seven-day expiry.
pub fn store_refresh_token(
    db: &mut ServerDb,
    user_id: &str,
    token_hash: &str,
    device_info: Option<String>,
    now: i64,
)
    requires
        old(db).wf(),
        0 <= now <= MAX_TIME_MS,
    ensures
        final(db).wf(),
        final(db).refresh_tokens@.len() == old(db).refresh_tokens@.len() + 1,
        final(db).refresh_tokens@.take(old(db).refresh_tokens@.len() as int) == old(db).refresh_tokens@,
        ({
            let t = final(db).refresh_tokens@.last();
            &&& t.user_id@ == user_id@
            &&& t.token_hash@ == token_hash@
            &&& t.expires_at == now + REFRESH_TOKEN_TTL_MS
            &&& t.created_at == now
        }),
        final(db).users@ == old(db).users@,
        final(db).rotation_records@ == old(db).rotation_records@,
        final(db).server_settings@ == old(db).server_settings@,
        final(db).invites@ == old(db).invites@,
        final(db).bans@ == old(db).bans@,
        final(db).messages@ == old(db).messages@,
        final(db).categories@ == old(db).categories@,
        final(db).channels@ == old(db).channels@,
        final(db).roles@ == old(db).roles@,
        final(db).user_roles@ == old(db).user_roles@,
        final(db).identity_blobs@ == old(db).identity_blobs@,
{
    let id = new_uuid_string();
    db.refresh_tokens.push(
        RefreshTokenRow {
            id,
            user_id: String::from_str(user_id),
            token_hash: String::from_str(token_hash),
            device_info,
            expires_at: now + REFRESH_TOKEN_TTL_MS,
            created_at: now,
        },
    );
    proof {
        assert(db.refresh_tokens@.take(old(db).refresh_tokens@.len() as int) =~= old(db).refresh_tokens@);
    }
}

/// The refresh-token table with every row of one hash removed.
pub open spec fn tokens_without_hash(toks: Seq<RefreshTokenRow>, hash: Seq<char>) -> Seq<
    RefreshTokenRow,
>
    decreases toks.len(),
{
    if toks.len() == 0 {
        Seq::empty()
    } else if toks.last().token_hash@ == hash {
        tokens_without_hash(toks.drop_last(), hash)
    } else {
        tokens_without_hash(toks.drop_last(), hash).push(toks.last())
    }
}

/// The refresh-token table with every row of one user removed.
pub open spec fn tokens_without_user(toks: Seq<RefreshTokenRow>, uid: Seq<char>) -> Seq<
    RefreshTokenRow,
>
    decreases toks.len(),
{
    if toks.len() == 0 {
        Seq::empty()
    } else if toks.last().user_id@ == uid {
        tokens_without_user(toks.drop_last(), uid)
    } else {
        tokens_without_user(toks.drop_last(), uid).push(toks.last())
    }
}

/// Whether a refresh token hash is currently accepted.
pub open spec fn refresh_valid(db: ServerDb, hash: Seq<char>, now: i64) -> bool {
    exists|i: int|
        0 <= i < db.refresh_tokens@.len() && (#[trigger] db.refresh_tokens@[i]).token_hash@ == hash
            && db.refresh_tokens@[i].expires_at > now
}

fn clone_refresh_row(t: &RefreshTokenRow) -> (r: RefreshTokenRow)
    ensures
        r == *t,
{
    RefreshTokenRow {
        id: t.id.clone(),
        user_id: t.user_id.clone(),
        token_hash: t.token_hash.clone(),
        device_info: crate::util::opt_string_clone_exact(&t.device_info),
        expires_at: t.expires_at,
        created_at: t.created_at,
    }
}

/// Validate a refresh token against the stored hashes and consume it: on
/// success the matching rows are deleted (rotation; the old token is
/// single-use) and the owning user is returned.
pub fn validate_and_consume_refresh_token(db: &mut ServerDb, token: &str, now: i64) -> (r: Result<
    String,
    ApiError,
>)
    requires
        old(db).wf(),
    ensures
        final(db).wf(),
        r is Ok <==> refresh_valid(*old(db), refresh_hash_of(token@), now),
        r matches Err(e) ==> e == ApiError::Unauthorized && *final(db) == *old(db),
        r matches Ok(uid) ==> {
            &&& exists|i: int|
                {
                    &&& 0 <= i < old(db).refresh_tokens@.len()
                    &&& (#[trigger] old(db).refresh_tokens@[i]).token_hash@ == refresh_hash_of(
                        token@,
                    )
                    &&& old(db).refresh_tokens@[i].expires_at > now
                    &&& uid@ == old(db).refresh_tokens@[i].user_id@
                }
            &&& final(db).refresh_tokens@ == tokens_without_hash(
                old(db).refresh_tokens@,
                refresh_hash_of(token@),
            )
            &&& !refresh_valid(*final(db), refresh_hash_of(token@), now)
        },
        final(db).users@ == old(db).users@,
        final(db).rotation_records@ == old(db).rotation_records@,
        final(db).server_settings@ == old(db).server_settings@,
        final(db).invites@ == old(db).invites@,
        final(db).bans@ == old(db).bans@,
        final(db).messages@ == old(db).messages@,
        final(db).categories@ == old(db).categories@,
        final(db).channels@ == old(db).channels@,
        final(db).roles@ == old(db).roles@,
        final(db).user_roles@ == old(db).user_roles@,
        final(db).identity_blobs@ == old(db).identity_blobs@,
{
    let hash = hash_refresh_token(token);
    let ghost h = refresh_hash_of(token@);
    let mut found: Option<String> = None;
    let mut kept: Vec<RefreshTokenRow> = Vec::new();
    let mut i: usize = 0;
    let n = db.refresh_tokens.len();
    #[verifier::loop_isolation(false)]
    while i < n
        invariant
            n == db.refresh_tokens@.len(),
            i <= n,
            kept@ == tokens_without_hash(db.refresh_tokens@.take(i as int), h),
            match found {
                Some(uid) => exists|k: int|
                    {
                        &&& 0 <= k < i
                        &&& (#[trigger] db.refresh_tokens@[k]).token_hash@ == h
                        &&& db.refresh_tokens@[k].expires_at > now
                        &&& uid@ == db.refresh_tokens@[k].user_id@
                    },
                None => forall|k: int|
                    0 <= k < i ==> !((#[trigger] db.refresh_tokens@[k]).token_hash@ == h
                        && db.refresh_tokens@[k].expires_at > now),
            },
        decreases n - i,
    {
        let row = &db.refresh_tokens[i];
        proof {
            assert(db.refresh_tokens@.take(i as int + 1).drop_last() =~= db.refresh_tokens@.take(
                i as int));
        }
        if str_eq(row.token_hash.as_str(), hash.as_str()) {
            if row.expires_at > now && found.is_none() {
                found = Some(row.user_id.clone());
            }
        } else {
            let copy = clone_refresh_row(row);
            kept.push(copy);
        }
        i = i + 1;
    }
    proof {
        assert(db.refresh_tokens@.take(n as int) =~= db.refresh_tokens@);
    }
    match found {
        Some(uid) => {
            db.refresh_tokens = kept;
            proof {
                lemma_tokens_without_hash_clean(old(db).refresh_tokens@, h, now);
            }
            Ok(uid)
        },
        None => Err(ApiError::Unauthorized),
    }
}

/// After removing every row of a hash, no row of that hash remains: the
/// consumed token can never validate again.
pub proof fn lemma_tokens_without_hash_clean(toks: Seq<RefreshTokenRow>, hash: Seq<char>, now: i64)
    ensures
        forall|i: int|
            0 <= i < tokens_without_hash(toks, hash).len() ==> (#[trigger] tokens_without_hash(
                toks,
                hash,
            )[i]).token_hash@ != hash,
    decreases toks.len(),
{
    if toks.len() > 0 {
        lemma_tokens_without_hash_clean(toks.drop_last(), hash, now);
    }
}

/// Delete every refresh token of one user (forcing re-authentication).
pub fn delete_refresh_tokens_of(db: &mut ServerDb, user_id: &str)
    requires
        old(db).wf(),
    ensures
        final(db).wf(),
        final(db).refresh_tokens@ == tokens_without_user(old(db).refresh_tokens@, user_id@),
        forall|i: int|
            0 <= i < final(db).refresh_tokens@.len() ==> (#[trigger] final(db).refresh_tokens@[i]).user_id@ != user_id@,
        final(db).users@ == old(db).users@,
        final(db).rotation_records@ == old(db).rotation_records@,
        final(db).server_settings@ == old(db).server_settings@,
        final(db).invites@ == old(db).invites@,
        final(db).bans@ == old(db).bans@,
        final(db).messages@ == old(db).messages@,
        final(db).categories@ == old(db).categories@,
        final(db).channels@ == old(db).channels@,
        final(db).roles@ == old(db).roles@,
        final(db).user_roles@ == old(db).user_roles@,
        final(db).identity_blobs@ == old(db).identity_blobs@,
        final(db).reactions@ == old(db).reactions@,
        final(db).last_read@ == old(db).last_read@,
        final(db).dm_public_keys@ == old(db).dm_public_keys@,
        final(db).dm_conversations@ == old(db).dm_conversations@,
        final(db).dm_messages@ == old(db).dm_messages@,
        final(db).dm_offline_queue@ == old(db).dm_offline_queue@,
        final(db).blocks@ == old(db).blocks@,
        final(db).next_message_id == old(db).next_message_id,
{
    let mut kept: Vec<RefreshTokenRow> = Vec::new();
    let mut i: usize = 0;
    let n = db.refresh_tokens.len();
    #[verifier::loop_isolation(false)]
    while i < n
        invariant
            n == db.refresh_tokens@.len(),
            i <= n,
            kept@ == tokens_without_user(db.refresh_tokens@.take(i as int), user_id@),
        decreases n - i,
    {
        let row = &db.refresh_tokens[i];
        proof {
            assert(db.refresh_tokens@.take(i as int + 1).drop_last() =~= db.refresh_tokens@.take(
                i as int));
        }
        if !str_eq(row.user_id.as_str(), user_id) {
            let copy = clone_refresh_row(row);
            kept.push(copy);
        }
        i = i + 1;
    }
    proof {
        assert(db.refresh_tokens@.take(n as int) =~= db.refresh_tokens@);
    }
    db.refresh_tokens = kept;
    proof {
        lemma_tokens_without_user_clean(old(db).refresh_tokens@, user_id@);
    }
}

/// After removing every token of a user, none of that user's remain.
pub proof fn lemma_tokens_without_user_clean(toks: Seq<RefreshTokenRow>, uid: Seq<char>)
    ensures
        forall|i: int|
            0 <= i < tokens_without_user(toks, uid).len() ==> (#[trigger] tokens_without_user(
                toks,
                uid,
            )[i]).user_id@ != uid,
    decreases toks.len(),
{
    if toks.len() > 0 {
        lemma_tokens_without_user_clean(toks.drop_last(), uid);
    }
}

/// Presenting the same refresh token twice fails the second time: once
/// consumed, its hash validates against no store state derived from the
/// consumption, whatever the clock says.
pub proof fn lemma_refresh_single_use(db0: ServerDb, db1: ServerDb, token: Seq<char>, now: i64, later: i64)
    requires
        db1.refresh_tokens@ == tokens_without_hash(db0.refresh_tokens@, refresh_hash_of(token)),
    ensures
        !refresh_valid(db1, refresh_hash_of(token), later),
{
    lemma_tokens_without_hash_clean(db0.refresh_tokens@, refresh_hash_of(token), now);
}

} // verus!
