//! Server settings and the first-boot setup token. The setup token is
//! printed once at boot; only its SHA-256 hash is stored, and the first
//! registration that presents it becomes the server owner.

use vstd::prelude::*;
use crate::errors::ApiError;
use crate::hexcodec::{hex_of, hex_encode};
use crate::state::ServerDb;
use crate::trusted::{sha256, sha256_of, random_bytes32};
use crate::util::str_eq;
use vstd::string::StringSliceAdditionalSpecFns;

verus! {

/// Public server information, visible without authentication.
#[derive(Debug)]
pub struct ServerInfoResponse {
    pub name: String,
    pub description: String,
    pub registration_mode: String,
    pub version: String,
}

/// Admin-only settings update; absent fields are left unchanged.
pub struct UpdateSettingsRequest {
    pub name: Option<String>,
    pub description: Option<String>,
    pub registration_mode: Option<String>,
}

/// The value a settings key resolves to, with a fallback.
pub open spec fn setting_or(db: ServerDb, key: Seq<char>, dflt: Seq<char>) -> Seq<char> {
    match db.spec_setting(key) {
        Some(v) => v,
        None => dflt,
    }
}

/// The fallback server name when none is configured: the machine's host
/// name, or a fixed label when the host name is unusable.
pub fn get_default_server_name() -> (r: String)
    ensures
        r@.len() > 0,
{
    proof {
        reveal_strlit("UNITED Server");
    }
    match crate::trusted::host_name_string() {
        Some(h) => {
            if h.as_str().unicode_len() > 0 {
                h
            } else {
                String::from_str("UNITED Server")
            }
        },
        None => String::from_str("UNITED Server"),
    }
}

/// Assemble the public server info from settings, with the given fallback
/// name (the host name, or a fixed default) and crate version.
pub fn get_server_info(db: &ServerDb, default_name: &str, version: &str) -> (r: ServerInfoResponse)
    requires
        db.wf(),
    ensures
        r.name@ == setting_or(*db, "name"@, default_name@),
        r.description@ == setting_or(*db, "description"@, Seq::<char>::empty()),
        r.registration_mode@ == setting_or(*db, "registration_mode"@, "open"@),
        r.version@ == version@,
{
    let name = match db.get_setting("name") {
        Some(v) => v,
        None => String::from_str(default_name),
    };
    let description = match db.get_setting("description") {
        Some(v) => v,
        None => String::new(),
    };
    let registration_mode = match db.get_setting("registration_mode") {
        Some(v) => v,
        None => String::from_str("open"),
    };
    ServerInfoResponse { name, description, registration_mode, version: String::from_str(version) }
}

/// Update server settings: name, description and registration mode, each
/// optional. Only an admin or the owner may call; a registration mode
/// other than "open" or "invite-only" is rejected before anything is
/// written.
pub fn update_server_settings(
    db: &mut ServerDb,
    is_admin: bool,
    is_owner: bool,
    req: &UpdateSettingsRequest,
) -> (r: Result<(), ApiError>)
    requires
        old(db).wf(),
    ensures
        final(db).wf(),
        !is_admin && !is_owner ==> r == Err::<(), ApiError>(ApiError::Forbidden) && *final(db)
            == *old(db),
        r matches Err(e) ==> *final(db) == *old(db) && (e == ApiError::Forbidden || e
            == ApiError::BadRequest),
        (is_admin || is_owner) && (match req.registration_mode {
            Some(m) => m@ == "open"@ || m@ == "invite-only"@,
            None => true,
        }) ==> r is Ok,
        r is Ok ==> {
            &&& final(db).spec_setting("name"@) == (match req.name {
                Some(n) => Some(n@),
                None => old(db).spec_setting("name"@),
            })
            &&& final(db).spec_setting("description"@) == (match req.description {
                Some(d) => Some(d@),
                None => old(db).spec_setting("description"@),
            })
            &&& final(db).spec_setting("registration_mode"@) == (match req.registration_mode {
                Some(m) => Some(m@),
                None => old(db).spec_setting("registration_mode"@),
            })
        },
        final(db).users@ == old(db).users@,
        final(db).rotation_records@ == old(db).rotation_records@,
        final(db).refresh_tokens@ == old(db).refresh_tokens@,
        final(db).invites@ == old(db).invites@,
        final(db).bans@ == old(db).bans@,
        final(db).messages@ == old(db).messages@,
{
    if !is_admin && !is_owner {
        return Err(ApiError::Forbidden);
    }
    if let Some(mode) = &req.registration_mode {
        if !str_eq(mode.as_str(), "open") && !str_eq(mode.as_str(), "invite-only") {
            return Err(ApiError::BadRequest);
        }
    }
    proof {
        reveal_strlit("name");
        reveal_strlit("description");
        reveal_strlit("registration_mode");
        assert("name"@.len() == 4);
        assert("description"@.len() == 11);
        assert("registration_mode"@.len() == 17);
    }
    if let Some(name) = &req.name {
        db.set_setting("name", name.as_str());
    }
    if let Some(description) = &req.description {
        db.set_setting("description", description.as_str());
    }
    if let Some(mode) = &req.registration_mode {
        db.set_setting("registration_mode", mode.as_str());
    }
    Ok(())
}

/// Hash of a setup token as stored in the settings table.
pub open spec fn setup_token_hash_of(token: Seq<char>) -> Seq<char> {
    hex_of(sha256_of(vstd::utf8::encode_utf8(token)))
}

/// SHA-256 of a setup token, hex-encoded, for storage and comparison.
pub fn hash_setup_token(token: &str) -> (r: String)
    ensures
        r@ == setup_token_hash_of(token@),
{
    let bytes = token.as_bytes_vec();
    let digest = sha256(&bytes);
    hex_encode(&digest)
}

/// Generate a fresh random setup token: 32 random bytes, hex-encoded.
pub fn generate_setup_token() -> (r: String)
    ensures
        r@.len() == 64,
{
    let bytes = random_bytes32();
    hex_encode(&bytes)
}

/// On first boot — no users yet — generate a setup token, store its hash,
/// and hand back the plaintext. With users present, nothing happens.
pub fn maybe_generate_setup_token(db: &mut ServerDb) -> (r: Option<String>)
    requires
        old(db).wf(),
    ensures
        final(db).wf(),
        r is Some <==> old(db).users@.len() == 0,
        r matches Some(t) ==> final(db).spec_setting("setup_token_hash"@) == Some(
            setup_token_hash_of(t@),
        ),
        r is None ==> *final(db) == *old(db),
        final(db).users@ == old(db).users@,
        final(db).rotation_records@ == old(db).rotation_records@,
        final(db).refresh_tokens@ == old(db).refresh_tokens@,
{
    if db.users.len() > 0 {
        return None;
    }
    let token = generate_setup_token();
    let hash = hash_setup_token(token.as_str());
    db.set_setting("setup_token_hash", hash.as_str());
    Some(token)
}

/// Check a setup token against the stored hash; false when none is stored.
pub fn verify_setup_token(db: &ServerDb, token: &str) -> (r: bool)
    requires
        db.wf(),
    ensures
        r == (db.spec_setting("setup_token_hash"@) == Some(setup_token_hash_of(token@))),
{
    match db.get_setting("setup_token_hash") {
        Some(stored) => {
            let provided = hash_setup_token(token);
            stored == provided
        },
        None => false,
    }
}

/// Consume the setup token after the first user claims it: remove the
/// hash and mark setup complete.
pub fn consume_setup_token(db: &mut ServerDb)
    requires
        old(db).wf(),
    ensures
        final(db).wf(),
        final(db).spec_setting("setup_token_hash"@) is None,
        final(db).spec_setting("setup_complete"@) == Some("true"@),
        final(db).users@ == old(db).users@,
        final(db).rotation_records@ == old(db).rotation_records@,
        final(db).refresh_tokens@ == old(db).refresh_tokens@,
        final(db).invites@ == old(db).invites@,
        final(db).bans@ == old(db).bans@,
        final(db).messages@ == old(db).messages@,
        final(db).channels@ == old(db).channels@,
        final(db).categories@ == old(db).categories@,
        final(db).roles@ == old(db).roles@,
        final(db).user_roles@ == old(db).user_roles@,
        final(db).identity_blobs@ == old(db).identity_blobs@,
        final(db).reactions@ == old(db).reactions@,
        final(db).last_read@ == old(db).last_read@,
        final(db).dm_public_keys@ == old(db).dm_public_keys@,
        final(db).dm_conversations@ == old(db).dm_conversations@,
        final(db).dm_messages@ == old(db).dm_messages@,
        final(db).dm_offline_queue@ == old(db).dm_offline_queue@,
        final(db).blocks@ == old(db).blocks@,
        final(db).next_message_id == old(db).next_message_id,
    {
    proof {
        reveal_strlit("setup_token_hash");
        reveal_strlit("setup_complete");
        assert("setup_token_hash"@.len() == 16);
        assert("setup_complete"@.len() == 14);
    }
    db.delete_setting("setup_token_hash");
    db.set_setting("setup_complete", "true");
}

} // verus!
