//! Trusted boundary to the outside cryptography and utility crates.
//!
//! Each wrapper holds exactly the outside call plus argument and result
//! conversion. Results that are functions of the arguments alone are given
//! uninterpreted names; results that depend on randomness carry only the
//! facts that hold of every outcome.

use vstd::prelude::*;

verus! {

// --- SHA-256 (sha2) ---

/// The SHA-256 digest of a byte string.
pub uninterp spec fn sha256_of(data: Seq<u8>) -> Seq<u8>;

/// Relies on sha2::Sha256::digest: a 32-byte digest of the input alone.
#[verifier::external_body]
pub fn sha256(data: &Vec<u8>) -> (r: Vec<u8>)
    ensures
        r@ == sha256_of(data@),
        r@.len() == 32,
{
    <sha2::Sha256 as sha2::Digest>::digest(data.as_slice()).to_vec()
}

// --- Ed25519 (ed25519-dalek) ---

/// Whether 32 bytes decode to a valid Ed25519 verifying key.
pub uninterp spec fn ed_key_valid(pk: Seq<u8>) -> bool;

/// Whether an Ed25519 signature verifies under a key over a message.
pub uninterp spec fn ed_verifies(pk: Seq<u8>, msg: Seq<u8>, sig: Seq<u8>) -> bool;

/// The Ed25519 signature produced from a 32-byte seed over a message;
/// Ed25519 signing is deterministic.
pub uninterp spec fn ed_sig_of(seed: Seq<u8>, msg: Seq<u8>) -> Seq<u8>;

/// The Ed25519 verifying key derived from a 32-byte seed.
pub uninterp spec fn ed_pubkey_of(seed: Seq<u8>) -> Seq<u8>;

/// Relies on ed25519_dalek::VerifyingKey::from_bytes: accepts exactly the
/// well-formed compressed points.
#[verifier::external_body]
pub fn ed_check_key(pk: &Vec<u8>) -> (r: bool)
    requires
        pk@.len() == 32,
    ensures
        r == ed_key_valid(pk@),
{
    let arr: [u8; 32] = match pk.as_slice().try_into() {
        Ok(a) => a,
        Err(_) => return false,
    };
    ed25519_dalek::VerifyingKey::from_bytes(&arr).is_ok()
}

/// Relies on ed25519_dalek::VerifyingKey::verify: deterministic in the key,
/// message and signature; false when the key bytes are not a valid key.
#[verifier::external_body]
pub fn ed_verify(pk: &Vec<u8>, msg: &Vec<u8>, sig: &Vec<u8>) -> (r: bool)
    requires
        pk@.len() == 32,
        sig@.len() == 64,
    ensures
        r == ed_verifies(pk@, msg@, sig@),
{
    let pk_arr: [u8; 32] = match pk.as_slice().try_into() {
        Ok(a) => a,
        Err(_) => return false,
    };
    let key = match ed25519_dalek::VerifyingKey::from_bytes(&pk_arr) {
        Ok(k) => k,
        Err(_) => return false,
    };
    let sig_arr: [u8; 64] = match sig.as_slice().try_into() {
        Ok(a) => a,
        Err(_) => return false,
    };
    let signature = ed25519_dalek::Signature::from_bytes(&sig_arr);
    ed25519_dalek::Verifier::verify(&key, msg.as_slice(), &signature).is_ok()
}

/// Relies on ed25519_dalek::SigningKey::sign: deterministic (RFC 8032), 64
/// bytes, and verifies under the key derived from the same seed.
#[verifier::external_body]
pub fn ed_sign(seed: &Vec<u8>, msg: &Vec<u8>) -> (r: Vec<u8>)
    requires
        seed@.len() == 32,
    ensures
        r@ == ed_sig_of(seed@, msg@),
        r@.len() == 64,
        ed_verifies(ed_pubkey_of(seed@), msg@, r@),
{
    let arr: [u8; 32] = seed.as_slice().try_into().unwrap();
    let key = ed25519_dalek::SigningKey::from_bytes(&arr);
    ed25519_dalek::Signer::sign(&key, msg.as_slice()).to_bytes().to_vec()
}

/// Relies on ed25519_dalek::SigningKey::verifying_key: a valid 32-byte key
/// determined by the seed.
#[verifier::external_body]
pub fn ed_public_key(seed: &Vec<u8>) -> (r: Vec<u8>)
    requires
        seed@.len() == 32,
    ensures
        r@ == ed_pubkey_of(seed@),
        r@.len() == 32,
        ed_key_valid(r@),
{
    let arr: [u8; 32] = seed.as_slice().try_into().unwrap();
    let key = ed25519_dalek::SigningKey::from_bytes(&arr);
    key.verifying_key().to_bytes().to_vec()
}

// --- HKDF-SHA256 (hkdf) ---

/// The 32-byte HKDF-SHA256 output for the given salt, input key material
/// and info string.
pub uninterp spec fn hkdf_sha256_okm(salt: Seq<u8>, ikm: Seq<u8>, info: Seq<u8>) -> Seq<u8>;

/// Relies on hkdf::Hkdf::<Sha256>::expand: 32 bytes determined by salt,
/// input key material and info; expand cannot fail for a 32-byte output.
#[verifier::external_body]
pub fn hkdf_derive32(salt: &Vec<u8>, ikm: &Vec<u8>, info: &Vec<u8>) -> (r: Vec<u8>)
    ensures
        r@ == hkdf_sha256_okm(salt@, ikm@, info@),
        r@.len() == 32,
{
    let hk = hkdf::Hkdf::<sha2::Sha256>::new(Some(salt.as_slice()), ikm.as_slice());
    let mut okm = [0u8; 32];
    let _ = hk.expand(info.as_slice(), &mut okm);
    okm.to_vec()
}

// --- AES-256-GCM (aes-gcm) ---

/// The AES-256-GCM ciphertext (tag included) for a key, nonce and plaintext.
pub uninterp spec fn aes_seal(key: Seq<u8>, nonce: Seq<u8>, plain: Seq<u8>) -> Seq<u8>;

/// Relies on aes_gcm::Aes256Gcm::encrypt: deterministic in key, nonce and
/// plaintext; the ciphertext is the plaintext length plus the 16-byte tag.
#[verifier::external_body]
pub fn aes256gcm_encrypt(key: &Vec<u8>, nonce: &Vec<u8>, plain: &Vec<u8>) -> (r: Vec<u8>)
    requires
        key@.len() == 32,
        nonce@.len() == 12,
        plain@.len() <= 0xfffffffe0,
    ensures
        r@ == aes_seal(key@, nonce@, plain@),
        r@.len() == plain@.len() + 16,
{
    let cipher = <aes_gcm::Aes256Gcm as aes_gcm::KeyInit>::new_from_slice(key.as_slice()).unwrap();
    let nonce_arr: [u8; 12] = nonce.as_slice().try_into().unwrap();
    aes_gcm::aead::Aead::encrypt(&cipher, &nonce_arr.into(), plain.as_slice()).unwrap_or_default()
}

/// Relies on aes_gcm::Aes256Gcm::decrypt: inverts encryption under the same
/// key and nonce, and rejects anything that is not such a ciphertext.
#[verifier::external_body]
pub fn aes256gcm_decrypt(key: &Vec<u8>, nonce: &Vec<u8>, ct: &Vec<u8>) -> (r: Result<Vec<u8>, ()>)
    requires
        key@.len() == 32,
        nonce@.len() == 12,
    ensures
        forall|p: Seq<u8>| ct@ == aes_seal(key@, nonce@, p) ==> r is Ok,
        r matches Ok(v) ==> ct@ == aes_seal(key@, nonce@, v@) && v@.len() + 16 == ct@.len(),
        r matches Ok(v) ==> forall|p: Seq<u8>| ct@ == aes_seal(key@, nonce@, p) ==> p == v@,
{
    let cipher = <aes_gcm::Aes256Gcm as aes_gcm::KeyInit>::new_from_slice(key.as_slice()).unwrap();
    let nonce_arr: [u8; 12] = nonce.as_slice().try_into().unwrap();
    aes_gcm::aead::Aead::decrypt(&cipher, &nonce_arr.into(), ct.as_slice()).map_err(|_| ())
}

// --- HMAC-SHA1 (hmac + sha1) ---

/// The HMAC-SHA1 tag for a key and message.
pub uninterp spec fn hmac_sha1_of(key: Seq<u8>, msg: Seq<u8>) -> Seq<u8>;

/// Relies on hmac::Hmac::<Sha1>: a 20-byte tag determined by key and
/// message; any key length is accepted.
#[verifier::external_body]
pub fn hmac_sha1(key: &Vec<u8>, msg: &Vec<u8>) -> (r: Vec<u8>)
    ensures
        r@ == hmac_sha1_of(key@, msg@),
        r@.len() == 20,
{
    let mut mac = <hmac::Hmac<sha1::Sha1> as hmac::KeyInit>::new_from_slice(key.as_slice()).unwrap();
    hmac::Mac::update(&mut mac, msg.as_slice());
    hmac::Mac::finalize(mac).into_bytes().to_vec()
}

// --- Base64 (base64) ---

/// The standard (padded) base64 encoding of a byte string.
pub uninterp spec fn b64_of(data: Seq<u8>) -> Seq<char>;

/// Relies on base64 STANDARD engine encode: text determined by the input.
#[verifier::external_body]
pub fn base64_encode(data: &Vec<u8>) -> (r: String)
    ensures
        r@ == b64_of(data@),
{
    base64::Engine::encode(&base64::engine::general_purpose::STANDARD, data.as_slice())
}

// --- JSON web tokens (jsonwebtoken) ---

/// The HS256 token produced for these claim fields under this secret;
/// encoding is deterministic in its arguments.
pub uninterp spec fn jwt_of(
    secret: Seq<u8>,
    sub: Seq<char>,
    fingerprint: Seq<char>,
    is_owner: bool,
    is_admin: bool,
    iat: i64,
    exp: i64,
) -> Seq<char>;

/// Relies on jsonwebtoken::encode (HS256 header): the token is determined
/// by the secret and the claim fields alone.
#[verifier::external_body]
pub fn jwt_encode(
    secret: &Vec<u8>,
    sub: &str,
    fingerprint: &str,
    is_owner: bool,
    is_admin: bool,
    iat: i64,
    exp: i64,
) -> (r: Option<String>)
    ensures
        r matches Some(s) ==> s@ == jwt_of(secret@, sub@, fingerprint@, is_owner, is_admin, iat, exp),
{
    let sub_json = serde_json::to_string(sub).ok()?;
    let fp_json = serde_json::to_string(fingerprint).ok()?;
    let text = format!(
        "{{\"sub\":{sub_json},\"fingerprint\":{fp_json},\"is_owner\":{is_owner},\"is_admin\":{is_admin},\"iat\":{iat},\"exp\":{exp}}}"
    );
    let claims: serde_json::Value = serde_json::from_str(&text).ok()?;
    let key = jsonwebtoken::EncodingKey::from_secret(secret.as_slice());
    jsonwebtoken::encode(&jsonwebtoken::Header::default(), &claims, &key).ok()
}

/// Relies on jsonwebtoken::decode (HS256): accepts only tokens whose
/// signature verifies under the secret and whose expiry, checked against
/// the process clock, has not passed; hands the claim fields through.
/// The outcome depends on the clock, so nothing more is promised.
#[verifier::external_body]
pub fn jwt_decode(secret: &Vec<u8>, token: &str) -> (r: Option<(String, String, bool, bool, i64, i64)>)
{
    let validation = jsonwebtoken::Validation::new(jsonwebtoken::Algorithm::HS256);
    let key = jsonwebtoken::DecodingKey::from_secret(secret.as_slice());
    let data = jsonwebtoken::decode::<serde_json::Value>(token, &key, &validation).ok()?;
    let c = data.claims;
    Some((
        c.get("sub")?.as_str()?.to_string(),
        c.get("fingerprint")?.as_str()?.to_string(),
        c.get("is_owner")?.as_bool()?,
        c.get("is_admin")?.as_bool()?,
        c.get("iat")?.as_i64()?,
        c.get("exp")?.as_i64()?,
    ))
}

// --- Randomness (rand) ---

/// Relies on rand::random: 32 uniformly random bytes; nothing is promised
/// of the value.
#[verifier::external_body]
pub fn random_bytes32() -> (r: Vec<u8>)
    ensures
        r@.len() == 32,
{
    rand::random::<[u8; 32]>().to_vec()
}

/// Relies on rand::random: 20 uniformly random bytes.
#[verifier::external_body]
pub fn random_bytes20() -> (r: Vec<u8>)
    ensures
        r@.len() == 20,
{
    rand::random::<[u8; 20]>().to_vec()
}

/// Relies on rand::random: 12 uniformly random bytes.
#[verifier::external_body]
pub fn random_bytes12() -> (r: Vec<u8>)
    ensures
        r@.len() == 12,
{
    rand::random::<[u8; 12]>().to_vec()
}

/// Relies on rand::random_range: a uniform index below the bound.
#[verifier::external_body]
pub fn random_below(n: usize) -> (r: usize)
    requires
        n > 0,
    ensures
        r < n,
{
    rand::random_range(0..n)
}

// --- Identifiers (uuid) ---

/// Relies on uuid::Uuid::now_v7: the hyphenated text form is 36 characters.
#[verifier::external_body]
pub fn new_uuid_string() -> (r: String)
    ensures
        r@.len() == 36,
{
    uuid::Uuid::now_v7().to_string()
}

// --- Host name (hostname) ---

/// Relies on hostname::get: the machine's host name, when it is valid text.
#[verifier::external_body]
pub fn host_name_string() -> (r: Option<String>)
{
    hostname::get().ok().and_then(|h| h.into_string().ok())
}

// --- TOTP (totp-rs) ---

/// Whether a TOTP code is accepted for the given secret and parameters at
/// the given time.
pub uninterp spec fn totp_valid(
    secret: Seq<u8>,
    digits: u8,
    skew: u16,
    step: u64,
    code: Seq<char>,
    time: u64,
) -> bool;

/// The otpauth URL for a TOTP secret with the given parameters and labels.
pub uninterp spec fn otpauth_url_of(
    secret: Seq<u8>,
    digits: u8,
    issuer: Seq<char>,
    account: Seq<char>,
) -> Seq<char>;

/// The base32 form of a TOTP secret.
pub uninterp spec fn base32_of(data: Seq<u8>) -> Seq<char>;

/// Relies on totp_rs::Totp::check: acceptance is determined by the secret,
/// the code parameters and the supplied time.
#[verifier::external_body]
pub fn totp_check(secret: &Vec<u8>, digits: u8, skew: u16, step: u64, code: &str, time: u64) -> (r: bool)
    requires
        16 <= secret@.len(),
        step >= 1,
    ensures
        r == totp_valid(secret@, digits, skew, step, code@, time),
{
    let totp = totp_rs::Builder::new()
        .with_algorithm(totp_rs::Algorithm::SHA1)
        .with_digits(digits)
        .with_skew(skew)
        .with_step_duration(step)
        .with_secret(secret.as_slice())
        .build();
    match totp {
        Ok(t) => t.check(code, time).is_some(),
        Err(_) => false,
    }
}

/// Relies on totp_rs::Totp::to_url: the otpauth URL is determined by the
/// secret and its labels.
#[verifier::external_body]
pub fn totp_url(secret: &Vec<u8>, digits: u8, issuer: &str, account: &str) -> (r: Option<String>)
    requires
        16 <= secret@.len(),
    ensures
        r matches Some(u) ==> u@ == otpauth_url_of(secret@, digits, issuer@, account@),
{
    let totp = totp_rs::Builder::new()
        .with_algorithm(totp_rs::Algorithm::SHA1)
        .with_digits(digits)
        .with_secret(secret.as_slice())
        .with_issuer(Some(issuer))
        .with_account_name(account)
        .build();
    totp.ok().and_then(|t| t.to_url().ok())
}

/// Relies on totp_rs::Secret::to_base32: text determined by the bytes.
#[verifier::external_body]
pub fn secret_base32(secret: &Vec<u8>) -> (r: String)
    ensures
        r@ == base32_of(secret@),
{
    totp_rs::Secret::new(secret.clone().into()).to_base32()
}

} // verus!
