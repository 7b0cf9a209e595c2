//! Content-addressed block store: upload with hash verification,
//! encryption at rest under a content-derived key, TTL metadata, and the
//! retention sweep. The encrypted bytes live in memory beside the
//! metadata; the transport layer persists them.

use vstd::prelude::*;
use crate::errors::ApiError;
use crate::hexcodec::{hex_decode, hex_decoded, hex_encode, hex_of, is_hex_string};
use crate::keyidx::{has_key, lemma_no_key, lemma_push_fresh, lemma_index_of_at};
use crate::models::BlockRow;
use crate::state::{ServerDb, MAX_TIME_MS};
use crate::trusted::{sha256, sha256_of, hkdf_derive32, hkdf_sha256_okm, aes_seal,
    aes256gcm_encrypt, aes256gcm_decrypt, random_bytes12};
use crate::util::{str_eq, bytes_clone};

verus! {

pub struct BlockUploadResponse {
    pub hash: String,
    pub size: u64,
}

/// One encrypted block file, keyed by its hex hash.
pub struct BlockFile {
    pub hash: String,
    pub bytes: Vec<u8>,
}

/// The on-disk block directory, modelled in memory.
pub struct BlockFiles {
    pub files: Vec<BlockFile>,
}

impl BlockFiles {
    pub open spec fn key_seq(self) -> Seq<Seq<char>> {
        self.files@.map_values(|f: BlockFile| f.hash@)
    }

    pub open spec fn wf(self) -> bool {
        crate::keyidx::keys_unique(self.key_seq())
    }

    /// The stored bytes under a hash, if any.
    pub open spec fn spec_file(self, hash: Seq<char>) -> Option<Seq<u8>> {
        if has_key(self.key_seq(), hash) {
            Some(self.files@[crate::keyidx::index_of(self.key_seq(), hash)].bytes@)
        } else {
            None
        }
    }

    pub fn new() -> (r: BlockFiles)
        ensures
            r.wf(),
            r.files@.len() == 0,
    {
        BlockFiles { files: Vec::new() }
    }
}

/// The HKDF salt binding keys to this store's content-derived scheme.
pub open spec fn hkdf_salt() -> Seq<u8> {
    "united-content-derived-key-v1"@.map_values(|c: char| c as u8)
}

/// The HKDF info string binding keys to block encryption.
pub open spec fn hkdf_info() -> Seq<u8> {
    "united-server-block-encryption"@.map_values(|c: char| c as u8)
}

/// The AES-256 key derived from a content hash: anyone who knows the hash
/// can compute it.
pub open spec fn content_key_of(hash: Seq<u8>) -> Seq<u8> {
    hkdf_sha256_okm(hkdf_salt(), hash, hkdf_info())
}

fn salt_bytes() -> (r: Vec<u8>)
    ensures
        r@ == hkdf_salt(),
{
    let s = "united-content-derived-key-v1";
    proof {
        reveal_strlit("united-content-derived-key-v1");
    }
    let v = s.as_bytes_vec();
    proof {
        vstd::string::is_ascii_spec_bytes(s);
        assert(v@ =~= hkdf_salt());
    }
    v
}

fn info_bytes() -> (r: Vec<u8>)
    ensures
        r@ == hkdf_info(),
{
    let s = "united-server-block-encryption";
    proof {
        reveal_strlit("united-server-block-encryption");
    }
    let v = s.as_bytes_vec();
    proof {
        vstd::string::is_ascii_spec_bytes(s);
        assert(v@ =~= hkdf_info());
    }
    v
}

/// Derive the AES-256 key for a content hash via HKDF-SHA256 with the
/// store's fixed salt and info.
pub fn derive_content_key(content_hash: &Vec<u8>) -> (r: Vec<u8>)
    requires
        content_hash@.len() == 32,
    ensures
        r@ == content_key_of(content_hash@),
        r@.len() == 32,
{
    let salt = salt_bytes();
    let info = info_bytes();
    hkdf_derive32(&salt, content_hash, &info)
}

/// The same hash always derives the same key.
pub proof fn lemma_content_key_deterministic(h1: Seq<u8>, h2: Seq<u8>)
    ensures
        h1 == h2 ==> content_key_of(h1) == content_key_of(h2),
{
}

/// A stored file that is a valid sealed form of some plaintext under the
/// content-derived key of a hash.
pub open spec fn sealed_form(bytes: Seq<u8>, hash: Seq<u8>, plain: Seq<u8>) -> bool {
    &&& bytes.len() >= 12
    &&& bytes == bytes.take(12) + aes_seal(content_key_of(hash), bytes.take(12), plain)
}

/// Encrypt a block with its content-derived key; the result is the
/// 12-byte nonce followed by the ciphertext and tag.
pub fn server_encrypt_block(content_hash: &Vec<u8>, plaintext: &Vec<u8>) -> (r: Vec<u8>)
    requires
        content_hash@.len() == 32,
        plaintext@.len() <= 0xfffffffe0,
    ensures
        r@.len() == 12 + plaintext@.len() + 16,
        sealed_form(r@, content_hash@, plaintext@),
{
    let key = derive_content_key(content_hash);
    let nonce = random_bytes12();
    let ct = aes256gcm_encrypt(&key, &nonce, plaintext);
    let mut out = bytes_clone(&nonce);
    let mut i: usize = 0;
    #[verifier::loop_isolation(false)]
    while i < ct.len()
        invariant
            i <= ct@.len(),
            out@ == nonce@ + ct@.take(i as int),
        decreases ct@.len() - i,
    {
        out.push(ct[i]);
        i = i + 1;
        proof {
            assert(nonce@ + ct@.take(i as int) =~= (nonce@ + ct@.take(i as int - 1)).push(
                ct@[i as int - 1]));
        }
    }
    proof {
        assert(ct@.take(ct@.len() as int) =~= ct@);
        assert(out@.take(12) =~= nonce@);
        assert(out@ =~= out@.take(12) + aes_seal(content_key_of(content_hash@), out@.take(12),
            plaintext@));
    }
    out
}

/// Decrypt a block from its `nonce ‖ ciphertext` form; anything that is
/// not a valid sealed form of the hash's key is rejected.
pub fn server_decrypt_block(content_hash: &Vec<u8>, encrypted: &Vec<u8>) -> (r: Result<
    Vec<u8>,
    ApiError,
>)
    requires
        content_hash@.len() == 32,
    ensures
        forall|p: Seq<u8>| sealed_form(encrypted@, content_hash@, p) ==> r is Ok,
        r matches Ok(v) ==> sealed_form(encrypted@, content_hash@, v@),
        r matches Ok(v) ==> forall|p: Seq<u8>|
            sealed_form(encrypted@, content_hash@, p) ==> p == v@,
        encrypted@.len() < 12 ==> r is Err,
{
    if encrypted.len() < 12 {
        return Err(ApiError::BadRequest);
    }
    let key = derive_content_key(content_hash);
    let mut nonce: Vec<u8> = Vec::new();
    let mut i: usize = 0;
    #[verifier::loop_isolation(false)]
    while i < 12
        invariant
            i <= 12,
            encrypted@.len() >= 12,
            nonce@ == encrypted@.take(i as int),
        decreases 12 - i,
    {
        nonce.push(encrypted[i]);
        i = i + 1;
        proof {
            assert(encrypted@.take(i as int) =~= encrypted@.take(i as int - 1).push(
                encrypted@[i as int - 1]));
        }
    }
    let mut ct: Vec<u8> = Vec::new();
    let mut j: usize = 12;
    #[verifier::loop_isolation(false)]
    while j < encrypted.len()
        invariant
            12 <= j <= encrypted@.len(),
            ct@ == encrypted@.subrange(12, j as int),
        decreases encrypted@.len() - j,
    {
        ct.push(encrypted[j]);
        j = j + 1;
        proof {
            assert(encrypted@.subrange(12, j as int) =~= encrypted@.subrange(12, j as int - 1).push(
                encrypted@[j as int - 1]));
        }
    }
    proof {
        assert(encrypted@ =~= nonce@ + ct@);
    }
    match aes256gcm_decrypt(&key, &nonce, &ct) {
        Ok(v) => {
            proof {
                assert(encrypted@.take(12) =~= nonce@);
                assert(sealed_form(encrypted@, content_hash@, v@)) by {
                    assert(encrypted@ =~= encrypted@.take(12) + aes_seal(
                        content_key_of(content_hash@),
                        encrypted@.take(12),
                        v@,
                    ));
                }
                assert forall|p: Seq<u8>|
                    sealed_form(encrypted@, content_hash@, p) implies p == v@ by {
                    assert(ct@ =~= aes_seal(content_key_of(content_hash@), nonce@, p));
                }
            }
            Ok(v)
        },
        Err(_) => {
            proof {
                assert forall|p: Seq<u8>|
                    !sealed_form(encrypted@, content_hash@, p) by {
                    if sealed_form(encrypted@, content_hash@, p) {
                        assert(ct@ =~= aes_seal(content_key_of(content_hash@), nonce@, p));
                    }
                }
            }
            Err(ApiError::BadRequest)
        },
    }
}

/// Store a block: verify its SHA-256 against the named hash, encrypt with
/// the content-derived key, keep the encrypted bytes and the metadata.
/// Duplicate uploads of a stored hash succeed without overwriting.
pub fn put_block(
    db: &mut ServerDb,
    files: &mut BlockFiles,
    hash_hex: &str,
    data: &Vec<u8>,
    channel_id: Option<String>,
    retention_ms: i64,
    now: i64,
) -> (r: Result<(), ApiError>)
    requires
        old(db).wf(),
        old(files).wf(),
        0 <= now <= MAX_TIME_MS,
        0 <= retention_ms <= MAX_TIME_MS,
        data@.len() <= 0xfffffffe0,
    ensures
        final(db).wf(),
        final(files).wf(),
        r is Ok <==> hash_hex@ == hex_of(sha256_of(data@)),
        r matches Err(e) ==> e == ApiError::BadRequest && *final(db) == *old(db) && *final(files)
            == *old(files),
        r is Ok && has_key(old(db).block_hashes(), hash_hex@) ==> *final(db) == *old(db) && *final(files) == *old(files),
        r is Ok && !has_key(old(db).block_hashes(), hash_hex@) ==> {
            &&& exists|p: Seq<u8>|
                final(files).spec_file(hash_hex@) == Some(p) && #[trigger] sealed_form(
                    p,
                    sha256_of(data@),
                    data@,
                )
            &&& final(db).blocks@.len() == old(db).blocks@.len() + 1
            &&& final(db).blocks@.take(old(db).blocks@.len() as int) == old(db).blocks@
            &&& final(db).blocks@.last().hash@ == hash_hex@
            &&& final(db).blocks@.last().size == data@.len()
            &&& final(db).blocks@.last().encrypted_size == data@.len() + 28
            &&& final(db).blocks@.last().expires_at == now + retention_ms
            &&& forall|h: Seq<char>|
                h != hash_hex@ ==> #[trigger] final(files).spec_file(h) == old(files).spec_file(h)
        },
        final(db).users@ == old(db).users@,
        final(db).rotation_records@ == old(db).rotation_records@,
        final(db).refresh_tokens@ == old(db).refresh_tokens@,
        final(db).messages@ == old(db).messages@,
        final(db).bans@ == old(db).bans@,
{
    let ghost db0 = *db;
    let ghost files0 = *files;
    let computed = sha256(data);
    let computed_hex = hex_encode(&computed);
    if !str_eq(computed_hex.as_str(), hash_hex) {
        return Err(ApiError::BadRequest);
    }
    // already stored: duplicate uploads succeed without overwrite
    let mut i: usize = 0;
    let n = db.blocks.len();
    #[verifier::loop_isolation(false)]
    while i < n
        invariant
            *db == db0,
            n == db.blocks@.len(),
            i <= n,
            forall|j: int| 0 <= j < i ==> db0.block_hashes()[j] != hash_hex@,
        decreases n - i,
    {
        if str_eq(db.blocks[i].hash.as_str(), hash_hex) {
            proof {
                assert(db0.block_hashes()[i as int] == hash_hex@);
            }
            return Ok(());
        }
        i = i + 1;
    }
    proof {
        lemma_no_key(db0.block_hashes(), hash_hex@);
    }
    let encrypted = server_encrypt_block(&computed, data);
    let enc_len = encrypted.len();
    let ghost enc_view = encrypted@;
    // replace any stale file under this hash, then store
    let mut k: usize = 0;
    let m = files.files.len();
    #[verifier::loop_isolation(false)]
    while k < m
        invariant
            *files == files0,
            *db == db0,
            m == files.files@.len(),
            k <= m,
            forall|j: int| 0 <= j < k ==> files0.key_seq()[j] != hash_hex@,
        decreases m - k,
    {
        if str_eq(files.files[k].hash.as_str(), hash_hex) {
            files.files.set(
                k,
                BlockFile { hash: String::from_str(hash_hex), bytes: encrypted },
            );
            proof {
                assert(files.key_seq() =~= files0.key_seq());
                lemma_index_of_at(files0.key_seq(), k as int);
                assert(files.spec_file(hash_hex@) == Some(enc_view));
                assert(sealed_form(enc_view, sha256_of(data@), data@));
                assert forall|h: Seq<char>| h != hash_hex@ implies #[trigger] files.spec_file(h)
                    == files0.spec_file(h) by {
                    if has_key(files0.key_seq(), h) {
                        assert(files0.key_seq()[crate::keyidx::index_of(files0.key_seq(), h)]
                            == h);
                        assert(crate::keyidx::index_of(files0.key_seq(), h) != k as int);
                    }
                }
            }
            push_block_row(db, hash_hex, data.len(), enc_len, channel_id, now, retention_ms);
            return Ok(());
        }
        k = k + 1;
    }
    proof {
        lemma_no_key(files0.key_seq(), hash_hex@);
    }
    files.files.push(BlockFile { hash: String::from_str(hash_hex), bytes: encrypted });
    proof {
        assert(files.key_seq() =~= files0.key_seq().push(hash_hex@));
        lemma_push_fresh(files0.key_seq(), hash_hex@);
        assert(files.spec_file(hash_hex@) == Some(enc_view));
        assert(sealed_form(enc_view, sha256_of(data@), data@));
        assert forall|h: Seq<char>| h != hash_hex@ implies #[trigger] files.spec_file(h)
            == files0.spec_file(h) by {
            if has_key(files0.key_seq(), h) {
                assert(files0.key_seq()[crate::keyidx::index_of(files0.key_seq(), h)] == h);
                let m = crate::keyidx::index_of(files0.key_seq(), h);
                assert(files.files@[m] == files0.files@[m]);
            }
        }
    }
    push_block_row(db, hash_hex, data.len(), enc_len, channel_id, now, retention_ms);
    Ok(())
}

fn push_block_row(
    db: &mut ServerDb,
    hash_hex: &str,
    size: usize,
    encrypted_size: usize,
    channel_id: Option<String>,
    now: i64,
    retention_ms: i64,
)
    requires
        old(db).wf(),
        !has_key(old(db).block_hashes(), hash_hex@),
        0 <= now <= MAX_TIME_MS,
        0 <= retention_ms <= MAX_TIME_MS,
        size <= 0xfffffffe0,
        encrypted_size <= 0x1000000000,
    ensures
        final(db).wf(),
        final(db).blocks@.len() == old(db).blocks@.len() + 1,
        final(db).blocks@.take(old(db).blocks@.len() as int) == old(db).blocks@,
        final(db).blocks@.last().hash@ == hash_hex@,
        final(db).blocks@.last().size == size,
        final(db).blocks@.last().encrypted_size == encrypted_size,
        final(db).blocks@.last().expires_at == now + retention_ms,
        final(db).users@ == old(db).users@,
        final(db).rotation_records@ == old(db).rotation_records@,
        final(db).refresh_tokens@ == old(db).refresh_tokens@,
        final(db).messages@ == old(db).messages@,
        final(db).bans@ == old(db).bans@,
{
    let ghost db0 = *db;
    db.blocks.push(
        BlockRow {
            hash: String::from_str(hash_hex),
            size: size as i64,
            encrypted_size: encrypted_size as i64,
            channel_id,
            created_at: now,
            expires_at: now + retention_ms,
        },
    );
    proof {
        assert(db.block_hashes() =~= db0.block_hashes().push(hash_hex@));
        lemma_push_fresh(db0.block_hashes(), hash_hex@);
        assert(db.blocks@.take(db0.blocks@.len() as int) =~= db0.blocks@);
    }
}

/// Whether a block's metadata exists.
pub fn has_block(db: &ServerDb, hash_hex: &str) -> (r: bool)
    ensures
        r == has_key(db.block_hashes(), hash_hex@),
{
    let mut i: usize = 0;
    #[verifier::loop_isolation(false)]
    while i < db.blocks.len()
        invariant
            i <= db.blocks@.len(),
            forall|j: int| 0 <= j < i ==> db.block_hashes()[j] != hash_hex@,
        decreases db.blocks@.len() - i,
    {
        if str_eq(db.blocks[i].hash.as_str(), hash_hex) {
            proof {
                assert(db.block_hashes()[i as int] == hash_hex@);
            }
            return true;
        }
        i = i + 1;
    }
    proof {
        lemma_no_key(db.block_hashes(), hash_hex@);
    }
    false
}

/// Fetch and decrypt a block by its hex hash: absent metadata or file is
/// not found; whenever the stored file is a sealed form of some plaintext
/// under this hash's key, exactly that plaintext comes back.
pub fn get_block(db: &ServerDb, files: &BlockFiles, hash_hex: &str) -> (r: Result<
    Option<Vec<u8>>,
    ApiError,
>)
    requires
        db.wf(),
        files.wf(),
    ensures
        r == Ok::<Option<Vec<u8>>, ApiError>(None::<Vec<u8>>) <==> !has_key(
            db.block_hashes(),
            hash_hex@,
        ),
        has_key(db.block_hashes(), hash_hex@) && !(is_hex_string(hash_hex@) && hex_decoded(
            hash_hex@,
        ).len() == 32) ==> r == Err::<Option<Vec<u8>>, ApiError>(ApiError::BadRequest),
        r matches Ok(Some(v)) ==> {
            &&& is_hex_string(hash_hex@)
            &&& files.spec_file(hash_hex@) matches Some(b) && sealed_form(
                b,
                hex_decoded(hash_hex@),
                v@,
            )
            &&& forall|p: Seq<u8>|
                sealed_form(
                    files.spec_file(hash_hex@)->Some_0,
                    hex_decoded(hash_hex@),
                    p,
                ) ==> p == v@
        },
        (has_key(db.block_hashes(), hash_hex@) && is_hex_string(hash_hex@) && hex_decoded(
            hash_hex@,
        ).len() == 32 && (files.spec_file(hash_hex@) matches Some(b) && exists|p: Seq<u8>|
            #[trigger] sealed_form(b, hex_decoded(hash_hex@), p))) ==> r matches Ok(Some(_)),
{
    if !has_block(db, hash_hex) {
        return Ok(None);
    }
    let hash_bytes = match hex_decode(hash_hex) {
        Ok(v) => v,
        Err(_) => {
            return Err(ApiError::BadRequest);
        },
    };
    if hash_bytes.len() != 32 {
        return Err(ApiError::BadRequest);
    }
    let mut i: usize = 0;
    let m = files.files.len();
    #[verifier::loop_isolation(false)]
    while i < m
        invariant
            m == files.files@.len(),
            i <= m,
            forall|j: int| 0 <= j < i ==> files.key_seq()[j] != hash_hex@,
        decreases m - i,
    {
        if str_eq(files.files[i].hash.as_str(), hash_hex) {
            proof {
                assert(files.key_seq()[i as int] == hash_hex@);
                lemma_index_of_at(files.key_seq(), i as int);
            }
            match server_decrypt_block(&hash_bytes, &files.files[i].bytes) {
                Ok(v) => {
                    proof {
                        assert(files.spec_file(hash_hex@) == Some(files.files@[i as int].bytes@));
                    }
                    return Ok(Some(v));
                },
                Err(e) => {
                    return Err(e);
                },
            }
        }
        i = i + 1;
    }
    proof {
        lemma_no_key(files.key_seq(), hash_hex@);
    }
    Err(ApiError::Internal)
}

/// The number of rows already expired at a given time.
pub open spec fn count_expired(blocks: Seq<BlockRow>, now: i64) -> int
    decreases blocks.len(),
{
    if blocks.len() == 0 {
        0
    } else if blocks.last().expires_at < now {
        count_expired(blocks.drop_last(), now) + 1
    } else {
        count_expired(blocks.drop_last(), now)
    }
}

/// Remove every expired block: exactly the rows whose expiry has passed,
/// and their stored files; unexpired rows and their files stay. Returns
/// how many rows were purged.
pub fn delete_expired_blocks(db: &mut ServerDb, files: &mut BlockFiles, now: i64) -> (r: usize)
    requires
        old(db).wf(),
        old(files).wf(),
    ensures
        final(db).wf(),
        final(files).wf(),
        r == count_expired(old(db).blocks@, now),
        forall|i: int|
            0 <= i < final(db).blocks@.len() ==> (#[trigger] final(db).blocks@[i]).expires_at
                >= now,
        forall|i: int|
            0 <= i < old(db).blocks@.len() && (#[trigger] old(db).blocks@[i]).expires_at >= now
                ==> final(db).blocks@.contains(old(db).blocks@[i]),
        forall|h: Seq<char>|
            #[trigger] has_key(final(db).block_hashes(), h) ==> has_key(old(db).block_hashes(), h),
        forall|i: int|
            0 <= i < old(db).blocks@.len() && (#[trigger] old(db).blocks@[i]).expires_at < now
                ==> final(files).spec_file(old(db).blocks@[i].hash@) is None,
        forall|i: int|
            0 <= i < old(db).blocks@.len() && (#[trigger] old(db).blocks@[i]).expires_at >= now
                ==> final(files).spec_file(old(db).blocks@[i].hash@) == old(files).spec_file(
                old(db).blocks@[i].hash@,
            ),
        final(db).users@ == old(db).users@,
        final(db).rotation_records@ == old(db).rotation_records@,
        final(db).refresh_tokens@ == old(db).refresh_tokens@,
        final(db).messages@ == old(db).messages@,
        final(db).bans@ == old(db).bans@,
{
    let mut kept: Vec<BlockRow> = Vec::new();
    let mut removed: usize = 0;
    let mut i: usize = 0;
    let n = db.blocks.len();
    let ghost files0 = *files;
    proof {
        assert(db.blocks@.take(0) =~= Seq::<BlockRow>::empty());
    }
    #[verifier::loop_isolation(false)]
    while i < n
        invariant
            n == db.blocks@.len(),
            i <= n,
            removed == count_expired(db.blocks@.take(i as int), now),
            removed <= i,
            files.wf(),
            forall|j: int|
                0 <= j < i && (#[trigger] db.blocks@[j]).expires_at < now ==> files.spec_file(
                    db.blocks@[j].hash@,
                ) is None,
            forall|j: int|
                i <= j < n ==> #[trigger] files.spec_file(db.blocks@[j].hash@)
                    == files0.spec_file(db.blocks@[j].hash@),
            forall|j: int|
                0 <= j < i && (#[trigger] db.blocks@[j]).expires_at >= now ==> files.spec_file(
                    db.blocks@[j].hash@,
                ) == files0.spec_file(db.blocks@[j].hash@),
            forall|k: int| 0 <= k < kept@.len() ==> (#[trigger] kept@[k]).expires_at >= now,
            forall|k: int|
                0 <= k < kept@.len() ==> exists|j: int|
                    0 <= j < i && (#[trigger] kept@[k]) == #[trigger] db.blocks@[j],
            forall|j: int|
                0 <= j < i && (#[trigger] db.blocks@[j]).expires_at >= now ==> kept@.contains(
                    db.blocks@[j],
                ),
            forall|k1: int, k2: int|
                0 <= k1 < k2 < kept@.len() ==> (#[trigger] kept@[k1]).hash@
                    != (#[trigger] kept@[k2]).hash@,
        decreases n - i,
    {
        proof {
            assert(db.blocks@.take(i as int + 1).drop_last() =~= db.blocks@.take(i as int));
            assert(db.blocks@.take(i as int + 1).last() == db.blocks@[i as int]);
        }
        let row = &db.blocks[i];
        if row.expires_at >= now {
            let copy = BlockRow {
                hash: row.hash.clone(),
                size: row.size,
                encrypted_size: row.encrypted_size,
                channel_id: crate::util::opt_string_clone_exact(&row.channel_id),
                created_at: row.created_at,
                expires_at: row.expires_at,
            };
            proof {
                assert(copy == db.blocks@[i as int]);
            }
            proof {
                assert forall|k1: int| 0 <= k1 < kept@.len() implies (#[trigger] kept@[k1]).hash@
                    != db.blocks@[i as int].hash@ by {
                    let j = choose|j: int| 0 <= j < i && kept@[k1] == #[trigger] db.blocks@[j];
                    assert(db.block_hashes()[j] != db.block_hashes()[i as int]);
                }
            }
            let ghost kept0 = kept@;
            kept.push(copy);
            proof {
                assert forall|j: int|
                    0 <= j <= i && (#[trigger] db.blocks@[j]).expires_at >= now implies kept@.contains(
                    db.blocks@[j],
                ) by {
                    if j < i {
                        assert(kept0.contains(db.blocks@[j]));
                        let k = choose|k: int|
                            0 <= k < kept0.len() && kept0[k] == db.blocks@[j];
                        assert(kept@[k] == db.blocks@[j]);
                    } else {
                        assert(kept@[kept@.len() - 1] == db.blocks@[j]);
                    }
                }
            }
        } else {
            removed = removed + 1;
            let hash = row.hash.clone();
            delete_file(files, hash.as_str());
            proof {
                // block hashes are unique, so no other row's file moved
                assert forall|j: int|
                    0 <= j < n && j != i implies #[trigger] db.blocks@[j].hash@
                    != db.blocks@[i as int].hash@ by {
                    assert(db.block_hashes()[j] == db.blocks@[j].hash@);
                    assert(db.block_hashes()[i as int] == db.blocks@[i as int].hash@);
                    if j < i as int {
                        assert(db.block_hashes()[j] != db.block_hashes()[i as int]);
                    } else {
                        assert(db.block_hashes()[i as int] != db.block_hashes()[j]);
                    }
                }
            }
        }
        i = i + 1;
    }
    db.blocks = kept;
    proof {
        assert(old(db).blocks@.take(n as int) =~= old(db).blocks@);
    }
    proof {
        assert forall|k1: int, k2: int|
            0 <= k1 < k2 < db.block_hashes().len() implies (#[trigger] db.block_hashes()[k1])
            != (#[trigger] db.block_hashes()[k2]) by {
            assert(db.blocks@[k1].hash@ != db.blocks@[k2].hash@);
        }
        assert forall|h: Seq<char>|
            #[trigger] has_key(db.block_hashes(), h) implies has_key(old(db).block_hashes(), h) by {
            let k = crate::keyidx::index_of(db.block_hashes(), h);
            assert(db.block_hashes()[k] == h);
            let j = choose|j: int| 0 <= j < n && db.blocks@[k] == #[trigger] old(db).blocks@[j];
            assert(old(db).block_hashes()[j] == h);
        }
    }
    removed
}

/// Delete the stored file of one hash, if present.
pub fn delete_file(files: &mut BlockFiles, hash_hex: &str)
    requires
        old(files).wf(),
    ensures
        final(files).wf(),
        final(files).spec_file(hash_hex@) is None,
        forall|h: Seq<char>|
            h != hash_hex@ ==> #[trigger] final(files).spec_file(h) == old(files).spec_file(h),
{
    let ghost pre = *files;
    let mut i: usize = 0;
    let n = files.files.len();
    #[verifier::loop_isolation(false)]
    while i < n
        invariant
            *files == pre,
            n == files.files@.len(),
            i <= n,
            forall|j: int| 0 <= j < i ==> pre.key_seq()[j] != hash_hex@,
        decreases n - i,
    {
        if str_eq(files.files[i].hash.as_str(), hash_hex) {
            files.files.remove(i);
            proof {
                assert(files.key_seq() =~= pre.key_seq().remove(i as int));
                crate::keyidx::lemma_remove_at(pre.key_seq(), i as int);
                assert forall|h: Seq<char>| h != hash_hex@ implies #[trigger] files.spec_file(h)
                    == pre.spec_file(h) by {
                    if has_key(pre.key_seq(), h) {
                        assert(pre.key_seq()[crate::keyidx::index_of(pre.key_seq(), h)] == h);
                        let m = crate::keyidx::index_of(pre.key_seq(), h);
                        if m < i as int {
                            assert(files.files@[m] == pre.files@[m]);
                        } else {
                            assert(m > i as int);
                            assert(files.files@[m - 1] == pre.files@[m]);
                        }
                    }
                }
            }
            return ;
        }
        i = i + 1;
    }
    proof {
        lemma_no_key(pre.key_seq(), hash_hex@);
    }
}

} // verus!
