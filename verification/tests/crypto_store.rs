//! Block-store cryptography and content-addressed storage, exercised with
//! the real cipher, hash and key-derivation crates.

use sha2::Digest;
use united_server::blocks::{
    derive_content_key, server_decrypt_block, server_encrypt_block, put_block, get_block,
    delete_expired_blocks, BlockFiles,
};
use united_server::hexcodec::{hex_decode, hex_encode};
use united_server::state::ServerDb;

fn sha256_vec(data: &[u8]) -> Vec<u8> {
    sha2::Sha256::digest(data).to_vec()
}

#[test]
fn test_roundtrip_encrypt_decrypt() {
    let data = b"hello united block store";
    let hash: Vec<u8> = sha256_vec(data);

    let encrypted = server_encrypt_block(&hash, &data.to_vec());
    assert_eq!(encrypted.len(), 12 + data.len() + 16);

    let decrypted = server_decrypt_block(&hash, &encrypted).unwrap();
    assert_eq!(decrypted, data.to_vec());
}

#[test]
fn test_wrong_hash_fails_decrypt() {
    let data = b"sensitive content";
    let correct_hash = sha256_vec(data);
    let wrong_hash = sha256_vec(b"wrong");

    let encrypted = server_encrypt_block(&correct_hash, &data.to_vec());
    let result = server_decrypt_block(&wrong_hash, &encrypted);
    assert!(result.is_err());
}

#[test]
fn test_too_short_data_fails() {
    let hash = vec![0u8; 32];
    let result = server_decrypt_block(&hash, &vec![0u8; 5]);
    assert!(result.is_err());
}

#[test]
fn test_derive_content_key_deterministic() {
    let hash = vec![42u8; 32];
    let key1 = derive_content_key(&hash);
    let key2 = derive_content_key(&hash);
    assert_eq!(key1, key2);
}

#[test]
fn test_different_hashes_produce_different_keys() {
    let hash1 = vec![1u8; 32];
    let hash2 = vec![2u8; 32];
    let key1 = derive_content_key(&hash1);
    let key2 = derive_content_key(&hash2);
    assert_ne!(key1, key2);
}

#[test]
fn block_round_trip_through_store() {
    let mut db = ServerDb::new();
    let mut files = BlockFiles::new();
    let data = b"hello".to_vec();
    let hash_hex = hex::encode(sha256_vec(&data));

    put_block(&mut db, &mut files, &hash_hex, &data, None, 1000, 100).unwrap();
    let got = get_block(&db, &files, &hash_hex).unwrap();
    assert_eq!(got, Some(data.clone()));

    // duplicate upload succeeds without overwrite
    put_block(&mut db, &mut files, &hash_hex, &data, None, 1000, 150).unwrap();
    assert_eq!(db.blocks.len(), 1);
}

#[test]
fn block_upload_rejects_hash_mismatch() {
    let mut db = ServerDb::new();
    let mut files = BlockFiles::new();
    let data = b"payload".to_vec();
    let wrong = hex::encode(sha256_vec(b"other"));
    assert!(put_block(&mut db, &mut files, &wrong, &data, None, 1000, 100).is_err());
    assert_eq!(db.blocks.len(), 0);
}

#[test]
fn block_retention_sweeps_expired() {
    let mut db = ServerDb::new();
    let mut files = BlockFiles::new();
    let data = b"hello".to_vec();
    let hash_hex = hex::encode(sha256_vec(&data));

    // retention of zero: the block expires at the upload instant
    put_block(&mut db, &mut files, &hash_hex, &data, None, 0, 100).unwrap();
    assert_eq!(get_block(&db, &files, &hash_hex).unwrap(), Some(data.clone()));

    let removed = delete_expired_blocks(&mut db, &mut files, 101);
    assert_eq!(removed, 1);
    assert_eq!(get_block(&db, &files, &hash_hex).unwrap(), None);
    assert_eq!(files.files.len(), 0);
}

#[test]
fn hex_codec_round_trip_and_errors() {
    let data = vec![0u8, 1, 2, 0xff, 0x7f];
    let text = hex_encode(&data);
    assert_eq!(text, "000102ff7f");
    assert_eq!(hex_decode(&text).unwrap(), data);
    assert_eq!(hex_decode("AbCd").unwrap(), vec![0xab, 0xcd]);
    assert!(hex_decode("zz").is_err());
    assert!(hex_decode("abc").is_err());
}
