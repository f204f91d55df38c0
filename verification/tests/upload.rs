use cipherstore::errors::UploadError;
use cipherstore::pipeline::{process_upload, retrieve, RequestPart};
use cipherstore::store::ObjectStore;

fn part(name: Option<&str>, chunks: Vec<Vec<u8>>) -> RequestPart {
    RequestPart { name: name.map(|s| s.to_string()), chunks }
}

#[test]
fn single_part_roundtrip_through_store() {
    let mut store = ObjectStore::new();
    let parts = vec![part(Some("a.txt"), vec![b"hello".to_vec()])];
    let manifest = process_upload(&mut store, 5_000_000, &parts).unwrap();
    assert_eq!(manifest.len(), 1);
    assert_eq!(manifest[0].name, "a.txt");
    let body = retrieve(&store, manifest[0].id).unwrap();
    assert_eq!(body, b"hello".to_vec());
}

#[test]
fn empty_body_rejected() {
    let mut store = ObjectStore::new();
    let parts = vec![part(Some("empty.bin"), vec![b"".to_vec()])];
    let r = process_upload(&mut store, 5_000_000, &parts);
    assert_eq!(r.unwrap_err(), UploadError::EmptyFile);
    assert_eq!(store.len(), 0);
}

#[test]
fn part_with_no_chunks_rejected_as_empty() {
    let mut store = ObjectStore::new();
    let parts = vec![part(Some("nothing.bin"), vec![])];
    let r = process_upload(&mut store, 5_000_000, &parts);
    assert_eq!(r.unwrap_err(), UploadError::EmptyFile);
    assert_eq!(store.len(), 0);
}

#[test]
fn missing_name_rejected() {
    let mut store = ObjectStore::new();
    let parts = vec![part(None, vec![b"x".to_vec()])];
    let r = process_upload(&mut store, 5_000_000, &parts);
    assert_eq!(r.unwrap_err(), UploadError::InvalidName);
    assert_eq!(store.len(), 0);
}

#[test]
fn empty_name_rejected() {
    let mut store = ObjectStore::new();
    let parts = vec![part(Some(""), vec![b"x".to_vec()])];
    let r = process_upload(&mut store, 5_000_000, &parts);
    assert_eq!(r.unwrap_err(), UploadError::InvalidName);
    assert_eq!(store.len(), 0);
}

#[test]
fn body_of_exactly_the_limit_succeeds() {
    let mut store = ObjectStore::new();
    let parts = vec![part(Some("full.bin"), vec![vec![7u8; 10]])];
    let manifest = process_upload(&mut store, 10, &parts).unwrap();
    assert_eq!(manifest.len(), 1);
    let body = retrieve(&store, manifest[0].id).unwrap();
    assert_eq!(body, vec![7u8; 10]);
}

#[test]
fn body_one_past_the_limit_fails_with_observed_size() {
    let mut store = ObjectStore::new();
    let parts = vec![part(Some("big.bin"), vec![vec![7u8; 11]])];
    let r = process_upload(&mut store, 10, &parts);
    assert_eq!(r.unwrap_err(), UploadError::SizeLimitExceeded { size: 11, limit: 10 });
    assert_eq!(store.len(), 0);
}

#[test]
fn limit_enforced_across_chunks() {
    let mut store = ObjectStore::new();
    let parts = vec![part(Some("split.bin"), vec![vec![1u8; 6], vec![2u8; 5]])];
    let r = process_upload(&mut store, 10, &parts);
    assert_eq!(r.unwrap_err(), UploadError::SizeLimitExceeded { size: 11, limit: 10 });
    assert_eq!(store.len(), 0);
}

#[test]
fn body_reassembled_from_chunks_in_order() {
    let mut store = ObjectStore::new();
    let parts = vec![part(Some("c.bin"), vec![b"ab".to_vec(), b"cd".to_vec(), b"e".to_vec()])];
    let manifest = process_upload(&mut store, 100, &parts).unwrap();
    let body = retrieve(&store, manifest[0].id).unwrap();
    assert_eq!(body, b"abcde".to_vec());
}

#[test]
fn failed_request_rolls_back_every_part() {
    let mut store = ObjectStore::new();
    let parts = vec![
        part(Some("ok.txt"), vec![b"fine".to_vec()]),
        part(Some("bad.txt"), vec![b"".to_vec()]),
    ];
    let r = process_upload(&mut store, 5_000_000, &parts);
    assert_eq!(r.unwrap_err(), UploadError::EmptyFile);
    assert_eq!(store.len(), 0);
}

#[test]
fn two_valid_parts_both_committed() {
    let mut store = ObjectStore::new();
    let parts = vec![
        part(Some("one.txt"), vec![b"first".to_vec()]),
        part(Some("two.txt"), vec![b"second".to_vec()]),
    ];
    let manifest = process_upload(&mut store, 5_000_000, &parts).unwrap();
    assert_eq!(manifest.len(), 2);
    assert_ne!(manifest[0].id, manifest[1].id);
    assert_eq!(manifest[0].name, "one.txt");
    assert_eq!(manifest[1].name, "two.txt");
    assert_eq!(retrieve(&store, manifest[0].id).unwrap(), b"first".to_vec());
    assert_eq!(retrieve(&store, manifest[1].id).unwrap(), b"second".to_vec());
    assert_eq!(store.len(), 2);
}

#[test]
fn earlier_uploads_survive_a_later_failure() {
    let mut store = ObjectStore::new();
    let ok_parts = vec![part(Some("keep.txt"), vec![b"keep me".to_vec()])];
    let manifest = process_upload(&mut store, 5_000_000, &ok_parts).unwrap();
    let bad_parts = vec![part(None, vec![b"x".to_vec()])];
    assert!(process_upload(&mut store, 5_000_000, &bad_parts).is_err());
    assert_eq!(store.len(), 1);
    assert_eq!(retrieve(&store, manifest[0].id).unwrap(), b"keep me".to_vec());
}
