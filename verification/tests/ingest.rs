use cipherstore::errors::UploadError;
use cipherstore::ingest::{ingest_part, validate_name, PartIngestor, DEFAULT_SIZE_LIMIT};

#[test]
fn default_limit_is_five_million_bytes() {
    assert_eq!(DEFAULT_SIZE_LIMIT, 5_000_000);
}

#[test]
fn name_must_be_present_and_non_empty() {
    assert_eq!(validate_name(None).unwrap_err(), UploadError::InvalidName);
    assert_eq!(validate_name(Some("")).unwrap_err(), UploadError::InvalidName);
    assert_eq!(validate_name(Some("a.txt")).unwrap(), "a.txt".to_string());
}

#[test]
fn ingestor_accumulates_chunks_in_order() {
    let mut ingestor = PartIngestor::new(100);
    ingestor.push_chunk(b"ab").unwrap();
    ingestor.push_chunk(b"").unwrap();
    ingestor.push_chunk(b"cde").unwrap();
    assert_eq!(ingestor.finish().unwrap(), b"abcde".to_vec());
}

#[test]
fn ingestor_rejects_an_empty_body() {
    let ingestor = PartIngestor::new(100);
    assert_eq!(ingestor.finish().unwrap_err(), UploadError::EmptyFile);
}

#[test]
fn ingestor_stops_at_the_first_byte_past_the_cap() {
    let mut ingestor = PartIngestor::new(4);
    ingestor.push_chunk(b"ab").unwrap();
    let r = ingestor.push_chunk(b"cde");
    assert_eq!(r.unwrap_err(), UploadError::SizeLimitExceeded { size: 5, limit: 4 });
}

#[test]
fn ingestor_accepts_a_body_of_exactly_the_cap() {
    let mut ingestor = PartIngestor::new(4);
    ingestor.push_chunk(b"ab").unwrap();
    ingestor.push_chunk(b"cd").unwrap();
    assert_eq!(ingestor.finish().unwrap(), b"abcd".to_vec());
}

#[test]
fn whole_part_ingestion_checks_name_before_body() {
    let chunks = vec![b"".to_vec()];
    // the empty body would also be a failure, but the name is judged first
    assert_eq!(ingest_part(10, None, &chunks).unwrap_err(), UploadError::InvalidName);
}

#[test]
fn whole_part_ingestion_reports_size_before_emptiness() {
    let chunks = vec![vec![0u8; 11]];
    assert_eq!(
        ingest_part(10, Some("f"), &chunks).unwrap_err(),
        UploadError::SizeLimitExceeded { size: 11, limit: 10 }
    );
}

#[test]
fn whole_part_ingestion_returns_name_and_body() {
    let chunks = vec![b"he".to_vec(), b"llo".to_vec()];
    let (name, body) = ingest_part(10, Some("greeting"), &chunks).unwrap();
    assert_eq!(name, "greeting");
    assert_eq!(body, b"hello".to_vec());
}
