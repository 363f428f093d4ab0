use cas_store::digest::{Digest, HashAlgorithm};
use cas_store::errors::Error;
use cas_store::hashing::{digest_of, verify_content};
use cas_store::store::ContentStore;
use cas_store::writer::WriteSession;

#[test]
fn round_trip_write_then_read() {
    let mut store = ContentStore::new();
    let data = b"some cached bytes";
    let digest = store.write(None, data).unwrap();
    let back = store.read(&digest).unwrap();
    assert_eq!(back, data.to_vec());
}

#[test]
fn round_trip_empty_content() {
    let mut store = ContentStore::new();
    let digest = store.write(None, b"").unwrap();
    let back = store.read(&digest).unwrap();
    assert_eq!(back, Vec::<u8>::new());
}

#[test]
fn scenario_hello_write_read_remove() {
    let mut store = ContentStore::new();
    let digest = store.write(None, b"hello").unwrap();
    assert_eq!(store.read(&digest).unwrap(), b"hello".to_vec());
    assert!(store.remove(&digest).is_ok());
    assert_eq!(store.read(&digest).unwrap_err(), Error::NotFound);
}

#[test]
fn writing_identical_content_twice_dedups() {
    let mut store = ContentStore::new();
    let d1 = store.write(None, b"payload").unwrap();
    let d2 = store.write(None, b"payload").unwrap();
    assert_eq!(d1, d2);
    assert_eq!(store.len(), 1);
    assert_eq!(store.read(&d1).unwrap(), b"payload".to_vec());
}

#[test]
fn scenario_racing_writers_agree() {
    // Two writers streaming the exact same bytes, interleaved: both report
    // success with the same digest, and exactly one entry exists afterward.
    let mut store = ContentStore::new();
    let mut first = WriteSession::new();
    let mut second = WriteSession::new();
    first.update(b"pay");
    second.update(b"payload");
    first.update(b"load");
    let d1 = first.finish(None).unwrap();
    let d2 = second.finish(None).unwrap();
    assert_eq!(d1, d2);
    store.write(None, b"payload").unwrap();
    store.write(None, b"payload").unwrap();
    assert_eq!(store.len(), 1);
}

#[test]
fn remove_absent_digest_succeeds() {
    let mut store = ContentStore::new();
    let absent = digest_of(b"never stored");
    assert!(store.remove(&absent).is_ok());
    assert!(store.remove(&absent).is_ok());
}

#[test]
fn remove_is_idempotent_after_write() {
    let mut store = ContentStore::new();
    let digest = store.write(None, b"soon gone").unwrap();
    assert!(store.remove(&digest).is_ok());
    assert!(store.remove(&digest).is_ok());
    assert_eq!(store.read(&digest).unwrap_err(), Error::NotFound);
}

#[test]
fn write_with_matching_expected_digest_succeeds() {
    let mut store = ContentStore::new();
    let expected = digest_of(b"guarded");
    let digest = store.write(Some(&expected), b"guarded").unwrap();
    assert_eq!(digest, expected);
    assert_eq!(store.read(&digest).unwrap(), b"guarded".to_vec());
}

#[test]
fn write_with_wrong_expected_digest_fails() {
    let mut store = ContentStore::new();
    let wrong = digest_of(b"something else");
    let err = store.write(Some(&wrong), b"the real bytes").unwrap_err();
    assert_eq!(err, Error::IntegrityMismatch);
    // No entry became visible at either digest.
    assert_eq!(store.read(&wrong).unwrap_err(), Error::NotFound);
    let true_digest = digest_of(b"the real bytes");
    assert_eq!(store.read(&true_digest).unwrap_err(), Error::NotFound);
    assert_eq!(store.len(), 0);
}

#[test]
fn scenario_write_x_expecting_digest_of_y() {
    let mut store = ContentStore::new();
    let digest_of_y = digest_of(b"y");
    let err = store.write(Some(&digest_of_y), b"x").unwrap_err();
    assert_eq!(err, Error::IntegrityMismatch);
    assert_eq!(store.read(&digest_of_y).unwrap_err(), Error::NotFound);
    let digest_of_x = digest_of(b"x");
    assert_eq!(store.read(&digest_of_x).unwrap_err(), Error::NotFound);
}

#[test]
fn contains_tracks_presence() {
    let mut store = ContentStore::new();
    let digest = store.write(None, b"present").unwrap();
    assert!(store.contains(&digest));
    store.remove(&digest).unwrap();
    assert!(!store.contains(&digest));
}

#[test]
fn overwrite_keeps_one_entry_per_digest() {
    let mut store = ContentStore::new();
    store.write(None, b"one").unwrap();
    store.write(None, b"two").unwrap();
    store.write(None, b"one").unwrap();
    assert_eq!(store.len(), 2);
}

#[test]
fn verify_content_accepts_matching_and_rejects_other_bytes() {
    let digest = digest_of(b"audited");
    assert!(verify_content(b"audited", &digest));
    assert!(!verify_content(b"tampered", &digest));
}

#[test]
fn verify_content_rejects_foreign_algorithm_tag() {
    let hex = digest_of(b"audited").hex;
    let foreign = Digest::new(HashAlgorithm::Sha512, hex).unwrap();
    assert!(!verify_content(b"audited", &foreign));
}

#[test]
fn streaming_session_matches_one_shot_digest() {
    let mut session = WriteSession::new();
    session.update(b"chunk one, ");
    session.update(b"chunk two");
    session.update(b"");
    let streamed = session.finish(None).unwrap();
    let whole = digest_of(b"chunk one, chunk two");
    assert_eq!(streamed, whole);
}

#[test]
fn session_finish_checks_expected_digest() {
    let mut session = WriteSession::new();
    session.update(b"streamed");
    let err = session.finish(Some(&digest_of(b"other"))).unwrap_err();
    assert_eq!(err, Error::IntegrityMismatch);

    let mut session = WriteSession::new();
    session.update(b"streamed");
    let digest = session.finish(Some(&digest_of(b"streamed"))).unwrap();
    assert_eq!(digest, digest_of(b"streamed"));
}
