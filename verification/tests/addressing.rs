use cas_store::address::{address, content_dir, tmp_dir};
use cas_store::digest::{Digest, HashAlgorithm};
use cas_store::hashing::digest_of;

#[test]
fn address_of_hello_digest_is_sharded() {
    let digest = digest_of(b"hello");
    let segments = address(&digest);
    assert_eq!(
        segments,
        vec![
            String::from("content-v2"),
            String::from("sha256"),
            String::from("2c"),
            String::from("f2"),
            String::from("4dba5fb0a30e26e83b2ac5b9e29e1b161e5c1fa7425e73043362938b9824"),
        ]
    );
}

#[test]
fn address_is_deterministic() {
    let digest = digest_of(b"stable");
    assert_eq!(address(&digest), address(&digest));
    let same = digest_of(b"stable");
    assert_eq!(address(&digest), address(&same));
}

#[test]
fn distinct_digests_get_distinct_addresses() {
    let a = digest_of(b"first");
    let b = digest_of(b"second");
    assert_ne!(address(&a), address(&b));

    // Same hex under another algorithm tag diverges in the algorithm segment.
    let c = Digest::new(HashAlgorithm::Sha512, a.hex.clone()).unwrap();
    assert_ne!(address(&a), address(&c));
}

#[test]
fn address_uses_algorithm_segment() {
    let digest = Digest::new(HashAlgorithm::Sha1, String::from("0123456789")).unwrap();
    let segments = address(&digest);
    assert_eq!(
        segments,
        vec![
            String::from("content-v2"),
            String::from("sha1"),
            String::from("01"),
            String::from("23"),
            String::from("456789"),
        ]
    );
}

#[test]
fn address_segments_are_clean() {
    let digest = digest_of(b"clean");
    let segments = address(&digest);
    assert_eq!(segments.len(), 5);
    for segment in segments {
        assert!(!segment.is_empty());
        assert!(!segment.contains('/'));
    }
}

#[test]
fn layout_constants() {
    assert_eq!(content_dir(), "content-v2");
    assert_eq!(tmp_dir(), "tmp");
    // The shard tree and the temporary area never overlap.
    assert_ne!(content_dir(), tmp_dir());
}
