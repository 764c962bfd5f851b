use poleshift::digest::{sha256_of_bytes, StreamingDigest, CHUNK_SIZE};

#[test]
fn digest_of_abc() {
    assert_eq!(
        sha256_of_bytes(b"abc"),
        "ba7816bf8f01cfea414140de5dae2223b00361a396177a9cb410ff61f20015ad"
    );
}

#[test]
fn digest_of_nothing() {
    assert_eq!(
        sha256_of_bytes(b""),
        "e3b0c44298fc1c149afbf4c8996fb92427ae41e4649b934ca495991b7852b855"
    );
}

#[test]
fn digest_of_a_million_a_spans_many_chunks() {
    let data = vec![b'a'; 1_000_000];
    assert!(data.len() > CHUNK_SIZE);
    assert_eq!(
        sha256_of_bytes(&data),
        "cdc76e5c9914fb9281a1c7e284d73e67f1809a48a497200e046d39ccc7112cd0"
    );
}

#[test]
fn streaming_digest_reports_progress_and_matches_whole() {
    let data: Vec<u8> = (0..20000u32).map(|i| (i % 256) as u8).collect();
    let mut d = StreamingDigest::new(20000);
    let mut last = 0;
    for chunk in data.chunks(CHUNK_SIZE) {
        let p = d.update(chunk);
        assert_eq!(p.total, 20000);
        assert_eq!(p.hashed, last + chunk.len() as u64);
        last = p.hashed;
    }
    assert_eq!(d.hashed(), 20000);
    let hex = d.finish();
    assert_eq!(hex, sha256_of_bytes(&data));
    assert_eq!(hex.len(), 64);
    assert!(hex.chars().all(|c| c.is_ascii_digit() || ('a'..='f').contains(&c)));
}
