//! Incremental SHA-256 digests rendered as lowercase hex.

use vstd::prelude::*;

verus! {

/// Size of the chunks in which content is fed to the digest.
pub const CHUNK_SIZE: usize = 8192;

/// The lowercase hex digit for a value below sixteen.
pub open spec fn hex_digit(n: u8) -> char {
    seq!['0', '1', '2', '3', '4', '5', '6', '7', '8', '9', 'a', 'b', 'c', 'd', 'e', 'f'][(
    n % 16) as int]
}

/// Two lowercase hex digits per byte, high nibble first.
pub open spec fn hex_of(b: Seq<u8>) -> Seq<char>
    decreases b.len(),
{
    if b.len() == 0 {
        Seq::empty()
    } else {
        seq![hex_digit(b[0] / 16), hex_digit(b[0] % 16)] + hex_of(b.drop_first())
    }
}

/// What SHA-256 yields for a message.
pub uninterp spec fn sha256_of(data: Seq<u8>) -> Seq<u8>;

/// A running SHA-256 computation.
#[verifier::external_body]
pub struct Sha256Hasher {
    inner: sha2::Sha256,
}

/// The message that a running SHA-256 computation has absorbed so far.
pub uninterp spec fn absorbed(h: Sha256Hasher) -> Seq<u8>;

/// Relies on sha2's `Digest::new`: a fresh hasher has absorbed nothing.
#[verifier::external_body]
fn hasher_new() -> (h: Sha256Hasher)
    ensures
        absorbed(h) == Seq::<u8>::empty(),
{
    Sha256Hasher { inner: <sha2::Sha256 as sha2::Digest>::new() }
}

/// Relies on sha2's `Digest::update`: the bytes are appended to the message.
#[verifier::external_body]
fn hasher_update(h: &mut Sha256Hasher, data: &[u8])
    ensures
        absorbed(*final(h)) == absorbed(*old(h)) + data@,
{
    sha2::Digest::update(&mut h.inner, data);
}

/// Relies on sha2's `Digest::finalize`: the 32-byte SHA-256 digest of the
/// absorbed message.
#[verifier::external_body]
fn hasher_finalize(h: Sha256Hasher) -> (r: Vec<u8>)
    ensures
        r@ == sha256_of(absorbed(h)),
        r@.len() == 32,
{
    sha2::Digest::finalize(h.inner).to_vec()
}

/// Relies on `hex::encode`: two lowercase hex digits per byte, high nibble
/// first.
#[verifier::external_body]
fn hex_encode(b: &[u8]) -> (r: String)
    ensures
        r@ == hex_of(b@),
{
    hex::encode(b)
}

/// The digest of a message, as the pipeline compares it: lowercase hex.
pub open spec fn digest_hex(data: Seq<u8>) -> Seq<char> {
    hex_of(sha256_of(data))
}

/// One progress report of a digest: bytes hashed so far, and the size hint
/// given when hashing began.
#[derive(Clone, Copy, Debug, PartialEq, Eq)]
pub struct HashProgress {
    pub hashed: u64,
    pub total: u64,
}

/// Incremental digest of a byte source that arrives in chunks.
pub struct StreamingDigest {
    hasher: Sha256Hasher,
    hashed: u64,
    total_hint: u64,
}

impl StreamingDigest {
    /// The bytes fed so far.
    pub closed spec fn input(&self) -> Seq<u8> {
        absorbed(self.hasher)
    }

    /// The size hint given at creation.
    pub closed spec fn hint(&self) -> u64 {
        self.total_hint
    }

    pub closed spec fn wf(&self) -> bool {
        self.hashed as int == absorbed(self.hasher).len()
    }

    /// Starts a digest over a source whose size is believed to be
    /// `total_hint` bytes (zero when unknown).
    pub fn new(total_hint: u64) -> (r: Self)
        ensures
            r.wf(),
            r.input() == Seq::<u8>::empty(),
            r.hint() == total_hint,
    {
        StreamingDigest { hasher: hasher_new(), hashed: 0, total_hint }
    }

    /// Number of bytes fed so far.
    pub fn hashed(&self) -> (r: u64)
        requires
            self.wf(),
        ensures
            r as int == self.input().len(),
    {
        self.hashed
    }

    /// Feeds one chunk and reports progress after it.
    pub fn update(&mut self, chunk: &[u8]) -> (p: HashProgress)
        requires
            old(self).wf(),
            old(self).input().len() + chunk@.len() <= u64::MAX,
        ensures
            final(self).wf(),
            final(self).input() == old(self).input() + chunk@,
            final(self).hint() == old(self).hint(),
            p.hashed as int == final(self).input().len(),
            p.total == old(self).hint(),
    {
        hasher_update(&mut self.hasher, chunk);
        self.hashed = self.hashed + chunk.len() as u64;
        HashProgress { hashed: self.hashed, total: self.total_hint }
    }

    /// Ends the digest: the lowercase hex SHA-256 of everything fed.
    pub fn finish(self) -> (r: String)
        ensures
            r@ == digest_hex(self.input()),
    {
        let bytes = hasher_finalize(self.hasher);
        hex_encode(bytes.as_slice())
    }
}

/// Digest of an in-memory message, fed in chunks of `CHUNK_SIZE` bytes.
pub fn sha256_of_bytes(bytes: &[u8]) -> (r: String)
    requires
        bytes@.len() <= u64::MAX,
    ensures
        r@ == digest_hex(bytes@),
{
    let mut d = StreamingDigest::new(bytes.len() as u64);
    let n = bytes.len();
    let mut start: usize = 0;
    while start < n
        invariant
            n == bytes@.len(),
            start <= n,
            n <= u64::MAX,
            d.wf(),
            d.input() == bytes@.subrange(0, start as int),
        decreases n - start,
    {
        let end: usize = if n - start > CHUNK_SIZE {
            start + CHUNK_SIZE
        } else {
            n
        };
        let chunk = vstd::slice::slice_subrange(bytes, start, end);
        let _ = d.update(chunk);
        assert(bytes@.subrange(0, start as int) + bytes@.subrange(start as int, end as int)
            =~= bytes@.subrange(0, end as int));
        start = end;
    }
    assert(bytes@.subrange(0, n as int) =~= bytes@);
    d.finish()
}

/// Whether a computed digest satisfies an expectation; an empty expectation
/// asks for no check at all.
pub open spec fn digest_accepts(expected: Seq<char>, computed: Seq<char>) -> bool {
    expected.len() == 0 || expected == computed
}

} // verus!
