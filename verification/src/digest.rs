//! Incremental SHA-256 checksums rendered as lowercase hexadecimal text.
use vstd::prelude::*;

verus! {

/// A running SHA-256 computation (`sha2::Sha256`).
#[verifier::external_body]
pub struct Sha256Stream {
    inner: sha2::Sha256,
}

/// The bytes that a running SHA-256 computation has absorbed so far.
pub uninterp spec fn sha256_absorbed(s: Sha256Stream) -> Seq<u8>;

/// The SHA-256 digest of `data`.
pub uninterp spec fn sha256(data: Seq<u8>) -> Seq<u8>;

/// `Sha256::new` (through `sha2::Digest`): a computation that has absorbed
/// nothing.
#[verifier::external_body]
fn sha256_start() -> (s: Sha256Stream)
    ensures
        sha256_absorbed(s) == Seq::<u8>::empty(),
{
    Sha256Stream { inner: <sha2::Sha256 as sha2::Digest>::new() }
}

/// `Sha256::update` (through `sha2::Digest`): absorbs `data` after what was
/// absorbed before.
#[verifier::external_body]
fn sha256_update(s: &mut Sha256Stream, data: &[u8])
    ensures
        sha256_absorbed(*final(s)) == sha256_absorbed(*old(s)) + data@,
{
    <sha2::Sha256 as sha2::Digest>::update(&mut s.inner, data)
}

/// `Sha256::finalize` (through `sha2::Digest`): the 32-byte digest of
/// everything absorbed.
#[verifier::external_body]
fn sha256_finish(s: Sha256Stream) -> (d: Vec<u8>)
    ensures
        d@ == sha256(sha256_absorbed(s)),
        d@.len() == 32,
{
    <sha2::Sha256 as sha2::Digest>::finalize(s.inner).to_vec()
}

/// `Clone::clone` of `sha2::Sha256`: an independent computation in the same
/// state.
#[verifier::external_body]
fn sha256_fork(s: &Sha256Stream) -> (c: Sha256Stream)
    ensures
        sha256_absorbed(c) == sha256_absorbed(*s),
{
    Sha256Stream { inner: s.inner.clone() }
}

/// The lowercase hexadecimal digit of `n` (`0 <= n < 16`).
pub open spec fn hex_digit(n: nat) -> char {
    if n < 10 {
        (n + 48) as char
    } else {
        (n + 87) as char
    }
}

/// Lowercase hexadecimal text of `bytes`: two digits per byte, high nibble first.
pub open spec fn hex_lower(bytes: Seq<u8>) -> Seq<char>
    decreases bytes.len(),
{
    if bytes.len() == 0 {
        Seq::empty()
    } else {
        seq![hex_digit((bytes[0] / 16) as nat), hex_digit((bytes[0] % 16) as nat)] + hex_lower(
            bytes.drop_first(),
        )
    }
}

/// Hexadecimal text has two digits per byte.
pub proof fn lemma_hex_lower_len(bytes: Seq<u8>)
    ensures
        hex_lower(bytes).len() == 2 * bytes.len(),
    decreases bytes.len(),
{
    if bytes.len() > 0 {
        lemma_hex_lower_len(bytes.drop_first());
    }
}

/// `hex::encode`: lowercase hexadecimal text of `bytes`.
#[verifier::external_body]
fn hex_encode(bytes: &[u8]) -> (s: String)
    ensures
        s@ == hex_lower(bytes@),
{
    hex::encode(bytes)
}

/// A SHA-256 checksum being computed over a stream of chunks.
pub struct StreamingChecksum {
    hasher: Sha256Stream,
}

impl View for StreamingChecksum {
    type V = Seq<u8>;

    /// The bytes fed so far.
    closed spec fn view(&self) -> Seq<u8> {
        sha256_absorbed(self.hasher)
    }
}

impl StreamingChecksum {
    /// A checksum over no bytes yet.
    pub fn new() -> (c: StreamingChecksum)
        ensures
            c@ == Seq::<u8>::empty(),
    {
        StreamingChecksum { hasher: sha256_start() }
    }

    /// Feeds the next chunk.
    pub fn feed(&mut self, data: &[u8])
        ensures
            final(self)@ == old(self)@ + data@,
    {
        sha256_update(&mut self.hasher, data);
    }

    /// An independent copy in the same state.
    pub fn fork(&self) -> (c: StreamingChecksum)
        ensures
            c@ == self@,
    {
        StreamingChecksum { hasher: sha256_fork(&self.hasher) }
    }

    /// The lowercase hexadecimal SHA-256 digest of everything fed.
    pub fn finish_hex(self) -> (s: String)
        ensures
            s@ == hex_lower(sha256(self@)),
            s@.len() == 64,
    {
        let digest = sha256_finish(self.hasher);
        proof { lemma_hex_lower_len(digest@); }
        hex_encode(digest.as_slice())
    }
}

} // verus!
