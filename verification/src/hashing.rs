//! Content hashing: an incremental SHA-256 digest folded over uploaded
//! chunks, and its lowercase hexadecimal rendering, which together form the
//! `ContentHash` that identifies stored archives.

use vstd::prelude::*;

verus! {

/// What SHA-256 returns for a byte sequence.  The digest is a function of
/// the bytes alone; its value is not restated here.
pub uninterp spec fn sha256_of(data: Seq<u8>) -> Seq<u8>;

/// The sixteen lowercase hexadecimal digit characters, in value order.
pub open spec fn hex_digits() -> Seq<char> {
    seq!['0', '1', '2', '3', '4', '5', '6', '7', '8', '9', 'a', 'b', 'c', 'd', 'e', 'f']
}

/// Lowercase hexadecimal rendering of a byte sequence: two digits per byte,
/// high nibble first.
pub open spec fn spec_hex(data: Seq<u8>) -> Seq<char>
    decreases data.len(),
{
    if data.len() == 0 {
        Seq::empty()
    } else {
        seq![
            hex_digits()[(data.first() / 16) as int],
            hex_digits()[(data.first() % 16) as int],
        ] + spec_hex(data.drop_first())
    }
}

pub proof fn lemma_spec_hex_len(data: Seq<u8>)
    ensures
        spec_hex(data).len() == 2 * data.len(),
    decreases data.len(),
{
    if data.len() > 0 {
        lemma_spec_hex_len(data.drop_first());
    }
}

/// The content hash of a byte sequence: its SHA-256 digest, rendered as
/// lowercase hexadecimal.
pub open spec fn content_hash_of(data: Seq<u8>) -> Seq<char> {
    spec_hex(sha256_of(data))
}

/// The sha2 crate's SHA-256 hasher state, opaque to the proofs here.
#[verifier::external_type_specification]
#[verifier::external_body]
pub struct ExSha256(sha2::Sha256);

/// Relies on hex::encode: lowercase hexadecimal, two digits per byte, high
/// nibble first.
#[verifier::external_body]
fn hex_encode(data: &[u8]) -> (r: String)
    ensures
        r@ == spec_hex(data@),
{
    hex::encode(data)
}

/// An incremental content hasher.  Chunks are folded into the digest one at
/// a time, in arrival order, without retaining the bytes themselves; the
/// ghost `fed` field records which bytes have been folded so far.
pub struct ContentHasher {
    inner: sha2::Sha256,
    fed: Ghost<Seq<u8>>,
}

impl ContentHasher {
    /// The bytes folded into this hasher so far.
    pub closed spec fn bytes(&self) -> Seq<u8> {
        self.fed@
    }

    /// Relies on sha2's Digest::new: a fresh hasher over no bytes.
    #[verifier::external_body]
    pub fn new() -> (h: ContentHasher)
        ensures
            h.bytes() == Seq::<u8>::empty(),
    {
        ContentHasher { inner: <sha2::Sha256 as sha2::Digest>::new(), fed: Ghost(Seq::empty()) }
    }

    /// Relies on sha2's Digest::update: folds the chunk into the digest
    /// state, after every byte folded before it.
    #[verifier::external_body]
    pub fn update(&mut self, chunk: &[u8])
        ensures
            final(self).bytes() == old(self).bytes() + chunk@,
    {
        sha2::Digest::update(&mut self.inner, chunk);
    }

    /// Relies on sha2's Digest::finalize: the 32-byte SHA-256 digest of
    /// exactly the bytes fed, independent of how they were split into
    /// chunks.
    #[verifier::external_body]
    pub fn finalize(self) -> (digest: Vec<u8>)
        ensures
            digest@ == sha256_of(self.bytes()),
            digest@.len() == 32,
    {
        sha2::Digest::finalize(self.inner).to_vec()
    }

    /// Finish the digest and render it as the content hash.
    pub fn finalize_hex(self) -> (h: String)
        ensures
            h@ == content_hash_of(self.bytes()),
            h@.len() == 64,
    {
        let digest = self.finalize();
        proof {
            lemma_spec_hex_len(digest@);
        }
        hex_encode(digest.as_slice())
    }
}

/// Hash a complete byte sequence in one shot.
pub fn hash_bytes(data: &[u8]) -> (h: String)
    ensures
        h@ == content_hash_of(data@),
        h@.len() == 64,
{
    let mut hasher = ContentHasher::new();
    hasher.update(data);
    proof {
        assert(hasher.bytes() =~= data@);
    }
    hasher.finalize_hex()
}

/// The concatenation of a sequence of chunks, in order.
pub open spec fn concat_chunks(chunks: Seq<Seq<u8>>) -> Seq<u8>
    decreases chunks.len(),
{
    if chunks.len() == 0 {
        Seq::empty()
    } else {
        concat_chunks(chunks.drop_last()) + chunks.last()
    }
}

/// Hash a byte sequence delivered as separate chunks, folding them in
/// arrival order.  The result is the content hash of the concatenation, so
/// chunk boundaries cannot influence it.
pub fn hash_chunks(chunks: &Vec<Vec<u8>>) -> (h: String)
    ensures
        h@ == content_hash_of(concat_chunks(chunks.deep_view())),
        h@.len() == 64,
{
    let mut hasher = ContentHasher::new();
    let n = chunks.len();
    for i in 0..n
        invariant
            n == chunks.len(),
            hasher.bytes() == concat_chunks(chunks.deep_view().take(i as int)),
    {
        hasher.update(chunks[i].as_slice());
        proof {
            let views = chunks.deep_view();
            assert(views.take(i + 1).drop_last() =~= views.take(i as int));
            assert(views.take(i + 1).last() == views[i as int]);
        }
    }
    proof {
        assert(chunks.deep_view().take(n as int) =~= chunks.deep_view());
    }
    hasher.finalize_hex()
}

/// Chunk-boundary independence: two chunkings with the same concatenation
/// have the same content hash, whatever the boundaries were.
pub proof fn lemma_chunking_independent(a: Seq<Seq<u8>>, b: Seq<Seq<u8>>)
    requires
        concat_chunks(a) == concat_chunks(b),
    ensures
        content_hash_of(concat_chunks(a)) == content_hash_of(concat_chunks(b)),
{
}

} // verus!
