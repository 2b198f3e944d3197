//! The ingestion pipeline for one upload: chunks are folded into the
//! content hasher in arrival order, accumulated so the exact concatenation
//! can be written to storage afterwards, and counted into a progress total
//! that concurrent observers may publish.

use crate::hashing::{concat_chunks, content_hash_of, ContentHasher};
use vstd::prelude::*;

verus! {

/// One in-flight ingestion.  The progress total always equals the number
/// of bytes accepted so far, and the hasher has been fed exactly the
/// accumulated bytes, whatever chunk boundaries delivered them.
pub struct Ingestion {
    buffer: Vec<u8>,
    hasher: ContentHasher,
    processed: u64,
}

impl Ingestion {
    /// The exact concatenation of every chunk accepted so far.
    pub closed spec fn bytes(&self) -> Seq<u8> {
        self.buffer@
    }

    /// The progress total: bytes processed by this ingestion.
    pub closed spec fn processed_count(&self) -> u64 {
        self.processed
    }

    pub closed spec fn wf(&self) -> bool {
        self.processed as int == self.buffer@.len() && self.hasher.bytes() == self.buffer@
    }

    /// The progress total of a well-formed ingestion is exactly the number
    /// of bytes accepted.
    pub proof fn lemma_progress_is_byte_count(&self)
        requires
            self.wf(),
        ensures
            self.processed_count() as int == self.bytes().len(),
    {
    }

    /// Start an ingestion: no bytes yet, progress reset to zero.
    pub fn begin() -> (r: Ingestion)
        ensures
            r.wf(),
            r.bytes() == Seq::<u8>::empty(),
            r.processed_count() == 0,
    {
        let r = Ingestion { buffer: Vec::new(), hasher: ContentHasher::new(), processed: 0 };
        proof {
            assert(r.bytes() =~= Seq::<u8>::empty());
        }
        r
    }

    /// Accept the next chunk: append it to the accumulation, fold it into
    /// the hasher, and add its length to the progress total, which never
    /// decreases.
    pub fn add_chunk(&mut self, chunk: &[u8])
        requires
            old(self).wf(),
            old(self).bytes().len() + chunk@.len() <= u64::MAX,
        ensures
            final(self).wf(),
            final(self).bytes() == old(self).bytes() + chunk@,
            final(self).processed_count() == old(self).processed_count() + chunk@.len(),
            final(self).processed_count() >= old(self).processed_count(),
    {
        self.buffer.extend_from_slice(chunk);
        self.hasher.update(chunk);
        self.processed = self.processed + chunk.len() as u64;
        proof {
            assert(final(self).bytes() =~= old(self).bytes() + chunk@);
        }
    }

    /// Accept a whole delivery of chunks in arrival order.  The progress
    /// total afterwards is exactly the total number of bytes delivered.
    pub fn add_chunks(&mut self, chunks: &Vec<Vec<u8>>)
        requires
            old(self).wf(),
            old(self).bytes().len() + concat_chunks(chunks.deep_view()).len() <= u64::MAX,
        ensures
            final(self).wf(),
            final(self).bytes() == old(self).bytes() + concat_chunks(chunks.deep_view()),
            final(self).processed_count() == old(self).processed_count() + concat_chunks(
                chunks.deep_view(),
            ).len(),
    {
        let n = chunks.len();
        proof {
            assert(chunks.deep_view().take(0) =~= Seq::<Seq<u8>>::empty());
            assert(old(self).bytes() + concat_chunks(chunks.deep_view().take(0)) =~= old(
                self,
            ).bytes());
        }
        for i in 0..n
            invariant
                n == chunks.len(),
                self.wf(),
                self.bytes() == old(self).bytes() + concat_chunks(
                    chunks.deep_view().take(i as int),
                ),
                old(self).bytes().len() + concat_chunks(chunks.deep_view()).len() <= u64::MAX,
        {
            proof {
                lemma_concat_take_bound(chunks.deep_view(), i + 1);
                assert(chunks.deep_view().take(i + 1).drop_last() =~= chunks.deep_view().take(
                    i as int,
                ));
                assert(chunks.deep_view().take(i + 1).last() == chunks.deep_view()[i as int]);
            }
            self.add_chunk(chunks[i].as_slice());
            proof {
                assert(self.bytes() =~= old(self).bytes() + concat_chunks(
                    chunks.deep_view().take(i + 1),
                ));
            }
        }
        proof {
            assert(chunks.deep_view().take(n as int) =~= chunks.deep_view());
        }
    }

    /// How many bytes this ingestion has processed; what a progress
    /// observer publishes.
    pub fn processed_bytes(&self) -> (r: u64)
        ensures
            r == self.processed_count(),
    {
        self.processed
    }

    /// Finish the ingestion: the content hash of the exact concatenation
    /// of all accepted chunks, together with the accumulated bytes that a
    /// cache miss must write to storage.
    pub fn finish(self) -> (r: (String, Vec<u8>))
        requires
            self.wf(),
        ensures
            r.0@ == content_hash_of(self.bytes()),
            r.0@.len() == 64,
            r.1@ == self.bytes(),
    {
        let Ingestion { buffer, hasher, processed: _ } = self;
        let hash = hasher.finalize_hex();
        (hash, buffer)
    }
}

/// A prefix of the chunks concatenates to no more than the whole.
pub proof fn lemma_concat_take_bound(chunks: Seq<Seq<u8>>, i: int)
    requires
        0 <= i <= chunks.len(),
    ensures
        concat_chunks(chunks.take(i)).len() <= concat_chunks(chunks).len(),
    decreases chunks.len() - i,
{
    if i == chunks.len() {
        assert(chunks.take(i) =~= chunks);
    } else {
        assert(chunks.take(i + 1).drop_last() =~= chunks.take(i));
        assert(chunks.take(i + 1).last() == chunks[i]);
        lemma_concat_take_bound(chunks, i + 1);
    }
}

} // verus!
