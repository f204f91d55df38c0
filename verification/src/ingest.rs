use vstd::prelude::*;

use crate::errors::UploadError;

verus! {

/// Default cap on a part's accumulated body, in bytes. Every ingestion entry
/// point takes the cap as a runtime parameter; this is only the value a
/// deployment starts from.
pub const DEFAULT_SIZE_LIMIT: usize = 5_000_000;

/// The declared name of a part, as transport metadata carries it.
pub open spec fn name_view(name: Option<&str>) -> Option<Seq<char>> {
    match name {
        Some(s) => Some(s@),
        None => None,
    }
}

/// A declared name is acceptable when it is present and non-empty.
pub open spec fn name_ok(name: Option<Seq<char>>) -> bool {
    name matches Some(n) && n.len() > 0
}

/// The whole body of one part: its chunks concatenated in stream order.
pub open spec fn chunks_data(chunks: Seq<Vec<u8>>) -> Seq<u8>
    decreases chunks.len(),
{
    if chunks.len() == 0 {
        Seq::empty()
    } else {
        chunks_data(chunks.drop_last()) + chunks.last()@
    }
}

/// The first validation failure one part gives, or `None` for a valid part.
/// The declared name is judged before the body is consumed; the size cap is
/// enforced while the body accumulates, so an oversized body is reported as
/// one byte past the cap (a lower bound on the observed size); emptiness can
/// only be judged once the body has ended.
pub open spec fn part_error(name: Option<Seq<char>>, data: Seq<u8>, limit: usize) -> Option<
    UploadError,
> {
    if !name_ok(name) {
        Some(UploadError::InvalidName)
    } else if data.len() > limit {
        Some(UploadError::SizeLimitExceeded { size: (limit + 1) as usize, limit })
    } else if data.len() == 0 {
        Some(UploadError::EmptyFile)
    } else {
        None
    }
}

/// Check a part's declared name. This runs before the part's body is
/// consumed: a missing or empty name stops the whole request.
pub fn validate_name(name: Option<&str>) -> (r: Result<String, UploadError>)
    ensures
        match r {
            Ok(s) => name_ok(name_view(name)) && (name matches Some(n) && s@ == n@),
            Err(e) => e == UploadError::InvalidName && !name_ok(name_view(name)),
        },
{
    match name {
        Some(s) => {
            if s.is_empty() {
                Err(UploadError::InvalidName)
            } else {
                Ok(s.to_owned())
            }
        },
        None => Err(UploadError::InvalidName),
    }
}

/// Accumulates one part's body chunk by chunk, enforcing the size cap
/// incrementally: it never buffers more than the cap, so peak memory stays
/// near the cap however long the incoming stream is.
pub struct PartIngestor {
    limit: usize,
    buf: Vec<u8>,
}

impl PartIngestor {
    /// The runtime-configured cap this ingestor enforces.
    pub closed spec fn cap(self) -> usize {
        self.limit
    }

    /// The bytes accumulated so far, in stream order.
    pub closed spec fn buffered(self) -> Seq<u8> {
        self.buf@
    }

    /// The buffer never grows past the cap, and the cap leaves room to
    /// report one byte past itself as an observed size.
    pub closed spec fn wf(self) -> bool {
        self.buf@.len() <= self.limit && self.limit < usize::MAX
    }

    /// Begin one part's body under the given cap. The cap must leave room
    /// to report `limit + 1` bytes as an observed size.
    pub fn new(limit: usize) -> (r: PartIngestor)
        requires
            limit < usize::MAX,
        ensures
            r.wf(),
            r.cap() == limit,
            r.buffered() == Seq::<u8>::empty(),
    {
        PartIngestor { limit, buf: Vec::new() }
    }

    /// Append one chunk of the body. As soon as the accumulated length
    /// passes the cap this fails with `SizeLimitExceeded`, reporting the cap
    /// and one byte past it (a lower bound on the observed size), and stops
    /// buffering: no caller should feed this part any further chunk.
    pub fn push_chunk(&mut self, chunk: &[u8]) -> (r: Result<(), UploadError>)
        requires
            old(self).wf(),
        ensures
            final(self).wf(),
            final(self).cap() == old(self).cap(),
            match r {
                Ok(()) => {
                    &&& old(self).buffered().len() + chunk@.len() <= old(self).cap()
                    &&& final(self).buffered() == old(self).buffered() + chunk@
                },
                Err(e) => {
                    &&& old(self).buffered().len() + chunk@.len() > old(self).cap()
                    &&& e == (UploadError::SizeLimitExceeded {
                        size: (old(self).cap() + 1) as usize,
                        limit: old(self).cap(),
                    })
                    &&& final(self).buffered() == (old(self).buffered() + chunk@).take(
                        old(self).cap() as int,
                    )
                },
            },
    {
        let ghost orig = self.buf@;
        let ghost cap = self.limit;
        let mut i: usize = 0;
        #[verifier::loop_isolation(false)]
        while i < chunk.len()
            invariant
                i <= chunk@.len(),
                self.limit == cap,
                self.buf@.len() <= self.limit,
                self.limit < usize::MAX,
                self.buf@ == orig + chunk@.take(i as int),
            decreases chunk@.len() - i,
        {
            if self.buf.len() == self.limit {
                proof {
                    assert(orig + chunk@.take(i as int) =~= (orig + chunk@).take(cap as int));
                }
                return Err(
                    UploadError::SizeLimitExceeded { size: self.limit + 1, limit: self.limit },
                );
            }
            self.buf.push(chunk[i]);
            proof {
                assert(orig + chunk@.take(i as int) + seq![chunk@[i as int]] =~= orig
                    + chunk@.take(i as int + 1));
            }
            i = i + 1;
        }
        proof {
            assert(orig + chunk@.take(i as int) =~= orig + chunk@);
        }
        Ok(())
    }

    /// End one part's body. A part whose body held no bytes at all is
    /// rejected with `EmptyFile`; otherwise the accumulated bytes come back.
    pub fn finish(self) -> (r: Result<Vec<u8>, UploadError>)
        ensures
            match r {
                Ok(b) => b@ == self.buffered() && b@.len() > 0,
                Err(e) => e == UploadError::EmptyFile && self.buffered().len() == 0,
            },
    {
        if self.buf.len() == 0 {
            Err(UploadError::EmptyFile)
        } else {
            Ok(self.buf)
        }
    }
}

/// Appending one more chunk extends a part's body by exactly that chunk.
proof fn lemma_chunks_data_snoc(chunks: Seq<Vec<u8>>, i: int)
    requires
        0 <= i < chunks.len(),
    ensures
        chunks_data(chunks.take(i + 1)) == chunks_data(chunks.take(i)) + chunks[i]@,
{
    assert(chunks.take(i + 1).drop_last() =~= chunks.take(i));
    assert(chunks.take(i + 1).last() == chunks[i]);
}

/// A part's body is at least as long as the body of any prefix of its
/// chunks.
proof fn lemma_chunks_data_prefix_len(chunks: Seq<Vec<u8>>, i: int)
    requires
        0 <= i <= chunks.len(),
    ensures
        chunks_data(chunks.take(i)).len() <= chunks_data(chunks).len(),
    decreases chunks.len() - i,
{
    if i == chunks.len() {
        assert(chunks.take(i) =~= chunks);
    } else {
        lemma_chunks_data_snoc(chunks, i);
        lemma_chunks_data_prefix_len(chunks, i + 1);
    }
}

/// Ingest one whole part: judge the declared name before the body, enforce
/// the cap chunk by chunk, and reject an empty body at the end. On success
/// the validated name and the part's whole body come back; on failure the
/// error is exactly the part's first validation failure.
pub fn ingest_part(limit: usize, name: Option<&str>, chunks: &Vec<Vec<u8>>) -> (r: Result<
    (String, Vec<u8>),
    UploadError,
>)
    requires
        limit < usize::MAX,
    ensures
        match r {
            Ok((s, b)) => {
                &&& part_error(name_view(name), chunks_data(chunks@), limit) is None
                &&& name matches Some(n) && s@ == n@
                &&& b@ == chunks_data(chunks@)
            },
            Err(e) => part_error(name_view(name), chunks_data(chunks@), limit) == Some(e),
        },
{
    let validated = match validate_name(name) {
        Ok(s) => s,
        Err(e) => {
            return Err(e);
        },
    };
    let mut ingestor = PartIngestor::new(limit);
    let mut i: usize = 0;
    #[verifier::loop_isolation(false)]
    while i < chunks.len()
        invariant
            i <= chunks@.len(),
            ingestor.wf(),
            ingestor.cap() == limit,
            ingestor.buffered() == chunks_data(chunks@.take(i as int)),
            name_ok(name_view(name)),
        decreases chunks@.len() - i,
    {
        proof {
            lemma_chunks_data_snoc(chunks@, i as int);
        }
        match ingestor.push_chunk(chunks[i].as_slice()) {
            Ok(()) => {},
            Err(e) => {
                proof {
                    lemma_chunks_data_prefix_len(chunks@, i as int + 1);
                }
                return Err(e);
            },
        }
        i = i + 1;
    }
    proof {
        assert(chunks@.take(i as int) =~= chunks@);
    }
    match ingestor.finish() {
        Ok(b) => Ok((validated, b)),
        Err(e) => Err(e),
    }
}

} // verus!
