use vstd::prelude::*;
use crate::digest::Digest;
use crate::errors::Error;
use crate::hashing::{Hasher, sha256_view};

verus! {

/// One streaming write of content whose size is unknown a priori. Chunks
/// are fed in as the caller spools them to a private temporary file; on
/// stream exhaustion the session decides whether the content may be
/// published, and under which authoritative digest. The caller performs
/// the surrounding filesystem work: durability, then one atomic rename of
/// the temporary file onto the addressed path on success, or discarding
/// the temporary file on failure.
pub struct WriteSession {
    hasher: Hasher,
}

impl WriteSession {
    /// The bytes streamed through this session so far.
    pub closed spec fn bytes(&self) -> Seq<u8> {
        self.hasher.bytes()
    }

    pub closed spec fn wf(&self) -> bool {
        self.hasher.wf()
    }

    /// Opens a session that has seen no bytes.
    pub fn new() -> (s: WriteSession)
        ensures
            s.wf(),
            s.bytes() == Seq::<u8>::empty(),
    {
        WriteSession { hasher: Hasher::new() }
    }

    /// Streams one chunk through the digest-accumulating transform.
    pub fn update(&mut self, chunk: &[u8])
        requires
            old(self).wf(),
        ensures
            final(self).wf(),
            final(self).bytes() == old(self).bytes() + chunk@,
    {
        self.hasher.update(chunk);
    }

    /// Ends the stream. With no expected digest, the computed digest of
    /// everything streamed becomes authoritative and is returned. With
    /// one, the write fails with `IntegrityMismatch` exactly when the
    /// expected digest is not the computed one; the caller then discards
    /// the temporary file and no shard-tree state changes.
    pub fn finish(self, expected: Option<&Digest>) -> (r: Result<Digest, Error>)
        requires
            self.wf(),
        ensures
            r is Ok <==> (expected matches Some(e) ==> e@ == sha256_view(self.bytes())),
            match r {
                Ok(d) => d@ == sha256_view(self.bytes()) && d.wf(),
                Err(err) => err == Error::IntegrityMismatch,
            },
    {
        let d = self.hasher.finalize();
        if let Some(e) = expected {
            if !(*e == d) {
                return Err(Error::IntegrityMismatch);
            }
        }
        Ok(d)
    }
}

} // verus!
