use vstd::prelude::*;
use crate::digest::{Digest, DigestView, HashAlgorithm, is_hex_digit};

verus! {

#[verifier::external_type_specification]
#[verifier::external_body]
pub struct ExIntegrityOpts(ssri::IntegrityOpts);

/// The bytes fed so far to a digest accumulator. The accumulator's hashers
/// are a function of these bytes and of nothing else.
pub uninterp spec fn opts_fed(o: ssri::IntegrityOpts) -> Seq<u8>;

/// Whether a digest accumulator was configured to compute exactly one
/// hash, sha-256.
pub uninterp spec fn opts_sha256(o: ssri::IntegrityOpts) -> bool;

/// The lowercase hex encoding of the sha-256 digest of a byte sequence.
pub uninterp spec fn sha256_hex(b: Seq<u8>) -> Seq<char>;

/// The digest value this crate's hashing assigns to a byte sequence.
pub open spec fn sha256_view(b: Seq<u8>) -> DigestView {
    DigestView { algorithm: HashAlgorithm::Sha256, hex: sha256_hex(b) }
}

/// Relies on `ssri::IntegrityOpts::new` and `ssri::IntegrityOpts::algorithm`:
/// a fresh accumulator configured for sha-256 alone, with no input yet.
#[verifier::external_body]
fn opts_new_sha256() -> (o: ssri::IntegrityOpts)
    ensures
        opts_sha256(o),
        opts_fed(o) == Seq::<u8>::empty(),
{
    ssri::IntegrityOpts::new().algorithm(ssri::Algorithm::Sha256)
}

/// Relies on `ssri::IntegrityOpts::input`: appends a chunk to what the
/// accumulator has digested, leaving its algorithm configuration alone.
#[verifier::external_body]
fn opts_input(o: &mut ssri::IntegrityOpts, chunk: &[u8])
    ensures
        opts_fed(*final(o)) == opts_fed(*old(o)) + chunk@,
        opts_sha256(*final(o)) == opts_sha256(*old(o)),
{
    o.input(chunk)
}

/// Relies on `ssri::IntegrityOpts::result` and `ssri::Integrity::to_hex`:
/// for a sha-256 accumulator, the finished digest of everything fed,
/// converted to lowercase hex — 64 hex digits, since a sha-256 digest is
/// 32 bytes.
#[verifier::external_body]
fn opts_result_hex(o: ssri::IntegrityOpts) -> (r: String)
    requires
        opts_sha256(o),
    ensures
        r@ == sha256_hex(opts_fed(o)),
        r@.len() == 64,
        forall|i: int| 0 <= i < r@.len() ==> is_hex_digit(#[trigger] r@[i]),
{
    let (_algorithm, hex) = o.result().to_hex();
    hex
}

/// An incremental digest accumulator: accepts successive byte chunks and
/// yields a digest on finalization, so a stream need never be buffered
/// whole. The bytes fed so far are its ghost state.
pub struct Hasher {
    opts: ssri::IntegrityOpts,
    fed: Ghost<Seq<u8>>,
}

impl Hasher {
    /// The bytes this accumulator has been fed so far.
    pub closed spec fn bytes(&self) -> Seq<u8> {
        self.fed@
    }

    pub closed spec fn wf(&self) -> bool {
        opts_sha256(self.opts) && opts_fed(self.opts) == self.fed@
    }

    /// A fresh accumulator that has seen no bytes.
    pub fn new() -> (h: Hasher)
        ensures
            h.wf(),
            h.bytes() == Seq::<u8>::empty(),
    {
        Hasher { opts: opts_new_sha256(), fed: Ghost(Seq::empty()) }
    }

    /// Feeds one chunk of the stream to the accumulator.
    pub fn update(&mut self, chunk: &[u8])
        requires
            old(self).wf(),
        ensures
            final(self).wf(),
            final(self).bytes() == old(self).bytes() + chunk@,
    {
        let ghost fed_now = self.fed@ + chunk@;
        opts_input(&mut self.opts, chunk);
        self.fed = Ghost(fed_now);
    }

    /// Finishes the stream: the digest of everything fed, algorithm-tagged
    /// and well formed.
    pub fn finalize(self) -> (d: Digest)
        requires
            self.wf(),
        ensures
            d@ == sha256_view(self.bytes()),
            d.wf(),
    {
        let hex = opts_result_hex(self.opts);
        Digest { algorithm: HashAlgorithm::Sha256, hex }
    }
}

/// The digest of a byte sequence given whole, through the same
/// accumulator the streaming path uses.
pub fn digest_of(data: &[u8]) -> (d: Digest)
    ensures
        d@ == sha256_view(data@),
        d.wf(),
{
    let mut h = Hasher::new();
    h.update(data);
    proof {
        assert(h.bytes() =~= data@);
    }
    h.finalize()
}

/// Decides whether bytes on disk still match a digest: true exactly when
/// the digest is the one this crate's hashing assigns to the bytes. This
/// is the strict mode's re-verification, and the check a writer makes
/// against a caller-supplied expected digest.
pub fn verify_content(data: &[u8], d: &Digest) -> (r: bool)
    ensures
        r == (d@ == sha256_view(data@)),
{
    let computed = digest_of(data);
    *d == computed
}

} // verus!
