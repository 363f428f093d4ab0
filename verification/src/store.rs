use vstd::prelude::*;
use crate::digest::{Digest, DigestView, wf_digest};
use crate::errors::Error;
use crate::hashing::{digest_of, sha256_view};

verus! {

/// The entries of a store, newest insertion last.
pub struct ContentStore {
    entries: Vec<(Digest, Vec<u8>)>,
}

/// The mapping a sequence of entries denotes, later entries winning.
spec fn map_of(s: Seq<(Digest, Vec<u8>)>) -> Map<DigestView, Seq<u8>>
    decreases s.len(),
{
    if s.len() == 0 {
        Map::empty()
    } else {
        map_of(s.drop_last()).insert(s.last().0@, s.last().1@)
    }
}

/// No two entries carry the same digest.
spec fn distinct_keys(s: Seq<(Digest, Vec<u8>)>) -> bool {
    forall|i: int, j: int| 0 <= i < j < s.len() ==> s[i].0@ != s[j].0@
}

/// Every entry is digest-consistent and well formed: its digest is the one
/// this crate's hashing assigns to its content.
spec fn entries_consistent(s: Seq<(Digest, Vec<u8>)>) -> bool {
    forall|i: int| 0 <= i < s.len()
        ==> (#[trigger] s[i].0)@ == sha256_view(s[i].1@) && wf_digest(s[i].0@)
}

/// A key is in the mapping exactly when some entry carries it.
proof fn lemma_map_of_contains(s: Seq<(Digest, Vec<u8>)>, k: DigestView)
    ensures
        map_of(s).contains_key(k) <==> exists|i: int| 0 <= i < s.len() && (#[trigger] s[i].0)@ == k,
    decreases s.len(),
{
    if s.len() > 0 {
        lemma_map_of_contains(s.drop_last(), k);
        if s.last().0@ == k {
            assert(s[s.len() - 1].0@ == k);
        } else if map_of(s).contains_key(k) {
            let i = choose|i: int| 0 <= i < s.drop_last().len() && (#[trigger] s.drop_last()[i].0)@ == k;
            assert(s[i].0@ == k);
        } else {
            assert(forall|i: int| 0 <= i < s.drop_last().len()
                ==> (#[trigger] s.drop_last()[i].0)@ != k);
            assert(forall|i: int| 0 <= i < s.len() - 1 ==> (#[trigger] s[i].0)@ != k) by {
                assert(forall|i: int| 0 <= i < s.len() - 1
                    ==> #[trigger] s[i] == s.drop_last()[i]);
            }
        }
    }
}

/// The mapping sends an entry's digest to that entry's content.
proof fn lemma_map_of_index(s: Seq<(Digest, Vec<u8>)>, i: int)
    requires
        distinct_keys(s),
        0 <= i < s.len(),
    ensures
        map_of(s).contains_key(s[i].0@),
        map_of(s)[s[i].0@] == s[i].1@,
    decreases s.len(),
{
    lemma_map_of_contains(s, s[i].0@);
    if i == s.len() - 1 {
    } else {
        assert(s.drop_last()[i] == s[i]);
        lemma_map_of_index(s.drop_last(), i);
        assert(s[i].0@ != s.last().0@);
    }
}

/// Appending an entry inserts its pair into the mapping.
proof fn lemma_map_of_push(s: Seq<(Digest, Vec<u8>)>, p: (Digest, Vec<u8>))
    ensures
        map_of(s.push(p)) == map_of(s).insert(p.0@, p.1@),
{
    assert(s.push(p).drop_last() =~= s);
    assert(s.push(p).last() == p);
}

/// Removing the entry that carries a digest removes its pair from the
/// mapping.
proof fn lemma_map_of_remove(s: Seq<(Digest, Vec<u8>)>, i: int)
    requires
        distinct_keys(s),
        0 <= i < s.len(),
    ensures
        map_of(s.remove(i)) == map_of(s).remove(s[i].0@),
    decreases s.len(),
{
    let k = s[i].0@;
    if i == s.len() - 1 {
        assert(s.remove(i) =~= s.drop_last());
        lemma_map_of_contains(s.drop_last(), k);
        assert(forall|j: int| 0 <= j < s.drop_last().len()
            ==> (#[trigger] s.drop_last()[j].0)@ != k) by {
            assert(forall|j: int| 0 <= j < s.len() - 1
                ==> #[trigger] s.drop_last()[j] == s[j]);
        }
        assert(!map_of(s.drop_last()).contains_key(k));
        assert(map_of(s.drop_last()).insert(k, s.last().1@).remove(k) =~= map_of(s.drop_last()));
    } else {
        assert(s.remove(i).drop_last() =~= s.drop_last().remove(i));
        assert(s.remove(i).last() == s.last());
        assert(forall|x: int, y: int| 0 <= x < y < s.drop_last().len()
            ==> (#[trigger] s.drop_last()[x].0)@ != (#[trigger] s.drop_last()[y].0)@) by {
            assert(forall|j: int| 0 <= j < s.len() - 1
                ==> #[trigger] s.drop_last()[j] == s[j]);
        }
        assert(s.drop_last()[i] == s[i]);
        lemma_map_of_remove(s.drop_last(), i);
        assert(s.last().0@ != k);
        assert(map_of(s.drop_last()).remove(k).insert(s.last().0@, s.last().1@)
            =~= map_of(s.drop_last()).insert(s.last().0@, s.last().1@).remove(k));
    }
}

/// The mapping has as many keys as the store has entries.
proof fn lemma_map_of_len(s: Seq<(Digest, Vec<u8>)>)
    requires
        distinct_keys(s),
    ensures
        map_of(s).dom().len() == s.len(),
        map_of(s).dom().finite(),
    decreases s.len(),
{
    broadcast use vstd::set::group_set_axioms;

    if s.len() == 0 {
        assert(map_of(s).dom() =~= Set::<DigestView>::empty());
    } else {
        assert(forall|x: int, y: int| 0 <= x < y < s.drop_last().len()
            ==> (#[trigger] s.drop_last()[x].0)@ != (#[trigger] s.drop_last()[y].0)@) by {
            assert(forall|j: int| 0 <= j < s.len() - 1
                ==> #[trigger] s.drop_last()[j] == s[j]);
        }
        lemma_map_of_len(s.drop_last());
        lemma_map_of_contains(s.drop_last(), s.last().0@);
        assert(forall|j: int| 0 <= j < s.drop_last().len()
            ==> (#[trigger] s.drop_last()[j].0)@ != s.last().0@) by {
            assert(forall|j: int| 0 <= j < s.len() - 1
                ==> #[trigger] s.drop_last()[j] == s[j]);
            assert(forall|j: int| 0 <= j < s.len() - 1 ==> (#[trigger] s[j].0)@ != s.last().0@);
        }
        assert(!map_of(s.drop_last()).contains_key(s.last().0@));
        assert(map_of(s).dom() =~= map_of(s.drop_last()).dom().insert(s.last().0@));
    }
}

impl View for ContentStore {
    type V = Map<DigestView, Seq<u8>>;

    closed spec fn view(&self) -> Map<DigestView, Seq<u8>> {
        map_of(self.entries@)
    }
}

impl ContentStore {
    /// The store's internal invariant: one entry per digest, each entry
    /// digest-consistent.
    pub closed spec fn inv(&self) -> bool {
        distinct_keys(self.entries@) && entries_consistent(self.entries@)
    }

    /// An empty store: nothing is present at any digest.
    pub fn new() -> (s: ContentStore)
        ensures
            s.inv(),
            s@ == Map::<DigestView, Seq<u8>>::empty(),
    {
        ContentStore { entries: Vec::new() }
    }

    /// The position of the entry carrying a digest, if one is present.
    fn find(&self, d: &Digest) -> (r: Option<usize>)
        ensures
            match r {
                Some(i) => i < self.entries@.len() && self.entries@[i as int].0@ == d@,
                None => !self@.contains_key(d@),
            },
    {
        proof {
            lemma_map_of_contains(self.entries@, d@);
        }
        let n = self.entries.len();
        let mut i: usize = 0;
        while i < n
            invariant
                0 <= i <= n,
                n == self.entries@.len(),
                forall|j: int| 0 <= j < i ==> (#[trigger] self.entries@[j].0)@ != d@,
            decreases n - i,
        {
            if self.entries[i].0 == *d {
                return Some(i);
            }
            i = i + 1;
        }
        None
    }

    /// Whether content is present at a digest.
    pub fn contains(&self, d: &Digest) -> (r: bool)
        ensures
            r == self@.contains_key(d@),
    {
        proof {
            lemma_map_of_contains(self.entries@, d@);
        }
        match self.find(d) {
            Some(_) => true,
            None => false,
        }
    }

    /// How many digests have content present.
    pub fn len(&self) -> (n: usize)
        requires
            self.inv(),
        ensures
            n == self@.dom().len(),
    {
        proof {
            lemma_map_of_len(self.entries@);
        }
        self.entries.len()
    }

    /// Publishes verified content at its digest, replacing whatever stood
    /// there — identical digest means identical content, so the
    /// replacement is a no-op in effect and deduplicates.
    fn publish(&mut self, d: Digest, data: &[u8])
        requires
            old(self).inv(),
            d@ == sha256_view(data@),
            d.wf(),
        ensures
            final(self).inv(),
            final(self)@ == old(self)@.insert(d@, data@),
    {
        let ghost k = d@;
        let ghost s0 = self.entries@;
        let content = vstd::slice::slice_to_vec(data);
        match self.find(&d) {
            Some(i) => {
                proof {
                    lemma_map_of_remove(s0, i as int);
                }
                self.entries.remove(i);
                let ghost s1 = self.entries@;
                proof {
                    assert(forall|x: int| 0 <= x < s1.len() ==> (#[trigger] s1[x].0)@ != k) by {
                        assert(forall|x: int| 0 <= x < s1.len()
                            ==> #[trigger] s1[x] == if x < i as int { s0[x] } else { s0[x + 1] });
                    }
                    assert(distinct_keys(s1)) by {
                        assert(forall|x: int| 0 <= x < s1.len()
                            ==> #[trigger] s1[x] == if x < i as int { s0[x] } else { s0[x + 1] });
                    }
                    assert(entries_consistent(s1)) by {
                        assert(forall|x: int| 0 <= x < s1.len()
                            ==> #[trigger] s1[x] == if x < i as int { s0[x] } else { s0[x + 1] });
                    }
                    lemma_map_of_push(s1, (d, content));
                }
                self.entries.push((d, content));
                proof {
                    assert(map_of(s0).remove(k).insert(k, data@) =~= map_of(s0).insert(k, data@));
                }
            },
            None => {
                proof {
                    lemma_map_of_contains(s0, k);
                    lemma_map_of_push(s0, (d, content));
                    assert(forall|x: int| 0 <= x < s0.len() ==> (#[trigger] s0[x].0)@ != k);
                }
                self.entries.push((d, content));
            },
        }
    }

    /// The atomic write-and-verify protocol, on content given whole: digest
    /// the bytes, fail with `IntegrityMismatch` when a supplied expected
    /// digest disagrees (leaving the store untouched), and otherwise
    /// publish the content at the computed digest, which becomes
    /// authoritative and is returned.
    pub fn write(&mut self, expected: Option<&Digest>, data: &[u8]) -> (r: Result<Digest, Error>)
        requires
            old(self).inv(),
        ensures
            final(self).inv(),
            r is Ok <==> (expected matches Some(e) ==> e@ == sha256_view(data@)),
            match r {
                Ok(d) => {
                    &&& d@ == sha256_view(data@)
                    &&& d.wf()
                    &&& final(self)@ == old(self)@.insert(sha256_view(data@), data@)
                },
                Err(err) => {
                    &&& err == Error::IntegrityMismatch
                    &&& final(self)@ == old(self)@
                },
            },
    {
        let d = digest_of(data);
        if let Some(e) = expected {
            if !(*e == d) {
                return Err(Error::IntegrityMismatch);
            }
        }
        let out = d.clone();
        self.publish(d, data);
        Ok(out)
    }

    /// Reads the content present at a digest, or fails with `NotFound`
    /// exactly when nothing is present there.
    pub fn read(&self, d: &Digest) -> (r: Result<Vec<u8>, Error>)
        requires
            self.inv(),
        ensures
            match r {
                Ok(v) => self@.contains_key(d@) && v@ == self@[d@],
                Err(err) => err == Error::NotFound && !self@.contains_key(d@),
            },
    {
        match self.find(d) {
            Some(i) => {
                proof {
                    lemma_map_of_index(self.entries@, i as int);
                }
                Ok(vstd::slice::slice_to_vec(self.entries[i].1.as_slice()))
            },
            None => Err(Error::NotFound),
        }
    }

    /// Removes the content at a digest. Absence is not an error: removal
    /// of something already gone is a successful no-op, so the operation
    /// is idempotent and always succeeds here.
    pub fn remove(&mut self, d: &Digest) -> (r: Result<(), Error>)
        requires
            old(self).inv(),
        ensures
            final(self).inv(),
            r is Ok,
            final(self)@ == old(self)@.remove(d@),
    {
        let ghost s0 = self.entries@;
        match self.find(d) {
            Some(i) => {
                proof {
                    lemma_map_of_remove(s0, i as int);
                }
                self.entries.remove(i);
                proof {
                    let s1 = self.entries@;
                    assert(distinct_keys(s1) && entries_consistent(s1)) by {
                        assert(forall|x: int| 0 <= x < s1.len()
                            ==> #[trigger] s1[x] == if x < i as int { s0[x] } else { s0[x + 1] });
                    }
                }
                Ok(())
            },
            None => {
                proof {
                    assert(self@.remove(d@) =~= self@);
                }
                Ok(())
            },
        }
    }
}

/// Law: a store only ever exposes digest-consistent content — what is
/// present at a digest is content whose digest it is. External tampering
/// is the only way to corruption, and it lies outside the store's own
/// transitions.
pub proof fn lemma_store_digest_consistent(s: &ContentStore, d: DigestView)
    requires
        s.inv(),
        s@.contains_key(d),
    ensures
        d == sha256_view(s@[d]),
{
    lemma_map_of_contains(s.entries@, d);
    let i = choose|i: int| 0 <= i < s.entries@.len() && (#[trigger] s.entries@[i].0)@ == d;
    lemma_map_of_index(s.entries@, i);
}

/// Law: round trip — writing a byte sequence and then reading at the
/// digest the write returned reproduces those bytes exactly.
pub proof fn lemma_write_read_round_trip(m: Map<DigestView, Seq<u8>>, b: Seq<u8>)
    ensures
        m.insert(sha256_view(b), b).contains_key(sha256_view(b)),
        m.insert(sha256_view(b), b)[sha256_view(b)] == b,
{
}

/// Law: dedup — writing identical content twice yields the same digest
/// and a single observable entry: the second write leaves the store
/// exactly as the first left it.
pub proof fn lemma_write_idempotent(m: Map<DigestView, Seq<u8>>, b: Seq<u8>)
    ensures
        m.insert(sha256_view(b), b).insert(sha256_view(b), b) == m.insert(sha256_view(b), b),
{
    assert(m.insert(sha256_view(b), b).insert(sha256_view(b), b) =~= m.insert(sha256_view(b), b));
}

/// Law: removal is idempotent — removing a just-removed digest changes
/// nothing further, and nothing is present at the digest afterwards.
pub proof fn lemma_remove_idempotent(m: Map<DigestView, Seq<u8>>, d: DigestView)
    ensures
        m.remove(d).remove(d) == m.remove(d),
        !m.remove(d).contains_key(d),
{
    assert(m.remove(d).remove(d) =~= m.remove(d));
}

} // verus!
