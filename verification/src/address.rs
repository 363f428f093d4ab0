use vstd::prelude::*;
use vstd::string::*;
use crate::digest::{Digest, DigestView, algo_name, algo_name_spec, is_hex_digit,
    lemma_algo_name_injective, wf_digest};

verus! {

/// The name of the shard-tree root directory under the cache root. The
/// version suffix is a design constant: changing the layout invalidates
/// every existing cache root.
pub open spec fn content_dir_spec() -> Seq<char> {
    "content-v2"@
}

/// Returns the shard-tree root directory name.
pub fn content_dir() -> (r: String)
    ensures
        r@ == content_dir_spec(),
{
    String::from_str("content-v2")
}

/// The name of the temporary-files directory under the cache root. A
/// writer's private file lives here, never inside the shard tree.
pub open spec fn tmp_dir_spec() -> Seq<char> {
    "tmp"@
}

/// Returns the temporary-files directory name.
pub fn tmp_dir() -> (r: String)
    ensures
        r@ == tmp_dir_spec(),
{
    String::from_str("tmp")
}

/// The addressed path of a digest, as its directory segments relative to
/// the cache root: the shard-tree root, the algorithm, two fixed-width
/// sharding prefixes of the hex encoding, and the remainder as file name.
/// Never stored, always recomputed; pure and total on well-formed digests.
pub open spec fn address_spec(d: DigestView) -> Seq<Seq<char>> {
    seq![
        content_dir_spec(),
        algo_name_spec(d.algorithm),
        d.hex.subrange(0, 2),
        d.hex.subrange(2, 4),
        d.hex.subrange(4, d.hex.len() as int),
    ]
}

/// The views of a sequence of owned segments.
pub open spec fn segment_views(v: Seq<String>) -> Seq<Seq<char>> {
    v.map_values(|s: String| s@)
}

/// Computes the addressed path of a digest, one directory segment per
/// element, deterministically and with no side effect.
pub fn address(d: &Digest) -> (segs: Vec<String>)
    requires
        d.wf(),
    ensures
        segment_views(segs@) == address_spec(d@),
{
    let s = d.hex.as_str();
    let n = s.unicode_len();
    let mut segs: Vec<String> = Vec::new();
    segs.push(content_dir());
    segs.push(algo_name(d.algorithm));
    segs.push(s.substring_char(0, 2).to_owned());
    segs.push(s.substring_char(2, 4).to_owned());
    segs.push(s.substring_char(4, n).to_owned());
    proof {
        assert(segment_views(segs@) =~= address_spec(d@));
    }
    segs
}

/// A hex string is the concatenation of its two sharding prefixes and its
/// remainder.
proof fn lemma_hex_recompose(h: Seq<char>)
    requires
        h.len() >= 5,
    ensures
        h == h.subrange(0, 2) + h.subrange(2, 4) + h.subrange(4, h.len() as int),
{
    assert(h =~= h.subrange(0, 2) + h.subrange(2, 4) + h.subrange(4, h.len() as int));
}

/// Law: addressing is deterministic and injective — two well-formed
/// digests share an addressed path exactly when they are the same digest.
pub proof fn lemma_address_injective(d1: DigestView, d2: DigestView)
    requires
        wf_digest(d1),
        wf_digest(d2),
    ensures
        address_spec(d1) == address_spec(d2) <==> d1 == d2,
{
    if address_spec(d1) == address_spec(d2) {
        assert(address_spec(d1)[1] == address_spec(d2)[1]);
        lemma_algo_name_injective(d1.algorithm, d2.algorithm);
        assert(address_spec(d1)[2] == address_spec(d2)[2]);
        assert(address_spec(d1)[3] == address_spec(d2)[3]);
        assert(address_spec(d1)[4] == address_spec(d2)[4]);
        assert(d1.hex.subrange(4, d1.hex.len() as int).len()
            == d2.hex.subrange(4, d2.hex.len() as int).len());
        lemma_hex_recompose(d1.hex);
        lemma_hex_recompose(d2.hex);
        assert(d1.hex == d2.hex);
        assert(d1 == d2);
    }
}

/// Law: every segment of an addressed path is non-empty and free of path
/// separators, so joining the segments into one on-disk path keeps
/// distinct addresses distinct.
pub proof fn lemma_address_segments_clean(d: DigestView)
    requires
        wf_digest(d),
    ensures
        forall|i: int| 0 <= i < address_spec(d).len()
            ==> (#[trigger] address_spec(d)[i]).len() > 0,
        forall|i: int, j: int|
            #![trigger address_spec(d)[i][j]]
            0 <= i < address_spec(d).len() && 0 <= j < address_spec(d)[i].len()
                ==> address_spec(d)[i][j] != '/',
{
    broadcast use vstd::string::group_string_axioms;

    reveal_strlit("content-v2");
    reveal_strlit("sha1");
    reveal_strlit("sha256");
    reveal_strlit("sha384");
    reveal_strlit("sha512");
    assert forall|j: int| 0 <= j < content_dir_spec().len() implies content_dir_spec()[j]
        != '/' by {
        assert(content_dir_spec().len() == 10);
    }
    let name = algo_name_spec(d.algorithm);
    assert forall|j: int| 0 <= j < name.len() implies name[j] != '/' by {
        assert(name.len() == 4 || name.len() == 6);
    }
    assert forall|j: int| 0 <= j < d.hex.len() implies d.hex[j] != '/' by {
        assert(is_hex_digit(d.hex[j]));
        assert('/' as u32 == 47);
    }
}

/// Law: an addressed path never lies in the temporary area — its first
/// segment is the shard-tree root, not the temporary directory.
pub proof fn lemma_address_outside_tmp(d: DigestView)
    ensures
        address_spec(d)[0] != tmp_dir_spec(),
{
    broadcast use vstd::string::group_string_axioms;

    reveal_strlit("content-v2");
    reveal_strlit("tmp");
    assert(content_dir_spec().len() != tmp_dir_spec().len());
}

} // verus!
