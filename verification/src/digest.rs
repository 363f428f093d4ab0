use vstd::prelude::*;
use vstd::string::*;

verus! {

/// The hash algorithms a digest may be tagged with. Only `Sha256` digests
/// are produced by this crate's own hashing; the other tags let foreign
/// digests be addressed and removed.
#[derive(Clone, Copy, Debug, PartialEq, Eq, Structural)]
pub enum HashAlgorithm {
    Sha1,
    Sha256,
    Sha384,
    Sha512,
}

/// The mathematical value of a digest: an algorithm tag together with the
/// characters of the lowercase hex encoding of the raw digest bytes.
pub struct DigestView {
    pub algorithm: HashAlgorithm,
    pub hex: Seq<char>,
}

/// One lowercase hexadecimal digit (`0`-`9` or `a`-`f`).
pub open spec fn is_hex_digit(c: char) -> bool {
    (48 <= c as u32 && c as u32 <= 57) || (97 <= c as u32 && c as u32 <= 102)
}

/// A well-formed digest value: enough hex digits to split into the two
/// directory-sharding prefixes plus a non-empty file name, every character
/// a lowercase hex digit. Every real digest is far longer (sha-256 encodes
/// to 64 digits), but addressing only needs this much.
pub open spec fn wf_digest(d: DigestView) -> bool {
    &&& d.hex.len() >= 5
    &&& forall|i: int| 0 <= i < d.hex.len() ==> is_hex_digit(#[trigger] d.hex[i])
}

/// An integrity digest: the sole identity of stored content. Immutable once
/// computed; two digests are equal exactly when their algorithm tag and hex
/// encoding match.
#[derive(Debug)]
pub struct Digest {
    pub algorithm: HashAlgorithm,
    pub hex: String,
}

impl View for Digest {
    type V = DigestView;

    open spec fn view(&self) -> DigestView {
        DigestView { algorithm: self.algorithm, hex: self.hex@ }
    }
}

impl Digest {
    pub open spec fn wf(&self) -> bool {
        wf_digest(self@)
    }

    /// Builds a digest from an algorithm tag and a hex encoding, accepting
    /// exactly the well-formed values.
    pub fn new(algorithm: HashAlgorithm, hex: String) -> (r: Option<Digest>)
        ensures
            match r {
                Some(d) => d@ == (DigestView { algorithm, hex: hex@ }) && d.wf(),
                None => !wf_digest(DigestView { algorithm, hex: hex@ }),
            },
    {
        let s = hex.as_str();
        let n = s.unicode_len();
        if n < 5 {
            return None;
        }
        let mut i: usize = 0;
        while i < n
            invariant
                0 <= i <= n,
                n == hex@.len(),
                s@ == hex@,
                forall|j: int| 0 <= j < i ==> is_hex_digit(#[trigger] hex@[j]),
            decreases n - i,
        {
            let c = s.get_char(i);
            let u = c as u32;
            if !((48 <= u && u <= 57) || (97 <= u && u <= 102)) {
                return None;
            }
            i = i + 1;
        }
        Some(Digest { algorithm, hex })
    }
}

impl Clone for Digest {
    fn clone(&self) -> (r: Digest)
        ensures
            r == *self,
    {
        Digest { algorithm: self.algorithm, hex: self.hex.clone() }
    }
}

impl PartialEq for Digest {
    fn eq(&self, other: &Digest) -> (r: bool) {
        self.algorithm == other.algorithm && self.hex == other.hex
    }
}

impl vstd::std_specs::cmp::PartialEqSpecImpl for Digest {
    open spec fn obeys_eq_spec() -> bool {
        true
    }

    open spec fn eq_spec(&self, other: &Digest) -> bool {
        self@ == other@
    }
}

/// The directory-segment name of an algorithm tag.
pub open spec fn algo_name_spec(a: HashAlgorithm) -> Seq<char> {
    match a {
        HashAlgorithm::Sha1 => "sha1"@,
        HashAlgorithm::Sha256 => "sha256"@,
        HashAlgorithm::Sha384 => "sha384"@,
        HashAlgorithm::Sha512 => "sha512"@,
    }
}

/// Returns the directory-segment name of an algorithm tag.
pub fn algo_name(a: HashAlgorithm) -> (r: String)
    ensures
        r@ == algo_name_spec(a),
{
    match a {
        HashAlgorithm::Sha1 => String::from_str("sha1"),
        HashAlgorithm::Sha256 => String::from_str("sha256"),
        HashAlgorithm::Sha384 => String::from_str("sha384"),
        HashAlgorithm::Sha512 => String::from_str("sha512"),
    }
}

/// Distinct algorithm tags have distinct directory-segment names.
pub proof fn lemma_algo_name_injective(a1: HashAlgorithm, a2: HashAlgorithm)
    requires
        algo_name_spec(a1) == algo_name_spec(a2),
    ensures
        a1 == a2,
{
    broadcast use vstd::string::group_string_axioms;

    reveal_strlit("sha1");
    reveal_strlit("sha256");
    reveal_strlit("sha384");
    reveal_strlit("sha512");
    if a1 != a2 {
        assert(algo_name_spec(a1).len() == algo_name_spec(a2).len());
        assert("sha1"@.len() == 4);
        assert("sha256"@.len() == 6);
        assert("sha384"@.len() == 6);
        assert("sha512"@.len() == 6);
        assert("sha256"@[3] == '2');
        assert("sha384"@[3] == '3');
        assert("sha512"@[3] == '5');
        assert(algo_name_spec(a1)[3] == algo_name_spec(a2)[3]);
        assert(false);
    }
}

} // verus!
