//! Content digests and their order.

use vstd::prelude::*;

verus! {

/// The number of bytes in a digest.
pub const DIGEST_LEN: usize = 32;

/// The number of bytes from which on SHA-256 is not defined here: the length
/// in bits has to fit in 64 bits.
pub const MAX_CONTENT_LEN: u64 = 0x2000_0000_0000_0000;

/// The SHA-256 fingerprint of a file's content: 32 bytes, which do not
/// change once the digest is made.
#[derive(Clone, Copy, Debug, Eq)]
pub struct Digest {
    bytes: [u8; 32],
}

impl View for Digest {
    type V = Seq<u8>;

    closed spec fn view(&self) -> Seq<u8> {
        self.bytes@
    }
}

impl PartialEq for Digest {
    /// Two digests are equal when they hold the same bytes.
    fn eq(&self, other: &Digest) -> (equal: bool) {
        self.same(other)
    }
}

impl vstd::std_specs::cmp::PartialEqSpecImpl for Digest {
    open spec fn obeys_eq_spec() -> bool {
        true
    }

    open spec fn eq_spec(&self, other: &Digest) -> bool {
        self@ == other@
    }
}

/// Every digest holds 32 bytes.
pub proof fn lemma_digest_length(digest: Digest)
    ensures
        digest@.len() == DIGEST_LEN,
{
}

/// `a` and `b` agree on their first `k` bytes.
pub open spec fn common_prefix(a: Seq<u8>, b: Seq<u8>, k: int) -> bool {
    &&& 0 <= k <= a.len()
    &&& k <= b.len()
    &&& forall|j: int| 0 <= j < k ==> a[j] == b[j]
}

/// `a` comes strictly before `b` in byte-lexicographic order: after a common
/// prefix either `a` ends and `b` goes on, or `a` holds the smaller byte.
pub open spec fn lex_lt(a: Seq<u8>, b: Seq<u8>) -> bool {
    exists|k: int| #[trigger]
        common_prefix(a, b, k) && k < b.len() && (k == a.len() || a[k] < b[k])
}

/// After a common prefix of length `k`, the bytes at `k` decide the order.
pub proof fn lemma_lex_decided_at(a: Seq<u8>, b: Seq<u8>, k: int)
    requires
        common_prefix(a, b, k),
        k < a.len(),
        k < b.len(),
        a[k] != b[k],
    ensures
        lex_lt(a, b) == (a[k] < b[k]),
        lex_lt(b, a) == (b[k] < a[k]),
{
    assert(common_prefix(b, a, k));
    if lex_lt(a, b) {
        let w = choose|w: int| #[trigger]
            common_prefix(a, b, w) && w < b.len() && (w == a.len() || a[w] < b[w]);
        assert(w == k);
    }
    if lex_lt(b, a) {
        let w = choose|w: int| #[trigger]
            common_prefix(b, a, w) && w < a.len() && (w == b.len() || b[w] < a[w]);
        assert(w == k);
    }
}

/// No sequence comes before itself.
pub proof fn lemma_lex_irreflexive(a: Seq<u8>)
    ensures
        !lex_lt(a, a),
{
}

/// The order is transitive.
pub proof fn lemma_lex_transitive(a: Seq<u8>, b: Seq<u8>, c: Seq<u8>)
    requires
        lex_lt(a, b),
        lex_lt(b, c),
    ensures
        lex_lt(a, c),
{
    let k1 = choose|k: int| #[trigger]
        common_prefix(a, b, k) && k < b.len() && (k == a.len() || a[k] < b[k]);
    let k2 = choose|k: int| #[trigger]
        common_prefix(b, c, k) && k < c.len() && (k == b.len() || b[k] < c[k]);
    let k = if k1 <= k2 {
        k1
    } else {
        k2
    };
    assert(common_prefix(a, c, k));
}

/// The order is total: of two different sequences one comes before the other.
pub proof fn lemma_lex_total(a: Seq<u8>, b: Seq<u8>)
    ensures
        lex_lt(a, b) || a == b || lex_lt(b, a),
{
    lemma_lex_total_from(a, b, 0);
}

proof fn lemma_lex_total_from(a: Seq<u8>, b: Seq<u8>, k: int)
    requires
        common_prefix(a, b, k),
    ensures
        lex_lt(a, b) || a == b || lex_lt(b, a),
    decreases a.len() - k,
{
    assert(common_prefix(b, a, k));
    if k == a.len() {
        if k == b.len() {
            assert(a =~= b);
        }
    } else if k == b.len() {
    } else if a[k] != b[k] {
        lemma_lex_decided_at(a, b, k);
    } else {
        assert(common_prefix(a, b, k + 1));
        lemma_lex_total_from(a, b, k + 1);
    }
}

/// At most one of "before", "equal" and "after" holds.
pub proof fn lemma_lex_asymmetric(a: Seq<u8>, b: Seq<u8>)
    requires
        lex_lt(a, b),
    ensures
        !lex_lt(b, a),
        a != b,
{
    if lex_lt(b, a) {
        lemma_lex_transitive(a, b, a);
    }
}

/// The SHA-256 digest of `data`: the 32 bytes that `ring` computes for it.
pub uninterp spec fn sha256(data: Seq<u8>) -> Seq<u8>;

/// The sixteen lowercase hexadecimal digits, in order of value.
pub open spec fn hex_digits() -> Seq<char> {
    seq!['0', '1', '2', '3', '4', '5', '6', '7', '8', '9', 'a', 'b', 'c', 'd', 'e', 'f']
}

/// The lowercase hexadecimal rendering of `data`: two digits for each byte,
/// the high four bits first.
pub open spec fn hex_lower(data: Seq<u8>) -> Seq<char> {
    Seq::new(
        (2 * data.len()) as nat,
        |i: int|
            if i % 2 == 0 {
                hex_digits()[data[i / 2] as int / 16]
            } else {
                hex_digits()[data[i / 2] as int % 16]
            },
    )
}

/// Calls `ring::digest::digest` with the algorithm `ring::digest::SHA256`.
///
/// Trusted: the result is a function of the bytes alone, named [`sha256`], and
/// is 32 bytes long. `ring` panics when the length of the input in bits does
/// not fit in 64 bits; such input is left out.
#[verifier::external_body]
fn sha256_digest(data: &[u8]) -> (digest: Digest)
    requires
        data@.len() < MAX_CONTENT_LEN,
    ensures
        digest@ == sha256(data@),
{
    let computed = ring::digest::digest(&ring::digest::SHA256, data);
    let mut bytes = [0u8; 32];
    bytes.copy_from_slice(computed.as_ref());
    Digest { bytes }
}

/// Calls `hex::encode`.
///
/// Trusted: the result holds two lowercase hexadecimal digits for each byte of
/// the input, in the order of the bytes and the high half of each byte first.
#[verifier::external_body]
fn hex_encode(data: &[u8]) -> (text: String)
    ensures
        text@ == hex_lower(data@),
{
    hex::encode(data)
}

impl Digest {
    /// The digest that holds the given bytes.
    pub fn new(bytes: [u8; 32]) -> (digest: Digest)
        ensures
            digest@ == bytes@,
    {
        Digest { bytes }
    }

    /// The bytes of this digest.
    pub fn bytes(&self) -> (bytes: [u8; 32])
        ensures
            bytes@ == self@,
    {
        self.bytes
    }

    /// The SHA-256 digest of `content`.
    pub fn of(content: &[u8]) -> (digest: Digest)
        requires
            content@.len() < MAX_CONTENT_LEN,
        ensures
            digest@ == sha256(content@),
            digest@.len() == DIGEST_LEN,
    {
        sha256_digest(content)
    }

    /// This digest as lowercase hexadecimal text, 64 digits long.
    pub fn to_hex(&self) -> (text: String)
        ensures
            text@ == hex_lower(self@),
    {
        hex_encode(self.bytes.as_slice())
    }

    /// Whether this digest comes strictly before `other` in byte order.
    pub fn precedes(&self, other: &Digest) -> (before: bool)
        ensures
            before == lex_lt(self@, other@),
    {
        let mut i: usize = 0;
        while i < DIGEST_LEN
            invariant
                i <= DIGEST_LEN,
                common_prefix(self@, other@, i as int),
            decreases DIGEST_LEN - i,
        {
            if self.bytes[i] != other.bytes[i] {
                proof {
                    lemma_lex_decided_at(self@, other@, i as int);
                }
                return self.bytes[i] < other.bytes[i];
            }
            i += 1;
        }
        proof {
            assert(self@ =~= other@);
        }
        false
    }

    /// Whether this digest holds the same bytes as `other`.
    pub fn same(&self, other: &Digest) -> (equal: bool)
        ensures
            equal == (self@ == other@),
    {
        let mut i: usize = 0;
        while i < DIGEST_LEN
            invariant
                i <= DIGEST_LEN,
                common_prefix(self@, other@, i as int),
            decreases DIGEST_LEN - i,
        {
            if self.bytes[i] != other.bytes[i] {
                return false;
            }
            i += 1;
        }
        proof {
            assert(self@ =~= other@);
        }
        true
    }
}

} // verus!
