//! The ordered registry of the digests seen so far.

use crate::digest::{
    lemma_lex_asymmetric, lemma_lex_irreflexive, lemma_lex_total, lemma_lex_transitive, lex_lt,
    Digest,
};
use vstd::prelude::*;

verus! {

/// Every element comes strictly before all later ones. A sequence in this
/// order holds no element twice.
pub open spec fn strictly_ascending(s: Seq<Seq<u8>>) -> bool {
    forall|i: int, j: int| 0 <= i < j < s.len() ==> lex_lt(#[trigger] s[i], #[trigger] s[j])
}

/// `i` is where `d` has to go into `s` to keep it in order: all that stands
/// before `i` comes before `d`, and `d` comes before all that stands from `i` on.
pub open spec fn insertion_point(s: Seq<Seq<u8>>, d: Seq<u8>, i: int) -> bool {
    &&& 0 <= i <= s.len()
    &&& forall|j: int| 0 <= j < i ==> lex_lt(#[trigger] s[j], d)
    &&& forall|j: int| i <= j < s.len() ==> lex_lt(d, #[trigger] s[j])
}

/// The insertion point of `d` in `s`, where there is one.
pub open spec fn insertion_index(s: Seq<Seq<u8>>, d: Seq<u8>) -> int {
    choose|i: int| insertion_point(s, d, i)
}

/// The registry `s` after `d` was offered to it: unchanged if it holds `d`,
/// else with `d` at its insertion point.
pub open spec fn with_digest(s: Seq<Seq<u8>>, d: Seq<u8>) -> Seq<Seq<u8>> {
    if s.contains(d) {
        s
    } else {
        s.insert(insertion_index(s, d), d)
    }
}

/// The registry after the digests of `seen` were offered to an empty one, in
/// their order.
pub open spec fn registered(seen: Seq<Seq<u8>>) -> Seq<Seq<u8>>
    decreases seen.len(),
{
    if seen.len() == 0 {
        Seq::empty()
    } else {
        with_digest(registered(seen.drop_last()), seen.last())
    }
}

/// No two places of `s` hold the same element.
pub open spec fn pairwise_distinct(s: Seq<Seq<u8>>) -> bool {
    forall|i: int, j: int| 0 <= i < j < s.len() ==> #[trigger] s[i] != #[trigger] s[j]
}

/// A sequence has at most one insertion point for a digest, and none for a
/// digest that it holds.
pub proof fn lemma_insertion_point_unique(s: Seq<Seq<u8>>, d: Seq<u8>, i: int, j: int)
    requires
        insertion_point(s, d, i),
        insertion_point(s, d, j),
    ensures
        i == j,
        !s.contains(d),
{
    if i < j {
        lemma_lex_asymmetric(s[i], d);
    }
    if j < i {
        lemma_lex_asymmetric(s[j], d);
    }
    if s.contains(d) {
        let k = choose|k: int| 0 <= k < s.len() && s[k] == d;
        lemma_lex_irreflexive(d);
        if k < i {
            assert(lex_lt(s[k], d));
        } else {
            assert(lex_lt(d, s[k]));
        }
    }
}

/// An ordered sequence has an insertion point for every digest that it does
/// not hold.
pub proof fn lemma_insertion_point_exists(s: Seq<Seq<u8>>, d: Seq<u8>)
    requires
        strictly_ascending(s),
        !s.contains(d),
    ensures
        insertion_point(s, d, insertion_index(s, d)),
    decreases s.len(),
{
    if s.len() == 0 {
        assert(insertion_point(s, d, 0));
    } else {
        let t = s.drop_last();
        assert forall|k: int| 0 <= k < t.len() implies t[k] != d by {
            assert(s[k] == t[k]);
        }
        assert(!t.contains(d));
        assert(strictly_ascending(t));
        lemma_insertion_point_exists(t, d);
        let i = insertion_index(t, d);
        lemma_lex_total(s.last(), d);
        assert(s.last() != d);
        if lex_lt(s.last(), d) {
            assert forall|j: int| 0 <= j < s.len() implies lex_lt(#[trigger] s[j], d) by {
                if j < s.len() - 1 {
                    lemma_lex_transitive(s[j], s.last(), d);
                }
            }
            assert(insertion_point(s, d, s.len() as int));
        } else {
            assert forall|j: int| i <= j < s.len() implies lex_lt(d, #[trigger] s[j]) by {
                if j < s.len() - 1 {
                    assert(s[j] == t[j]);
                }
            }
            assert forall|j: int| 0 <= j < i implies lex_lt(#[trigger] s[j], d) by {
                assert(s[j] == t[j]);
            }
            assert(insertion_point(s, d, i));
        }
    }
}

/// Putting a digest at its insertion point keeps the order.
pub proof fn lemma_insert_keeps_order(s: Seq<Seq<u8>>, d: Seq<u8>, i: int)
    requires
        strictly_ascending(s),
        insertion_point(s, d, i),
    ensures
        strictly_ascending(s.insert(i, d)),
{
    let t = s.insert(i, d);
    assert forall|a: int, b: int| 0 <= a < b < t.len() implies lex_lt(
        #[trigger] t[a],
        #[trigger] t[b],
    ) by {
        if b < i {
            assert(t[a] == s[a] && t[b] == s[b]);
        } else if b == i {
            assert(t[a] == s[a]);
        } else if a < i {
            assert(t[a] == s[a] && t[b] == s[b - 1]);
            if a < b - 1 {
            } else {
                lemma_lex_transitive(s[a], d, s[b - 1]);
            }
        } else if a == i {
            assert(t[b] == s[b - 1]);
        } else {
            assert(t[a] == s[a - 1] && t[b] == s[b - 1]);
        }
    }
}

/// Offering a digest to an ordered registry leaves it ordered, adds the
/// digest if it was not there, and neither drops nor adds anything else.
pub proof fn lemma_with_digest(s: Seq<Seq<u8>>, d: Seq<u8>)
    requires
        strictly_ascending(s),
    ensures
        strictly_ascending(with_digest(s, d)),
        forall|x: Seq<u8>| with_digest(s, d).contains(x) <==> (s.contains(x) || x == d),
        with_digest(s, d).len() == if s.contains(d) {
            s.len()
        } else {
            s.len() + 1
        },
{
    let r = with_digest(s, d);
    if s.contains(d) {
    } else {
        lemma_insertion_point_exists(s, d);
        let i = insertion_index(s, d);
        lemma_insert_keeps_order(s, d, i);
        assert forall|x: Seq<u8>| r.contains(x) <==> (s.contains(x) || x == d) by {
            if r.contains(x) {
                let k = choose|k: int| 0 <= k < r.len() && r[k] == x;
                if k < i {
                    assert(s[k] == x);
                } else if k > i {
                    assert(s[k - 1] == x);
                }
            }
            if s.contains(x) {
                let k = choose|k: int| 0 <= k < s.len() && s[k] == x;
                if k < i {
                    assert(r[k] == x);
                } else {
                    assert(r[k + 1] == x);
                }
            }
            if x == d {
                assert(r[i] == d);
            }
        }
    }
}

/// After any sequence of digests was offered to an empty registry, the
/// registry is in strictly ascending order, so that it holds no digest
/// twice, and it holds exactly the digests that were offered.
pub proof fn lemma_registered_is_ordered(seen: Seq<Seq<u8>>)
    ensures
        strictly_ascending(registered(seen)),
        forall|x: Seq<u8>| registered(seen).contains(x) <==> seen.contains(x),
        registered(seen).len() <= seen.len(),
    decreases seen.len(),
{
    if seen.len() == 0 {
    } else {
        let before = seen.drop_last();
        lemma_registered_is_ordered(before);
        lemma_with_digest(registered(before), seen.last());
        assert forall|x: Seq<u8>| registered(seen).contains(x) <==> seen.contains(x) by {
            if seen.contains(x) {
                let k = choose|k: int| 0 <= k < seen.len() && seen[k] == x;
                if k < seen.len() - 1 {
                    assert(before[k] == x);
                }
            }
            if before.contains(x) {
                let k = choose|k: int| 0 <= k < before.len() && before[k] == x;
                assert(seen[k] == x);
            }
            assert(seen[seen.len() - 1] == seen.last());
        }
    }
}

/// Where all the digests offered differ from each other, the registry holds
/// as many digests as were offered.
pub proof fn lemma_registered_counts_distinct(seen: Seq<Seq<u8>>)
    requires
        pairwise_distinct(seen),
    ensures
        registered(seen).len() == seen.len(),
    decreases seen.len(),
{
    if seen.len() == 0 {
    } else {
        let before = seen.drop_last();
        assert(pairwise_distinct(before)) by {
            assert forall|i: int, j: int| 0 <= i < j < before.len() implies #[trigger] before[i]
                != #[trigger] before[j] by {
                assert(before[i] == seen[i] && before[j] == seen[j]);
            }
        }
        lemma_registered_counts_distinct(before);
        lemma_registered_is_ordered(before);
        lemma_with_digest(registered(before), seen.last());
        if before.contains(seen.last()) {
            let k = choose|k: int| 0 <= k < before.len() && before[k] == seen.last();
            assert(seen[k] == seen[seen.len() - 1]);
        }
    }
}

/// Where a digest stands in a registry, or where it would have to go.
#[derive(Clone, Copy, Debug, PartialEq, Eq, Structural)]
pub enum Location {
    /// The registry holds the digest at this position.
    Found(usize),
    /// The registry does not hold the digest; this is its insertion point.
    NotFound(usize),
}

/// The digests of the contents seen so far in a run, in strictly ascending
/// byte order.
#[derive(Debug)]
pub struct HashRegistry {
    digests: Vec<Digest>,
}

impl View for HashRegistry {
    type V = Seq<Seq<u8>>;

    closed spec fn view(&self) -> Seq<Seq<u8>> {
        views(self.digests@)
    }
}

/// The byte sequences that the digests of `digests` hold, in their order.
spec fn views(digests: Seq<Digest>) -> Seq<Seq<u8>> {
    Seq::new(digests.len(), |i: int| digests[i]@)
}

impl HashRegistry {
    #[verifier::type_invariant]
    spec fn ordered(&self) -> bool {
        strictly_ascending(self@)
    }

    /// The empty registry.
    pub fn new() -> (registry: HashRegistry)
        ensures
            registry@ == Seq::<Seq<u8>>::empty(),
    {
        let registry = HashRegistry { digests: Vec::new() };
        assert(registry@ =~= Seq::<Seq<u8>>::empty());
        registry
    }

    /// The number of digests in the registry.
    pub fn len(&self) -> (n: usize)
        ensures
            n == self@.len(),
    {
        self.digests.len()
    }

    /// The digest at `position`, if the registry holds that many.
    pub fn get(&self, position: usize) -> (digest: Option<Digest>)
        ensures
            match digest {
                Some(found) => position < self@.len() && found@ == self@[position as int],
                None => position >= self@.len(),
            },
    {
        if position < self.digests.len() {
            Some(self.digests[position])
        } else {
            None
        }
    }

    /// Looks `digest` up by binary search.
    ///
    /// The registry is in order whenever it is looked at. It holds `digest`
    /// exactly if the result is `Found`, which then gives its position;
    /// `NotFound` gives the position at which `digest` keeps the order.
    pub fn locate(&self, digest: &Digest) -> (location: Location)
        ensures
            strictly_ascending(self@),
            (location is Found) == self@.contains(digest@),
            match location {
                Location::Found(i) => i < self@.len() && self@[i as int] == digest@,
                Location::NotFound(i) => insertion_point(self@, digest@, i as int),
            },
    {
        proof {
            use_type_invariant(self);
        }
        let mut low: usize = 0;
        let mut high: usize = self.digests.len();
        while low < high
            invariant
                low <= high <= self.digests@.len(),
                self@.len() == self.digests@.len(),
                strictly_ascending(self@),
                forall|j: int| 0 <= j < low ==> lex_lt(#[trigger] self@[j], digest@),
                forall|j: int| high <= j < self@.len() ==> !lex_lt(#[trigger] self@[j], digest@),
            decreases high - low,
        {
            let middle = low + (high - low) / 2;
            if self.digests[middle].precedes(digest) {
                proof {
                    assert forall|j: int| 0 <= j < middle + 1 implies lex_lt(
                        #[trigger] self@[j],
                        digest@,
                    ) by {
                        if j < middle {
                            lemma_lex_transitive(self@[j], self@[middle as int], digest@);
                        }
                    }
                }
                low = middle + 1;
            } else {
                proof {
                    assert forall|j: int| middle <= j < self@.len() implies !lex_lt(
                        #[trigger] self@[j],
                        digest@,
                    ) by {
                        if middle < j && lex_lt(self@[j], digest@) {
                            lemma_lex_transitive(self@[middle as int], self@[j], digest@);
                        }
                    }
                }
                high = middle;
            }
        }
        if low < self.digests.len() && self.digests[low].same(digest) {
            assert(self@[low as int] == digest@);
            Location::Found(low)
        } else {
            proof {
                assert forall|j: int| low <= j < self@.len() implies lex_lt(
                    digest@,
                    #[trigger] self@[j],
                ) by {
                    lemma_lex_total(self@[low as int], digest@);
                    if low < j {
                        lemma_lex_transitive(digest@, self@[low as int], self@[j]);
                    }
                }
                lemma_insertion_point_unique(self@, digest@, low as int, low as int);
            }
            Location::NotFound(low)
        }
    }

    /// Puts `digest` at `position`, which has to be its insertion point, as
    /// [`HashRegistry::locate`] reports it.
    pub fn insert_at(&mut self, position: usize, digest: Digest)
        requires
            insertion_point(old(self)@, digest@, position as int),
        ensures
            final(self)@ == old(self)@.insert(position as int, digest@),
            final(self)@ == with_digest(old(self)@, digest@),
            strictly_ascending(final(self)@),
    {
        proof {
            use_type_invariant(&*self);
            lemma_insert_keeps_order(self@, digest@, position as int);
            lemma_insertion_index_is(self@, digest@, position as int);
        }
        let ghost before = self@;
        let mut digests = Vec::new();
        std::mem::swap(&mut digests, &mut self.digests);
        digests.insert(position, digest);
        assert(views(digests@) =~= before.insert(position as int, digest@));
        self.digests = digests;
    }

    /// Offers `digest` to the registry: adds it in its place if the registry
    /// does not hold it yet. Says whether it was added.
    pub fn insert(&mut self, digest: Digest) -> (added: bool)
        ensures
            added == !old(self)@.contains(digest@),
            final(self)@ == with_digest(old(self)@, digest@),
            strictly_ascending(final(self)@),
            final(self)@.contains(digest@),
            final(self)@.len() == old(self)@.len() + if added {
                1int
            } else {
                0int
            },
    {
        proof {
            use_type_invariant(&*self);
            lemma_with_digest(self@, digest@);
        }
        match self.locate(&digest) {
            Location::Found(_) => false,
            Location::NotFound(position) => {
                self.insert_at(position, digest);
                true
            },
        }
    }
}

/// The insertion point that is known is the one that [`insertion_index`] picks.
proof fn lemma_insertion_index_is(s: Seq<Seq<u8>>, d: Seq<u8>, i: int)
    requires
        insertion_point(s, d, i),
    ensures
        !s.contains(d),
        insertion_index(s, d) == i,
{
    lemma_insertion_point_unique(s, d, i, insertion_index(s, d));
}

} // verus!
