//! A partition of the integer line into disjoint ranges, each carrying a
//! content value.

use vstd::prelude::*;
use vstd::seq_lib::group_to_multiset_ensures;

use itertools::Itertools;

use crate::errors::MutationOperationError;
use crate::range::Range;

verus! {

/// One looked-up association: the bounds of the range found and a borrow of
/// its content.
pub struct RangeEntry<V> {
    min: isize,
    max: isize,
    content: V,
}

impl<V> RangeEntry<V> {
    /// The lower bound.
    pub closed spec fn spec_entry_min(self) -> int {
        self.min as int
    }

    /// The upper bound.
    pub closed spec fn spec_entry_max(self) -> int {
        self.max as int
    }

    /// The content.
    pub closed spec fn spec_content(self) -> V {
        self.content
    }

    /// Packs an association.
    pub fn new(min: isize, max: isize, content: V) -> (r: RangeEntry<V>)
        ensures
            r.spec_entry_min() == min,
            r.spec_entry_max() == max,
            r.spec_content() == content,
    {
        RangeEntry { min, max, content }
    }

    /// The lower bound.
    pub fn min(&self) -> (v: isize)
        ensures
            v as int == self.spec_entry_min(),
    {
        self.min
    }

    /// The upper bound.
    pub fn max(&self) -> (v: isize)
        ensures
            v as int == self.spec_entry_max(),
    {
        self.max
    }

    /// The content.
    pub fn content(&self) -> (v: &V)
        ensures
            *v == self.spec_content(),
    {
        &self.content
    }
}

/// Disjoint ranges with one content value each, kept in insertion order.
pub struct RangeDivider<V> {
    boundaries: Vec<(Range, V)>,
}

/// Relies on itertools' `sorted_by_key` (via `Itertools::sorted_by_key`,
/// which collects into a vector and performs a stable sort by the key):
/// the result is a permutation of the input, in ascending order of the
/// first component.
#[verifier::external_body]
fn sort_pairs_by_first(v: Vec<(isize, usize)>) -> (r: Vec<(isize, usize)>)
    ensures
        r@.to_multiset() == v@.to_multiset(),
        r@.len() == v@.len(),
        forall|i: int, j: int| 0 <= i < j < r@.len() ==> r@[i].0 <= r@[j].0,
{
    v.into_iter().sorted_by_key(|p: &(isize, usize)| p.0).collect()
}

/// The rearranged sequence holds the association `p` somewhere.
pub open spec fn holds_entry<V>(out_seq: Seq<(Range, &V)>, p: (Range, V)) -> bool {
    exists|i: int|
        0 <= i < out_seq.len() && (#[trigger] out_seq[i]).0 == p.0 && *out_seq[i].1 == p.1
}

/// Every element of `out_seq` is one of `entries`, and there are as many.
pub open spec fn arrangement_of<V>(entries: Seq<(Range, V)>, out_seq: Seq<(Range, &V)>) -> bool {
    &&& out_seq.len() == entries.len()
    &&& forall|i: int| #![trigger out_seq[i]]
        0 <= i < out_seq.len() ==> entries.contains((out_seq[i].0, *out_seq[i].1))
}

/// Every one of `entries` appears in `out_seq`.
pub open spec fn covers<V>(entries: Seq<(Range, V)>, out_seq: Seq<(Range, &V)>) -> bool {
    forall|j: int| #![trigger entries[j]]
        0 <= j < entries.len() ==> holds_entry(out_seq, entries[j])
}

/// The lower bounds never decrease along the sequence.
#[verifier::opaque]
pub open spec fn ascending_by_min<V>(out_seq: Seq<(Range, &V)>) -> bool {
    forall|i1: int, i2: int|
        0 <= i1 < i2 < out_seq.len() ==> (#[trigger] out_seq[i1]).0.spec_min() <= (
        #[trigger] out_seq[i2]).0.spec_min()
}

/// From a sorted permutation of the key/index pairs, the rearrangement
/// facts of [`RangeDivider::sorted`] follow.
proof fn lemma_sorted_arrangement<V>(
    entries: Seq<(Range, V)>,
    keys_seq: Seq<(isize, usize)>,
    sorted_keys: Seq<(isize, usize)>,
    out_seq: Seq<(Range, &V)>,
)
    requires
        keys_seq.len() == entries.len(),
        sorted_keys.len() == entries.len(),
        out_seq.len() == entries.len(),
        sorted_keys.to_multiset() == keys_seq.to_multiset(),
        forall|j: int| 0 <= j < entries.len() ==> (#[trigger] keys_seq[j]).1 == j,
        forall|j: int|
            0 <= j < entries.len() ==> {
                let idx = (#[trigger] sorted_keys[j]).1 as int;
                &&& 0 <= idx < entries.len()
                &&& (#[trigger] out_seq[j]).0 == entries[idx].0
                &&& out_seq[j].1 == entries[idx].1
            },
    ensures
        arrangement_of(entries, out_seq),
        covers(entries, out_seq),
{
    assert forall|i: int| #![trigger out_seq[i]]
        0 <= i < out_seq.len() implies entries.contains((out_seq[i].0, *out_seq[i].1)) by {
        let j = sorted_keys[i].1 as int;
        assert(entries[j] == (out_seq[i].0, *out_seq[i].1));
    }
    assert forall|j: int| #![trigger entries[j]]
        0 <= j < entries.len() implies holds_entry(out_seq, entries[j]) by {
        broadcast use group_to_multiset_ensures;

        assert(keys_seq[j].1 == j);
        assert(keys_seq.contains(keys_seq[j]));
        assert(keys_seq.to_multiset().count(keys_seq[j]) > 0);
        assert(sorted_keys.contains(keys_seq[j]));
        let i = choose|i: int| 0 <= i < sorted_keys.len() && sorted_keys[i] == keys_seq[j];
        assert(sorted_keys[i].1 as int == j);
        assert(out_seq[i].0 == entries[j].0 && *out_seq[i].1 == entries[j].1);
    }
}

impl<V> RangeDivider<V> {
    /// The held associations, in insertion order.
    pub closed spec fn spec_entries(self) -> Seq<(Range, V)> {
        self.boundaries@
    }

    /// Every held range is well formed, and no earlier range overlaps a
    /// later one (insertion only checks whether a held range overlaps the
    /// newcomer, so this is the direction the structure maintains).
    pub open spec fn wf(self) -> bool {
        &&& forall|i: int|
            0 <= i < self.spec_entries().len() ==> (#[trigger] self.spec_entries()[i].0).wf()
        &&& forall|i: int, j: int|
            0 <= i < j < self.spec_entries().len() ==> !(#[trigger] self.spec_entries()[
                i
            ].0).spec_overlaps(#[trigger] self.spec_entries()[j].0)
    }

    /// An empty divider.
    pub fn new() -> (d: RangeDivider<V>)
        ensures
            d.spec_entries() == Seq::<(Range, V)>::empty(),
            d.wf(),
    {
        RangeDivider { boundaries: Vec::new() }
    }

    /// Adds a range with its content; refused when the range overlaps one
    /// already held.
    pub fn insert(&mut self, r: Range, content: V) -> (res: Result<(), MutationOperationError>)
        requires
            old(self).wf(),
            r.wf(),
        ensures
            final(self).wf(),
            (exists|i: int|
                0 <= i < old(self).spec_entries().len() && (#[trigger] old(self).spec_entries()[i].0).spec_overlaps(r)) ==> (res matches Err(e) && e
                == MutationOperationError::AdditionError && final(self).spec_entries() == old(
                self,
            ).spec_entries()),
            (forall|i: int|
                0 <= i < old(self).spec_entries().len() ==> !(#[trigger] old(self).spec_entries()[i].0).spec_overlaps(r)) ==> (res matches Ok(u) && final(self).spec_entries() == old(
                self,
            ).spec_entries().push((r, content))),
    {
        let n = self.boundaries.len();
        let mut i: usize = 0;
        while i < n
            invariant
                0 <= i <= n == self.spec_entries().len(),
                self.wf(),
                *self == *old(self),
                forall|k: int|
                    0 <= k < i ==> !(#[trigger] self.spec_entries()[k].0).spec_overlaps(r),
            decreases n - i,
        {
            if self.boundaries[i].0.overlaps(&r) {
                return Err(MutationOperationError::AdditionError);
            }
            i = i + 1;
        }
        let ghost entries0 = self.spec_entries();
        self.boundaries.push((r, content));
        proof {
            assert forall|i: int, j: int|
                0 <= i < j < self.spec_entries().len() implies !(
            #[trigger] self.spec_entries()[i].0).spec_overlaps(
                #[trigger] self.spec_entries()[j].0,
            ) by {
                if j < entries0.len() {
                    assert(self.spec_entries()[i] == entries0[i]);
                    assert(self.spec_entries()[j] == entries0[j]);
                } else {
                    assert(self.spec_entries()[i] == entries0[i]);
                    assert(self.spec_entries()[j] == (r, content));
                }
            }
        }
        Ok(())
    }

    /// Looks the point `k` up; the association of the (unique) held range
    /// containing it, or `None`.
    pub fn get(&self, k: isize) -> (res: Option<RangeEntry<&V>>)
        requires
            self.wf(),
        ensures
            match res {
                Some(entry) => exists|i: int|
                    0 <= i < self.spec_entries().len() && (#[trigger] self.spec_entries()[i].0).spec_contains(k as int) && entry.spec_entry_min()
                        == self.spec_entries()[i].0.spec_min() && entry.spec_entry_max()
                        == self.spec_entries()[i].0.spec_max() && *entry.spec_content()
                        == self.spec_entries()[i].1,
                None => forall|i: int|
                    0 <= i < self.spec_entries().len() ==> !(#[trigger] self.spec_entries()[i].0).spec_contains(k as int),
            },
    {
        let n = self.boundaries.len();
        let mut i: usize = 0;
        while i < n
            invariant
                0 <= i <= n == self.spec_entries().len(),
                forall|j: int|
                    0 <= j < i ==> !(#[trigger] self.spec_entries()[j].0).spec_contains(k as int),
            decreases n - i,
        {
            if self.boundaries[i].0.contains(k) {
                let range = self.boundaries[i].0;
                return Some(
                    RangeEntry {
                        min: range.get_min(),
                        max: range.get_max(),
                        content: &self.boundaries[i].1,
                    },
                );
            }
            i = i + 1;
        }
        None
    }

    /// A held entry sits structurally inside the divider (for termination
    /// arguments of callers that recurse into entries).
    pub proof fn lemma_entry_decreases(self, i: int)
        requires
            0 <= i < self.spec_entries().len(),
        ensures
            decreases_to!(self => self.spec_entries()[i].1),
    {
        assert(decreases_to!(self => self.boundaries));
        assert(decreases_to!(self.boundaries => self.boundaries@[i]));
        assert(decreases_to!(self.boundaries@[i] => self.boundaries@[i].1));
    }

    /// The associations in ascending range order: a rearrangement of the
    /// held entries whose lower bounds never decrease.
    #[verifier::rlimit(100)]
    pub fn sorted(&self) -> (out: Vec<(Range, &V)>)
        ensures
            out@.len() == self.spec_entries().len(),
            arrangement_of(self.spec_entries(), out@),
            covers(self.spec_entries(), out@),
            ascending_by_min(out@),
    {
        broadcast use group_to_multiset_ensures;

        let n = self.boundaries.len();
        let mut keys: Vec<(isize, usize)> = Vec::new();
        let mut i: usize = 0;
        while i < n
            invariant
                0 <= i <= n == self.spec_entries().len(),
                keys@.len() == i,
                forall|j: int|
                    0 <= j < i ==> (#[trigger] keys@[j]).1 == j && keys@[j].0 as int
                        == self.spec_entries()[j].0.spec_min(),
            decreases n - i,
        {
            keys.push((self.boundaries[i].0.get_min(), i));
            i = i + 1;
        }
        let sorted_keys = sort_pairs_by_first(keys);
        let ghost keys_seq = keys@;
        proof {
            broadcast use group_to_multiset_ensures;

            assert forall|k: int| 0 <= k < n implies {
                let idx = (#[trigger] sorted_keys@[k]).1 as int;
                0 <= idx < n && sorted_keys@[k].0 as int == self.spec_entries()[idx].0.spec_min()
            } by {
                assert(sorted_keys@.contains(sorted_keys@[k]));
                assert(sorted_keys@.to_multiset().count(sorted_keys@[k]) > 0);
                assert(keys_seq.contains(sorted_keys@[k]));
                let j = choose|j: int|
                    0 <= j < keys_seq.len() && keys_seq[j] == sorted_keys@[k];
                assert(keys_seq[j].1 == j);
            }
        }
        let mut out: Vec<(Range, &V)> = Vec::new();
        let mut k: usize = 0;
        while k < n
            invariant
                0 <= k <= n == self.spec_entries().len(),
                n == sorted_keys@.len(),
                forall|j: int|
                    0 <= j < n ==> {
                        let idx = (#[trigger] sorted_keys@[j]).1 as int;
                        0 <= idx < n && sorted_keys@[j].0 as int == self.spec_entries()[
                            idx
                        ].0.spec_min()
                    },
                forall|i1: int, i2: int|
                    0 <= i1 < i2 < n ==> (#[trigger] sorted_keys@[i1]).0 <= (
                    #[trigger] sorted_keys@[i2]).0,
                out@.len() == k,
                forall|j: int|
                    0 <= j < k ==> {
                        let idx = (#[trigger] sorted_keys@[j]).1 as int;
                        &&& (#[trigger] out@[j]).0 == self.spec_entries()[idx].0
                        &&& *out@[j].1 == self.spec_entries()[idx].1
                        &&& out@[j].0.spec_min() == sorted_keys@[j].0 as int
                    },
            decreases n - k,
        {
            proof {
                assert((sorted_keys@[k as int].1 as int) < n);
            }
            let idx = sorted_keys[k].1;
            out.push((self.boundaries[idx].0, &self.boundaries[idx].1));
            k = k + 1;
        }
        proof {
            lemma_sorted_arrangement(self.spec_entries(), keys_seq, sorted_keys@, out@);
            assert(ascending_by_min(out@)) by {
                reveal(ascending_by_min);
                assert forall|i1: int, i2: int|
                    0 <= i1 < i2 < out@.len() implies (#[trigger] out@[i1]).0.spec_min() <= (
                #[trigger] out@[i2]).0.spec_min() by {
                    assert(out@[i1].0.spec_min() == sorted_keys@[i1].0 as int);
                    assert(out@[i2].0.spec_min() == sorted_keys@[i2].0 as int);
                    assert(sorted_keys@[i1].0 <= sorted_keys@[i2].0);
                }
            }
        }
        out
    }
}

} // verus!
