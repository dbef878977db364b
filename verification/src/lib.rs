//! An index-addressable view over a text string in units of user-perceived
//! characters (grapheme clusters), with translation in both directions
//! between cluster indices and byte offsets in the underlying string.

mod iters;
pub mod laws;
mod seg;
mod text;

pub use crate::iters::{OpStringCharIter, OpStringPairIter};
pub use crate::seg::grapheme_clusters;

use vstd::prelude::*;

use crate::seg::segment_graphemes;
use crate::text::{
    byte_len, lemma_start_le_total, lemma_start_monotone, lemma_start_step, lemma_start_total,
    lemma_start_zero, start_of,
};

verus! {

/// A grapheme-aware view of a borrowed string: an ordered table of
/// (byte offset, cluster slice) records, one per grapheme cluster.
pub struct OpString<'a> {
    /// The parent string the view was built from.
    parent: &'a str,
    /// One record per grapheme cluster: the byte offset at which the cluster
    /// begins in the parent, and the slice spanning exactly that cluster.
    data: Vec<(usize, &'a str)>,
}

impl<'a> OpString<'a> {
    /// The characters of the parent string.
    pub closed spec fn spec_parent(self) -> Seq<char> {
        self.parent@
    }

    /// The cluster table: each entry a byte offset and a cluster slice.
    pub closed spec fn table(self) -> Seq<(usize, &'a str)> {
        self.data@
    }

    /// The grapheme clusters of the view, each as its character sequence.
    pub open spec fn clusters(self) -> Seq<Seq<char>> {
        self.table().map_values(|p: (usize, &'a str)| p.1@)
    }

    /// The number of grapheme clusters.
    pub open spec fn spec_len(self) -> nat {
        self.clusters().len()
    }

    /// The byte length of the parent string.
    pub open spec fn total_bytes(self) -> nat {
        byte_len(self.spec_parent())
    }

    /// The byte offset where cluster `i` begins; the parent's byte length,
    /// a past-the-end sentinel, when `i` is out of range.
    pub open spec fn spec_translate_to_byte(self, i: int) -> nat {
        if 0 <= i < self.spec_len() {
            start_of(self.clusters(), i)
        } else {
            self.total_bytes()
        }
    }

    /// True when byte offset `b` falls inside the byte span of cluster `k`.
    pub open spec fn cluster_contains(self, k: int, b: int) -> bool {
        &&& 0 <= k < self.spec_len()
        &&& start_of(self.clusters(), k) <= b < start_of(self.clusters(), k + 1)
    }

    /// The index of the cluster whose byte span contains `b`; the cluster
    /// count, a past-the-end sentinel, when no cluster does.
    pub open spec fn spec_translate_to_cluster(self, b: int) -> int {
        if exists|k: int| self.cluster_contains(k, b) {
            choose|k: int| self.cluster_contains(k, b)
        } else {
            self.spec_len() as int
        }
    }

    /// Well-formedness: the clusters are non-empty and partition the parent
    /// text, each table entry's offset is the byte offset at which its
    /// cluster begins, and the parent's byte length fits a `usize`.
    pub open spec fn wf(self) -> bool {
        &&& self.clusters().flatten() == self.spec_parent()
        &&& forall|i: int|
            0 <= i < self.table().len() ==> (#[trigger] self.table()[i]).0 as nat == start_of(
                self.clusters(),
                i,
            )
        &&& forall|i: int|
            0 <= i < self.clusters().len() ==> (#[trigger] self.clusters()[i]).len() > 0
        &&& self.total_bytes() <= usize::MAX
    }

    /// Builds the view: segments the text into grapheme clusters in
    /// left-to-right order and records, for each, its starting byte offset
    /// (a running accumulator beginning at 0) and its slice. Any text is
    /// accepted, the empty one included.
    pub fn new(s: &'a str) -> (r: OpString<'a>)
        ensures
            r.wf(),
            r.spec_parent() == s@,
            r.clusters() == grapheme_clusters(s@),
    {
        let total: usize = s.as_bytes().len();
        let gs: Vec<&'a str> = segment_graphemes(s);
        let ghost cs: Seq<Seq<char>> = grapheme_clusters(s@);
        let mut list: Vec<(usize, &'a str)> = Vec::with_capacity(total);
        let mut i: usize = 0;
        let mut k: usize = 0;
        proof {
            lemma_start_zero(cs);
        }
        while k < gs.len()
            invariant
                k <= gs@.len(),
                gs@.map_values(|g: &'a str| g@) == cs,
                cs.flatten() == s@,
                forall|j: int| 0 <= j < cs.len() ==> (#[trigger] cs[j]).len() > 0,
                total as nat == byte_len(s@),
                list@.len() == k,
                forall|j: int| 0 <= j < k ==> (#[trigger] list@[j]).1 == gs@[j],
                forall|j: int| 0 <= j < k ==> (#[trigger] list@[j]).0 as nat == start_of(cs, j),
                i as nat == start_of(cs, k as int),
            decreases gs@.len() - k,
        {
            let g: &'a str = gs[k];
            proof {
                assert(g@ == cs[k as int]);
                lemma_start_step(cs, k as int);
                lemma_start_le_total(cs, k as int + 1);
                lemma_start_total(cs);
            }
            list.push((i, g));
            i = i + g.len();
            k = k + 1;
        }
        proof {
            assert(list@.map_values(|p: (usize, &'a str)| p.1@) =~= cs);
        }
        OpString { parent: s, data: list }
    }

    /// The number of grapheme clusters in the view.
    pub fn len(&self) -> (r: usize)
        ensures
            r as nat == self.spec_len(),
    {
        self.data.len()
    }

    /// The parent string the view was built from, unchanged.
    pub fn parent(&self) -> (r: &'a str)
        ensures
            r@ == self.spec_parent(),
    {
        self.parent
    }

    /// The first cluster's slice, or an empty slice if the view is empty.
    pub fn first(&self) -> (r: &'a str)
        ensures
            self.spec_len() == 0 ==> r@ == Seq::<char>::empty(),
            self.spec_len() > 0 ==> r@ == self.clusters()[0],
    {
        if self.data.len() == 0 {
            proof {
                reveal_strlit("");
                assert(""@ =~= Seq::<char>::empty());
            }
            ""
        } else {
            self.data[0].1
        }
    }

    /// The last cluster's slice, or an empty slice if the view is empty.
    pub fn last(&self) -> (r: &'a str)
        ensures
            self.spec_len() == 0 ==> r@ == Seq::<char>::empty(),
            self.spec_len() > 0 ==> r@ == self.clusters()[self.spec_len() - 1],
    {
        if self.data.len() == 0 {
            proof {
                reveal_strlit("");
                assert(""@ =~= Seq::<char>::empty());
            }
            ""
        } else {
            self.data[self.data.len() - 1].1
        }
    }

    /// The cluster at the given 0-based position. Calling it with an index
    /// at or past `len` is a contract violation, not a runtime condition:
    /// callers must check `len` first.
    pub fn at(&self, index: usize) -> (r: &'a str)
        requires
            index < self.spec_len(),
        ensures
            r@ == self.clusters()[index as int],
    {
        self.data[index].1
    }

    /// A fresh cursor over the (byte offset, cluster slice) pairs of this
    /// view, positioned at the start. Creating one has no effect on the
    /// view; a new traversal can be started any number of times.
    pub fn iter(&'a self) -> (r: OpStringPairIter<'a>)
        ensures
            r.entries() == self.table(),
            r.pos() == 0,
    {
        OpStringPairIter::new(&self.data)
    }

    /// A fresh cursor over the cluster slices of this view alone,
    /// positioned at the start. Creating one has no effect on the view; a
    /// new traversal can be started any number of times.
    pub fn chars(&'a self) -> (r: OpStringCharIter<'a>)
        ensures
            r.entries().len() == self.spec_len(),
            forall|j: int|
                0 <= j < self.spec_len() ==> (#[trigger] r.entries()[j])@ == self.clusters()[j],
            r.pos() == 0,
    {
        OpStringCharIter::new(&self.data)
    }

    /// The byte offset at which the cluster at `opstring_index` begins in
    /// the parent string; the parent's byte length, a past-the-end
    /// sentinel, when the index is out of range. Translation is total where
    /// direct indexing is not.
    pub fn translate_opstr(&self, opstring_index: usize) -> (r: usize)
        requires
            self.wf(),
        ensures
            r as nat == self.spec_translate_to_byte(opstring_index as int),
    {
        if opstring_index >= self.data.len() {
            return self.parent.len();
        }
        self.data[opstring_index].0
    }

    /// The index of the cluster whose byte span contains `str_index`; the
    /// cluster count, a past-the-end sentinel, when no cluster does. A byte
    /// offset strictly inside a multi-byte cluster resolves to that
    /// cluster's index.
    pub fn translate_str(&self, str_index: usize) -> (r: usize)
        requires
            self.wf(),
        ensures
            r as int == self.spec_translate_to_cluster(str_index as int),
    {
        let ghost cs: Seq<Seq<char>> = self.clusters();
        let n: usize = self.data.len();
        let mut k: usize = 0;
        while k < n
            invariant
                self.wf(),
                n == self.table().len(),
                k <= n,
                cs == self.clusters(),
                forall|j: int| 0 <= j < k ==> !self.cluster_contains(j, str_index as int),
            decreases n - k,
        {
            let (off, g): (usize, &'a str) = self.data[k];
            proof {
                lemma_start_step(cs, k as int);
                lemma_start_le_total(cs, k as int + 1);
                lemma_start_total(cs);
            }
            if str_index >= off && str_index < off + g.len() {
                proof {
                    assert(self.cluster_contains(k as int, str_index as int));
                    self.lemma_cluster_contains_unique(
                        str_index as int,
                        k as int,
                        choose|j: int| self.cluster_contains(j, str_index as int),
                    );
                }
                return k;
            }
            k += 1;
        }
        proof {
            if exists|j: int| self.cluster_contains(j, str_index as int) {
                let j = choose|j: int| self.cluster_contains(j, str_index as int);
                assert(!self.cluster_contains(j, str_index as int));
            }
        }
        n
    }

    /// Two distinct clusters never contain the same byte offset.
    pub proof fn lemma_cluster_contains_unique(self, b: int, k1: int, k2: int)
        requires
            self.wf(),
            self.cluster_contains(k1, b),
            self.cluster_contains(k2, b),
        ensures
            k1 == k2,
    {
        if k1 < k2 {
            lemma_start_monotone(self.clusters(), k1 + 1, k2);
        }
        if k2 < k1 {
            lemma_start_monotone(self.clusters(), k2 + 1, k1);
        }
    }
}

} // verus!
