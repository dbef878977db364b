//! Read-only traversal cursors over an `OpString`'s cluster table: one
//! yielding (byte offset, cluster slice) pairs, one yielding cluster slices
//! alone. Both hold a position counter that only advances; exhaustion is
//! permanent.

use vstd::prelude::*;

verus! {

/// A cursor over the (byte offset, cluster slice) pairs of a view, in table
/// order.
pub struct OpStringPairIter<'a> {
    /// The cluster table walked by this cursor.
    data: &'a Vec<(usize, &'a str)>,
    /// The position of the next pair to yield.
    i: usize,
}

impl<'a> OpStringPairIter<'a> {
    /// The pairs this cursor walks, in order.
    pub closed spec fn entries(self) -> Seq<(usize, &'a str)> {
        self.data@
    }

    /// The position of the next pair to yield.
    pub closed spec fn pos(self) -> nat {
        self.i as nat
    }

    /// A fresh cursor over the given table, positioned at its start.
    pub(crate) fn new(data: &'a Vec<(usize, &'a str)>) -> (r: OpStringPairIter<'a>)
        ensures
            r.entries() == data@,
            r.pos() == 0,
    {
        OpStringPairIter { data, i: 0 }
    }

    /// Yields the pair at the current position and advances, or signals
    /// exhaustion with `None` once every pair has been yielded.
    pub fn next(&mut self) -> (r: Option<(usize, &'a str)>)
        ensures
            final(self).entries() == old(self).entries(),
            old(self).pos() < old(self).entries().len() ==> {
                &&& r == Some(old(self).entries()[old(self).pos() as int])
                &&& final(self).pos() == old(self).pos() + 1
            },
            old(self).pos() >= old(self).entries().len() ==> {
                &&& r is None
                &&& final(self).pos() == old(self).pos()
            },
    {
        if self.i >= self.data.len() {
            return None;
        }
        let i = self.i;
        self.i = i + 1;
        Some(self.data[i])
    }
}

/// A cursor over the cluster slices of a view alone, in table order.
pub struct OpStringCharIter<'a> {
    /// The cluster table walked by this cursor.
    data: &'a Vec<(usize, &'a str)>,
    /// The position of the next slice to yield.
    i: usize,
}

impl<'a> OpStringCharIter<'a> {
    /// The slices this cursor walks, in order.
    pub closed spec fn entries(self) -> Seq<&'a str> {
        self.data@.map_values(|p: (usize, &'a str)| p.1)
    }

    /// The position of the next slice to yield.
    pub closed spec fn pos(self) -> nat {
        self.i as nat
    }

    /// A fresh cursor over the given table, positioned at its start.
    pub(crate) fn new(data: &'a Vec<(usize, &'a str)>) -> (r: OpStringCharIter<'a>)
        ensures
            r.entries() == data@.map_values(|p: (usize, &'a str)| p.1),
            r.pos() == 0,
    {
        OpStringCharIter { data, i: 0 }
    }

    /// Yields the slice at the current position and advances, or signals
    /// exhaustion with `None` once every slice has been yielded.
    pub fn next(&mut self) -> (r: Option<&'a str>)
        ensures
            final(self).entries() == old(self).entries(),
            old(self).pos() < old(self).entries().len() ==> {
                &&& r == Some(old(self).entries()[old(self).pos() as int])
                &&& final(self).pos() == old(self).pos() + 1
            },
            old(self).pos() >= old(self).entries().len() ==> {
                &&& r is None
                &&& final(self).pos() == old(self).pos()
            },
    {
        if self.i >= self.data.len() {
            return None;
        }
        let i = self.i;
        self.i = i + 1;
        Some(self.data[i].1)
    }
}

} // verus!
