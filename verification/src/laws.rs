//! The laws every well-formed view obeys, each proved once for all views
//! and all inputs.

use vstd::prelude::*;

use crate::text::{
    lemma_byte_len_pos, lemma_start_le_total, lemma_start_step, lemma_start_total,
};
use crate::OpString;

verus! {

/// An empty parent text yields an empty view: no clusters at all.
pub proof fn lemma_empty_text<'a>(v: OpString<'a>)
    requires
        v.wf(),
        v.spec_parent().len() == 0,
    ensures
        v.spec_len() == 0,
{
    if v.spec_len() > 0 {
        let cs = v.clusters();
        assert(cs.flatten() == cs.first() + cs.drop_first().flatten());
        assert(cs.flatten().len() >= cs[0].len());
    }
}

/// Partition law: the cluster slices, concatenated in table order,
/// reproduce the parent text exactly.
pub proof fn lemma_partition<'a>(v: OpString<'a>)
    requires
        v.wf(),
    ensures
        v.clusters().flatten() == v.spec_parent(),
{
}

/// Monotonic-offset law: within range, cluster starts strictly increase
/// with the cluster index.
pub proof fn lemma_monotonic_offsets<'a>(v: OpString<'a>, i: int)
    requires
        v.wf(),
        0 <= i,
        i + 1 < v.spec_len(),
    ensures
        v.spec_translate_to_byte(i) < v.spec_translate_to_byte(i + 1),
{
    lemma_start_step(v.clusters(), i);
    lemma_byte_len_pos(v.clusters()[i]);
}

/// Round-trip law: the byte offset at which an in-range cluster begins
/// translates back to that cluster's index.
pub proof fn lemma_round_trip<'a>(v: OpString<'a>, i: int)
    requires
        v.wf(),
        0 <= i < v.spec_len(),
    ensures
        v.spec_translate_to_cluster(v.spec_translate_to_byte(i) as int) == i,
{
    let b = v.spec_translate_to_byte(i) as int;
    lemma_start_step(v.clusters(), i);
    lemma_byte_len_pos(v.clusters()[i]);
    assert(v.cluster_contains(i, b));
    v.lemma_cluster_contains_unique(b, i, choose|k: int| v.cluster_contains(k, b));
}

/// Sentinel law: translating the cluster count gives the parent's byte
/// length, and translating the parent's byte length gives the cluster
/// count.
pub proof fn lemma_sentinel<'a>(v: OpString<'a>)
    requires
        v.wf(),
    ensures
        v.spec_translate_to_byte(v.spec_len() as int) == v.total_bytes(),
        v.spec_translate_to_cluster(v.total_bytes() as int) == v.spec_len(),
{
    let t = v.total_bytes() as int;
    assert forall|k: int| !v.cluster_contains(k, t) by {
        if 0 <= k < v.spec_len() {
            lemma_start_le_total(v.clusters(), k + 1);
            lemma_start_total(v.clusters());
        }
    }
}

} // verus!
