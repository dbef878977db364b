//! The boundary to the external grapheme-cluster segmenter. Segmentation
//! internals are a black box to this crate: the segmenter's decomposition is
//! given a name, and only the facts its documentation promises are stated of
//! it.

use unicode_segmentation::UnicodeSegmentation;
use vstd::prelude::*;

verus! {

/// The decomposition of a character sequence into extended grapheme
/// clusters per the Unicode text-segmentation rules. The rules themselves
/// are outside this crate; the decomposition depends on the text alone.
pub uninterp spec fn grapheme_clusters(s: Seq<char>) -> Seq<Seq<char>>;

/// Relies on `unicode_segmentation::UnicodeSegmentation::graphemes` with
/// extended cluster boundaries: it yields the grapheme clusters of `s` in
/// order, as consecutive non-empty slices of `s` that concatenate back to
/// exactly `s`, and its result depends on the text alone.
#[verifier::external_body]
pub(crate) fn segment_graphemes<'a>(s: &'a str) -> (r: Vec<&'a str>)
    ensures
        r@.map_values(|g: &'a str| g@) == grapheme_clusters(s@),
        r@.map_values(|g: &'a str| g@).flatten() == s@,
        forall|i: int| 0 <= i < r@.len() ==> (#[trigger] r@[i])@.len() > 0,
{
    UnicodeSegmentation::graphemes(s, true).collect()
}

} // verus!
