//! Grapheme-cluster segmentation of display text.
//!
//! Scrolling must never slice the buffer in the middle of a user-perceived
//! character, so every index used by the scroll engine counts extended
//! grapheme clusters, not bytes or code points. The segmentation itself is
//! done by the `unicode-segmentation` crate; its result is named by the
//! uninterpreted function `grapheme_split`, and everything the engine proves
//! about windows is stated over that name.

use unicode_segmentation::UnicodeSegmentation;
use vstd::prelude::*;

verus! {

/// The sequence of extended grapheme clusters of `s`, in order. The split is
/// a function of the characters alone; what it is on given characters is
/// known only to the segmenter.
pub uninterp spec fn grapheme_split(s: Seq<char>) -> Seq<Seq<char>>;

/// Relies on `unicode_segmentation::UnicodeSegmentation::graphemes` (with
/// extended grapheme clusters selected): it splits the string into its
/// grapheme clusters, so the pieces are nonempty, concatenate back to the
/// input, and the split of the empty string is empty; the split depends on
/// the characters alone.
#[verifier::external_body]
pub(crate) fn graphemes_of(s: &str) -> (r: Vec<String>)
    ensures
        r.deep_view() == grapheme_split(s@),
        r.deep_view().flatten() == s@,
        forall|i: int| 0 <= i < r.deep_view().len() ==> #[trigger] r.deep_view()[i].len() > 0,
        (r.deep_view().len() == 0) == (s@.len() == 0),
{
    s.graphemes(true).map(|g| g.to_owned()).collect()
}

/// A sequence of nonempty pieces never flattens to something shorter than
/// itself; with `graphemes_of`'s contract this bounds the grapheme count of a
/// string by its character count.
pub proof fn lemma_flatten_len_at_least_count(gs: Seq<Seq<char>>)
    requires
        forall|i: int| 0 <= i < gs.len() ==> #[trigger] gs[i].len() > 0,
    ensures
        gs.flatten().len() >= gs.len(),
    decreases gs.len(),
{
    if gs.len() > 0 {
        let rest = gs.drop_first();
        assert(forall|i: int| 0 <= i < rest.len() ==> #[trigger] rest[i].len() > 0);
        lemma_flatten_len_at_least_count(rest);
        assert(gs.flatten() == gs.first() + rest.flatten());
    }
}

} // verus!
