//! Grapheme clusters and display widths, as the `unicode-segmentation` and
//! `unicode-width` crates compute them.

use vstd::prelude::*;
use crate::text::views;
use unicode_segmentation::UnicodeSegmentation;
use unicode_width::UnicodeWidthStr;

verus! {

/// The extended grapheme clusters of a string.
pub uninterp spec fn spec_graphemes(s: Seq<char>) -> Seq<Seq<char>>;

/// The display width of a string in terminal columns.
pub uninterp spec fn spec_str_width(s: Seq<char>) -> nat;

/// `UnicodeSegmentation::graphemes(s, true)`, collected.  The clusters are
/// successive non-empty slices of `s` that together make up `s`; which
/// boundaries UAX #29 chooses is left to the crate.
#[verifier::external_body]
pub(crate) fn graphemes(s: &str) -> (r: Vec<String>)
    ensures
        views(r@) == spec_graphemes(s@),
        views(r@).flatten() == s@,
        forall|i: int| 0 <= i < r@.len() ==> (#[trigger] r@[i])@.len() > 0,
{
    s.graphemes(true).map(|g| g.to_string()).collect()
}

/// `UnicodeWidthStr::width(s)`: the columns that `s` takes on a terminal.
/// The width tables of UAX #11 are left to the crate.
#[verifier::external_body]
pub(crate) fn str_width(s: &str) -> (r: usize)
    ensures
        r as nat == spec_str_width(s@),
{
    UnicodeWidthStr::width(s)
}

} // verus!
