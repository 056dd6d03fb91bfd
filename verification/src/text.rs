//! Views of the string values that the library's types hold.

use vstd::prelude::*;

verus! {

/// The view of an optional string.
pub open spec fn text_view(text: Option<String>) -> Option<Seq<char>> {
    match text {
        Some(s) => Some(s@),
        None => None,
    }
}

/// The views of a sequence of strings.
pub open spec fn text_views(texts: Seq<String>) -> Seq<Seq<char>> {
    texts.map_values(|text: String| text@)
}

/// Appending a string to a sequence of strings appends its view to their views.
pub proof fn lemma_text_views_push(texts: Seq<String>, text: String)
    ensures
        text_views(texts.push(text)) == text_views(texts).push(text@),
{
    assert(text_views(texts.push(text)) =~= text_views(texts).push(text@));
}

} // verus!
