//! The one-line preview of a note's content.

use crate::note::Note;
use vstd::prelude::*;

verus! {

/// The number of characters of the content that a preview shows.
pub const PREVIEW_CHARS: usize = 30;

/// What follows the shown characters where the content was cut.
pub open spec fn ellipsis() -> Seq<char> {
    seq!['.', '.', '.']
}

/// The preview of `content`: the content itself where it has at most
/// `PREVIEW_CHARS` characters, else its first `PREVIEW_CHARS` characters and
/// the ellipsis. A character is a Unicode scalar value, so no character is
/// ever cut in two.
pub open spec fn preview(content: Seq<char>) -> Seq<char> {
    if content.len() > PREVIEW_CHARS {
        content.subrange(0, PREVIEW_CHARS as int) + ellipsis()
    } else {
        content
    }
}

/// The preview of a note's content.
pub fn preview_of(note: &Note) -> (text: String)
    ensures
        text@ == preview(note@.content),
{
    let content = note.content.as_str();
    if content.unicode_len() > PREVIEW_CHARS {
        let mut text = String::from_str(content.substring_char(0, PREVIEW_CHARS));
        proof {
            reveal_strlit("...");
        }
        text.append("...");
        text
    } else {
        note.content.clone()
    }
}

/// A content of at most `PREVIEW_CHARS` characters is its own preview. A
/// longer one gives `PREVIEW_CHARS + 3` characters: the content's first
/// `PREVIEW_CHARS`, then the ellipsis.
pub proof fn lemma_preview_shape(content: Seq<char>)
    ensures
        content.len() <= PREVIEW_CHARS ==> preview(content) == content,
        content.len() > PREVIEW_CHARS ==> {
            &&& preview(content).len() == PREVIEW_CHARS + 3
            &&& preview(content).subrange(0, PREVIEW_CHARS as int) == content.subrange(
                0,
                PREVIEW_CHARS as int,
            )
            &&& preview(content).subrange(PREVIEW_CHARS as int, PREVIEW_CHARS + 3) == ellipsis()
        },
{
}

/// Taking the preview of a preview changes nothing: a preview that was cut
/// is cut again at the same place.
pub proof fn lemma_preview_idempotent(content: Seq<char>)
    ensures
        preview(preview(content)) == preview(content),
{
}

} // verus!
