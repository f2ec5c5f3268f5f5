//! A note and its mathematical value.

use vstd::prelude::*;

verus! {

/// What a note is in contracts: its three texts, each a sequence of characters.
#[verifier::ext_equal]
pub struct NoteView {
    pub id: Seq<char>,
    pub title: Seq<char>,
    pub content: Seq<char>,
}

/// One note. The store never changes `id` once the note is in it.
#[derive(Debug)]
pub struct Note {
    pub id: String,
    pub title: String,
    pub content: String,
}

impl View for Note {
    type V = NoteView;

    open spec fn view(&self) -> NoteView {
        NoteView { id: self.id@, title: self.title@, content: self.content@ }
    }
}

impl Note {
    /// A note made of the three given texts.
    pub fn new(id: String, title: String, content: String) -> (note: Note)
        ensures
            note@ == (NoteView { id: id@, title: title@, content: content@ }),
    {
        Note { id, title, content }
    }
}

impl Clone for Note {
    fn clone(&self) -> (copy: Note)
        ensures
            copy@ == self@,
            copy == *self,
    {
        Note { id: self.id.clone(), title: self.title.clone(), content: self.content.clone() }
    }
}

impl PartialEq for Note {
    fn eq(&self, other: &Note) -> (same: bool) {
        self.id == other.id && self.title == other.title && self.content == other.content
    }
}

impl vstd::std_specs::cmp::PartialEqSpecImpl for Note {
    open spec fn obeys_eq_spec() -> bool {
        true
    }

    /// Two notes are equal when their three texts are.
    open spec fn eq_spec(&self, other: &Note) -> bool {
        self@ == other@
    }
}

} // verus!
