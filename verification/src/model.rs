//! The note store as a mathematical value, and what each operation makes of it.
//!
//! The contracts of the store's operations are stated over `StoreView`; the
//! laws that relate several operations are proved about it.

use crate::ident::decimal;
use crate::note::NoteView;
use vstd::prelude::*;

verus! {

/// What a store is in contracts.
#[verifier::ext_equal]
pub struct StoreView {
    /// The notes, oldest first.
    pub notes: Seq<NoteView>,
    /// The selected identifier, if any. It need not be that of a note.
    pub selection: Option<Seq<char>>,
    /// The title typed for the next note.
    pub draft: Seq<char>,
}

/// There is a note at index `i` of `notes` and `id` is its identifier.
pub open spec fn holds_at(notes: Seq<NoteView>, id: Seq<char>, i: int) -> bool {
    0 <= i < notes.len() && notes[i].id == id
}

/// Some note of `notes` bears the identifier `id`.
pub open spec fn has_id(notes: Seq<NoteView>, id: Seq<char>) -> bool {
    exists|i: int| #[trigger] holds_at(notes, id, i)
}

/// The index of a note of `notes` that bears `id`, where there is one.
pub open spec fn place_of(notes: Seq<NoteView>, id: Seq<char>) -> int {
    choose|i: int| #[trigger] holds_at(notes, id, i)
}

impl StoreView {
    /// Some note bears the identifier `id`.
    pub open spec fn contains_id(self, id: Seq<char>) -> bool {
        has_id(self.notes, id)
    }

    /// The index of a note that bears `id`, where there is one.
    pub open spec fn index_of(self, id: Seq<char>) -> int {
        place_of(self.notes, id)
    }

    /// No two notes bear the same identifier.
    pub open spec fn distinct_ids(self) -> bool {
        forall|i: int, j: int|
            #![trigger self.notes[i], self.notes[j]]
            0 <= i < j < self.notes.len() ==> self.notes[i].id != self.notes[j].id
    }

    /// The note that bears `id`, if there is one.
    pub open spec fn note_of(self, id: Seq<char>) -> Option<NoteView> {
        if self.contains_id(id) {
            Some(self.notes[self.index_of(id)])
        } else {
            None
        }
    }

    /// The note that the selection denotes: none where nothing is selected or
    /// the selected identifier is that of no note.
    pub open spec fn selected_note(self) -> Option<NoteView> {
        match self.selection {
            Some(id) => self.note_of(id),
            None => None,
        }
    }

    /// The note that every new store holds.
    pub open spec fn first_note() -> NoteView {
        NoteView { id: "1"@, title: "My First Note"@, content: "Welcome to my note app!"@ }
    }

    /// A new store: the first note alone, selected, and an empty draft.
    pub open spec fn initial() -> StoreView {
        StoreView {
            notes: seq![Self::first_note()],
            selection: Some(Self::first_note().id),
            draft: Seq::empty(),
        }
    }

    /// The store with `text` as its draft.
    pub open spec fn with_draft(self, text: Seq<char>) -> StoreView {
        StoreView { draft: text, ..self }
    }

    /// The store with `id` selected, whether or not a note bears it.
    pub open spec fn with_selection(self, id: Seq<char>) -> StoreView {
        StoreView { selection: Some(id), ..self }
    }

    /// The note that an add at the clock reading `clock_millis` creates.
    pub open spec fn new_note(self, clock_millis: u64) -> NoteView {
        NoteView { id: decimal(clock_millis as nat), title: self.draft, content: Seq::empty() }
    }

    /// The store after an add at the clock reading `clock_millis`.
    ///
    /// An empty draft changes nothing. Otherwise the new note is selected and
    /// the draft is cleared; the note goes to the end of the list, or, where a
    /// note already bears its identifier, takes that note's place.
    pub open spec fn after_add(self, clock_millis: u64) -> StoreView {
        let note = self.new_note(clock_millis);
        if self.draft.len() == 0 {
            self
        } else {
            StoreView {
                notes: if self.contains_id(note.id) {
                    self.notes.update(self.index_of(note.id), note)
                } else {
                    self.notes.push(note)
                },
                selection: Some(note.id),
                draft: Seq::empty(),
            }
        }
    }

    /// The notes that a delete leaves: all but the selected one.
    pub open spec fn notes_after_delete(self) -> Seq<NoteView> {
        match self.selection {
            Some(id) if self.contains_id(id) => self.notes.remove(self.index_of(id)),
            _ => self.notes,
        }
    }

    /// The store after a delete of the selected note: the oldest note that is
    /// left is selected, or nothing where none is left.
    pub open spec fn after_delete(self) -> StoreView {
        let notes = self.notes_after_delete();
        StoreView {
            notes,
            selection: if notes.len() > 0 {
                Some(notes[0].id)
            } else {
                None
            },
            draft: self.draft,
        }
    }

    /// The store with `title` as the title of the note that bears `id`;
    /// the store itself where no note does.
    pub open spec fn with_title(self, id: Seq<char>, title: Seq<char>) -> StoreView {
        if self.contains_id(id) {
            let at = self.index_of(id);
            StoreView { notes: self.notes.update(at, NoteView { title, ..self.notes[at] }), ..self }
        } else {
            self
        }
    }

    /// The store with `content` as the content of the note that bears `id`;
    /// the store itself where no note does.
    pub open spec fn with_content(self, id: Seq<char>, content: Seq<char>) -> StoreView {
        if self.contains_id(id) {
            let at = self.index_of(id);
            StoreView {
                notes: self.notes.update(at, NoteView { content, ..self.notes[at] }),
                ..self
            }
        } else {
            self
        }
    }
}

/// Where no two notes bear the same identifier, the index at which an
/// identifier is found is the one that `index_of` names.
pub proof fn lemma_index_is_unique(store: StoreView, id: Seq<char>, i: int)
    requires
        store.distinct_ids(),
        holds_at(store.notes, id, i),
    ensures
        store.contains_id(id),
        store.index_of(id) == i,
{
}

} // verus!
