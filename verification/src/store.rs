//! The note store and its operations.

use crate::ident::id_from_clock;
use crate::model::{holds_at, lemma_index_is_unique, StoreView};
use crate::note::{Note, NoteView};
use crate::selection::Selection;
use vstd::prelude::*;

verus! {

/// The notes of one session, the selection and the draft title.
///
/// No two notes of a store bear the same identifier. The fields are private
/// and every operation keeps it so.
pub struct NoteStore {
    notes: Vec<Note>,
    selected: Selection,
    draft: String,
}

impl View for NoteStore {
    type V = StoreView;

    closed spec fn view(&self) -> StoreView {
        StoreView { notes: views(self.notes@), selection: self.selected@, draft: self.draft@ }
    }
}

/// The values of a list of notes.
spec fn views(notes: Seq<Note>) -> Seq<NoteView> {
    notes.map_values(|note: Note| note@)
}

impl NoteStore {
    #[verifier::type_invariant]
    spec fn ids_are_distinct(self) -> bool {
        self@.distinct_ids()
    }

    /// A store as every session starts with it.
    pub fn initialize() -> (store: NoteStore)
        ensures
            store@ == StoreView::initial(),
            store@.distinct_ids(),
    {
        let first = Note {
            id: String::from_str("1"),
            title: String::from_str("My First Note"),
            content: String::from_str("Welcome to my note app!"),
        };
        let mut notes: Vec<Note> = Vec::new();
        notes.push(first);
        NoteStore {
            notes,
            selected: Selection::Selected(String::from_str("1")),
            draft: String::new(),
        }
    }

    /// The index of the note that bears `id`, if there is one.
    fn position(&self, id: &String) -> (at: Option<usize>)
        ensures
            match at {
                Some(i) => holds_at(self@.notes, id@, i as int) && self@.index_of(id@) == i,
                None => !self@.contains_id(id@),
            },
            (at is Some) == self@.contains_id(id@),
    {
        proof {
            use_type_invariant(self);
        }
        let mut i: usize = 0;
        while i < self.notes.len()
            invariant
                i <= self.notes.len(),
                self@.distinct_ids(),
                forall|k: int| 0 <= k < i ==> !#[trigger] holds_at(self@.notes, id@, k),
            decreases self.notes.len() - i,
        {
            if self.notes[i].id == *id {
                proof {
                    lemma_index_is_unique(self@, id@, i as int);
                }
                return Some(i);
            }
            i += 1;
        }
        None
    }

    /// Takes the list of notes out of the store and leaves an empty one. An
    /// operation changes the list it took and puts it back when it is done, so
    /// that the store never holds a list in the making.
    fn take_notes(&mut self) -> (notes: Vec<Note>)
        ensures
            views(notes@) == old(self)@.notes,
            final(self)@ == (StoreView { notes: Seq::empty(), ..old(self)@ }),
    {
        let mut notes: Vec<Note> = Vec::new();
        std::mem::swap(&mut notes, &mut self.notes);
        notes
    }

    /// The notes, oldest first.
    pub fn notes(&self) -> (notes: &Vec<Note>)
        ensures
            notes@.len() == self@.notes.len(),
            forall|i: int| 0 <= i < notes@.len() ==> (#[trigger] notes@[i])@ == self@.notes[i],
            self@.distinct_ids(),
    {
        proof {
            use_type_invariant(self);
        }
        &self.notes
    }

    /// The number of notes.
    pub fn len(&self) -> (count: usize)
        ensures
            count == self@.notes.len(),
    {
        self.notes.len()
    }

    /// Whether the store holds no note.
    pub fn is_empty(&self) -> (empty: bool)
        ensures
            empty == (self@.notes.len() == 0),
    {
        self.notes.len() == 0
    }

    /// The selection.
    pub fn selection(&self) -> (selection: &Selection)
        ensures
            selection@ == self@.selection,
    {
        &self.selected
    }

    /// The draft title.
    pub fn draft(&self) -> (draft: &String)
        ensures
            draft@ == self@.draft,
    {
        &self.draft
    }

    /// Whether a note bears `id`.
    pub fn contains(&self, id: &str) -> (found: bool)
        ensures
            found == self@.contains_id(id@),
    {
        let key = String::from_str(id);
        self.position(&key).is_some()
    }

    /// The note that bears `id`, if there is one.
    pub fn get(&self, id: &str) -> (found: Option<&Note>)
        ensures
            match found {
                Some(note) => self@.note_of(id@) == Some(note@),
                None => self@.note_of(id@) == None::<NoteView>,
            },
    {
        let key = String::from_str(id);
        match self.position(&key) {
            Some(at) => Some(&self.notes[at]),
            None => None,
        }
    }

    /// Whether `id` is the selected identifier.
    pub fn is_selected(&self, id: &str) -> (selected: bool)
        ensures
            selected == (self@.selection == Some(id@)),
    {
        self.selected.selects(id)
    }

    /// The selected note: none where nothing is selected, and none where the
    /// selected identifier is that of no note.
    pub fn get_selected(&self) -> (found: Option<&Note>)
        ensures
            match found {
                Some(note) => self@.selected_note() == Some(note@),
                None => self@.selected_note() == None::<NoteView>,
            },
    {
        match &self.selected {
            Selection::Selected(id) => match self.position(id) {
                Some(at) => Some(&self.notes[at]),
                None => None,
            },
            Selection::NoSelection => None,
        }
    }

    /// Replaces the draft title by `text`.
    pub fn set_draft(&mut self, text: String)
        ensures
            final(self)@ == old(self)@.with_draft(text@),
            final(self)@.distinct_ids(),
    {
        proof {
            use_type_invariant(&*self);
        }
        self.draft = text;
    }

    /// Selects `id`, whether or not a note bears it.
    pub fn select_note(&mut self, id: String)
        ensures
            final(self)@ == old(self)@.with_selection(id@),
            final(self)@.distinct_ids(),
    {
        proof {
            use_type_invariant(&*self);
        }
        self.selected = Selection::Selected(id);
    }

    /// Creates a note from the draft, at the clock reading `clock_millis`.
    ///
    /// With an empty draft nothing happens. Otherwise the note gets the
    /// reading, in decimal, as its identifier, the draft as its title and an
    /// empty content; it is selected and the draft is cleared. A note that
    /// already bears the identifier is replaced by the new one.
    pub fn add_note(&mut self, clock_millis: u64)
        ensures
            final(self)@ == old(self)@.after_add(clock_millis),
            final(self)@.distinct_ids(),
    {
        proof {
            use_type_invariant(&*self);
        }
        if self.draft.as_str().is_empty() {
            return ;
        }
        let ghost before = self@;
        let id = id_from_clock(clock_millis);
        let found = self.position(&id);
        let mut title = String::new();
        std::mem::swap(&mut title, &mut self.draft);
        let note = Note { id: id.clone(), title, content: String::new() };
        let mut notes = self.take_notes();
        match found {
            Some(at) => {
                notes[at] = note;
                assert(views(notes@) =~= before.notes.update(
                    at as int,
                    before.new_note(clock_millis),
                ));
            },
            None => {
                notes.push(note);
                assert(views(notes@) =~= before.notes.push(before.new_note(clock_millis)));
                assert forall|i: int| 0 <= i < before.notes.len() implies before.notes[i].id
                    != id@ by {
                    assert(!holds_at(before.notes, id@, i));
                }
            },
        }
        self.notes = notes;
        self.selected = Selection::Selected(id);
    }

    /// Deletes the selected note, if there is one, and selects the oldest note
    /// that is left, or nothing where none is left.
    pub fn delete_selected(&mut self)
        ensures
            final(self)@ == old(self)@.after_delete(),
            final(self)@.distinct_ids(),
    {
        proof {
            use_type_invariant(&*self);
        }
        let ghost before = self@;
        let found = match &self.selected {
            Selection::Selected(id) => self.position(id),
            Selection::NoSelection => None,
        };
        if let Some(at) = found {
            let mut notes = self.take_notes();
            notes.remove(at);
            assert(views(notes@) =~= before.notes.remove(at as int));
            self.notes = notes;
        }
        if self.notes.len() > 0 {
            self.selected = Selection::Selected(self.notes[0].id.clone());
        } else {
            self.selected = Selection::NoSelection;
        }
    }

    /// Gives the note that bears `id` the title `title`; does nothing where no
    /// note bears `id`.
    pub fn update_title(&mut self, id: &str, title: String)
        ensures
            final(self)@ == old(self)@.with_title(id@, title@),
            final(self)@.distinct_ids(),
    {
        proof {
            use_type_invariant(&*self);
        }
        let ghost before = self@;
        let key = String::from_str(id);
        if let Some(at) = self.position(&key) {
            let mut notes = self.take_notes();
            notes[at].title = title;
            assert(views(notes@) =~= before.notes.update(
                at as int,
                NoteView { title: title@, ..before.notes[at as int] },
            ));
            self.notes = notes;
        }
    }

    /// Gives the note that bears `id` the content `content`; does nothing
    /// where no note bears `id`.
    pub fn update_content(&mut self, id: &str, content: String)
        ensures
            final(self)@ == old(self)@.with_content(id@, content@),
            final(self)@.distinct_ids(),
    {
        proof {
            use_type_invariant(&*self);
        }
        let ghost before = self@;
        let key = String::from_str(id);
        if let Some(at) = self.position(&key) {
            let mut notes = self.take_notes();
            notes[at].content = content;
            assert(views(notes@) =~= before.notes.update(
                at as int,
                NoteView { content: content@, ..before.notes[at as int] },
            ));
            self.notes = notes;
        }
    }
}

} // verus!
