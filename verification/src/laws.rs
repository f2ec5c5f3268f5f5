//! Laws of the note store: what holds of its operations on every store.
//!
//! Each law is stated over `StoreView`, the value that the contracts of the
//! operations speak of, so it holds of every `NoteStore` as well.

use crate::ident::{decimal, lemma_decimal_injective};
use crate::model::{holds_at, lemma_index_is_unique, StoreView};
use crate::note::NoteView;
use vstd::prelude::*;

verus! {

/// A new store holds exactly one note, whose identifier is `"1"`, and that
/// note is the selected one.
pub proof fn lemma_initial_store()
    ensures
        StoreView::initial().notes.len() == 1,
        StoreView::initial().notes[0].id == "1"@,
        StoreView::initial().distinct_ids(),
        StoreView::initial().selected_note() == Some(StoreView::first_note()),
{
    let store = StoreView::initial();
    lemma_index_is_unique(store, "1"@, 0);
}

/// Typing a draft changes neither the notes nor the selection.
pub proof fn lemma_draft_is_apart(store: StoreView, text: Seq<char>)
    ensures
        store.with_draft(text).draft == text,
        store.with_draft(text).notes == store.notes,
        store.with_draft(text).selection == store.selection,
        store.with_draft(text).selected_note() == store.selected_note(),
{
}

/// Selecting an identifier makes the note that bears it the selected note,
/// and leaves no note selected where no note bears it. The notes and the
/// draft stay as they were.
pub proof fn lemma_select_then_lookup(store: StoreView, id: Seq<char>)
    ensures
        store.with_selection(id).selected_note() == store.note_of(id),
        !store.contains_id(id) ==> store.with_selection(id).selected_note() == None::<NoteView>,
        store.with_selection(id).notes == store.notes,
        store.with_selection(id).draft == store.draft,
{
}

/// An add with an empty draft changes nothing.
pub proof fn lemma_add_with_empty_draft(store: StoreView, clock_millis: u64)
    requires
        store.draft.len() == 0,
    ensures
        store.after_add(clock_millis) == store,
{
}

/// An add with a draft, at a clock reading whose decimal no note bears yet,
/// makes the store one note longer. The notes that were there stay as they
/// were, and the new note stands last: the draft is its title and its content
/// is empty. It is the selected note, and the draft is empty afterwards.
pub proof fn lemma_add_with_new_id(store: StoreView, clock_millis: u64)
    requires
        store.draft.len() > 0,
        !store.contains_id(decimal(clock_millis as nat)),
    ensures
        ({
            let after = store.after_add(clock_millis);
            let note = store.new_note(clock_millis);
            &&& note == (NoteView {
                id: decimal(clock_millis as nat),
                title: store.draft,
                content: Seq::empty(),
            })
            &&& after.notes.len() == store.notes.len() + 1
            &&& after.notes.drop_last() == store.notes
            &&& after.notes.last() == note
            &&& after.selection == Some(note.id)
            &&& after.selected_note() == Some(note)
            &&& after.draft.len() == 0
        }),
{
    let after = store.after_add(clock_millis);
    let id = decimal(clock_millis as nat);
    let last = store.notes.len() as int;
    // The new note bears `id`, and no note before it does: a lookup finds it.
    assert(holds_at(after.notes, id, last));
    if after.index_of(id) < last {
        assert(holds_at(store.notes, id, after.index_of(id)));
    }
}

/// An add with a draft selects the note that it creates, whatever the clock
/// reading, and clears the draft. The store grows by one note, or keeps its
/// length where the new note took the place of one that bore its identifier.
pub proof fn lemma_add_selects_new_note(store: StoreView, clock_millis: u64)
    requires
        store.distinct_ids(),
        store.draft.len() > 0,
    ensures
        ({
            let after = store.after_add(clock_millis);
            let id = decimal(clock_millis as nat);
            &&& after.selected_note() == Some(store.new_note(clock_millis))
            &&& after.draft.len() == 0
            &&& after.notes.len() == if store.contains_id(id) {
                store.notes.len()
            } else {
                store.notes.len() + 1
            }
        }),
{
    let id = decimal(clock_millis as nat);
    lemma_add_keeps_ids_distinct(store, clock_millis);
    if store.contains_id(id) {
        lemma_index_is_unique(store.after_add(clock_millis), id, store.index_of(id));
    } else {
        lemma_add_with_new_id(store, clock_millis);
    }
}

/// An add never makes two notes bear the same identifier.
pub proof fn lemma_add_keeps_ids_distinct(store: StoreView, clock_millis: u64)
    requires
        store.distinct_ids(),
    ensures
        store.after_add(clock_millis).distinct_ids(),
{
    let after = store.after_add(clock_millis);
    let id = decimal(clock_millis as nat);
    if store.draft.len() > 0 && !store.contains_id(id) {
        assert forall|i: int, j: int| 0 <= i < j < after.notes.len() implies after.notes[i].id
            != after.notes[j].id by {
            if j == store.notes.len() {
                assert(!holds_at(store.notes, id, i));
            }
        }
    }
}

/// A new title for the note that bears `id` is what a lookup of `id` then
/// shows, and so what the selected note shows where `id` is selected. The
/// note keeps its identifier and content, and no other note changes.
pub proof fn lemma_title_update_is_seen(store: StoreView, id: Seq<char>, title: Seq<char>)
    requires
        store.distinct_ids(),
        store.contains_id(id),
    ensures
        ({
            let after = store.with_title(id, title);
            &&& after.distinct_ids()
            &&& after.note_of(id) == Some(NoteView { title, ..store.note_of(id)->0 })
            &&& store.selection == Some(id) ==> after.selected_note() == Some(
                NoteView { title, ..store.selected_note()->0 },
            )
            &&& after.notes.len() == store.notes.len()
            &&& forall|other: Seq<char>|
                other != id ==> after.note_of(other) == store.note_of(other)
            &&& after.selection == store.selection
            &&& after.draft == store.draft
        }),
{
    lemma_same_ids_same_lookup(store, store.with_title(id, title), store.index_of(id));
}

/// A new content for the note that bears `id` is what a lookup of `id` then
/// shows, and so what the selected note shows where `id` is selected. The
/// note keeps its identifier and title, and no other note changes.
pub proof fn lemma_content_update_is_seen(store: StoreView, id: Seq<char>, content: Seq<char>)
    requires
        store.distinct_ids(),
        store.contains_id(id),
    ensures
        ({
            let after = store.with_content(id, content);
            &&& after.distinct_ids()
            &&& after.note_of(id) == Some(NoteView { content, ..store.note_of(id)->0 })
            &&& store.selection == Some(id) ==> after.selected_note() == Some(
                NoteView { content, ..store.selected_note()->0 },
            )
            &&& after.notes.len() == store.notes.len()
            &&& forall|other: Seq<char>|
                other != id ==> after.note_of(other) == store.note_of(other)
            &&& after.selection == store.selection
            &&& after.draft == store.draft
        }),
{
    lemma_same_ids_same_lookup(store, store.with_content(id, content), store.index_of(id));
}

/// A new title or content for an identifier that no note bears changes
/// nothing.
pub proof fn lemma_update_of_unknown_id(store: StoreView, id: Seq<char>, text: Seq<char>)
    requires
        !store.contains_id(id),
    ensures
        store.with_title(id, text) == store,
        store.with_content(id, text) == store,
{
}

/// Two stores of one length whose notes bear the same identifiers, place by
/// place, and differ at most in the note at `at`, find every identifier at
/// the same place.
proof fn lemma_same_ids_same_lookup(store: StoreView, after: StoreView, at: int)
    requires
        store.distinct_ids(),
        0 <= at < store.notes.len(),
        after.notes.len() == store.notes.len(),
        forall|i: int| 0 <= i < store.notes.len() ==> after.notes[i].id == store.notes[i].id,
        forall|i: int| 0 <= i < store.notes.len() && i != at ==> after.notes[i] == store.notes[i],
    ensures
        after.distinct_ids(),
        forall|id: Seq<char>| after.contains_id(id) == store.contains_id(id),
        forall|id: Seq<char>| store.contains_id(id) ==> after.index_of(id) == store.index_of(id),
        forall|id: Seq<char>|
            id != store.notes[at].id ==> after.note_of(id) == store.note_of(id),
{
    assert forall|id: Seq<char>| after.contains_id(id) == store.contains_id(id) by {
        if store.contains_id(id) {
            assert(holds_at(after.notes, id, store.index_of(id)));
        }
        if after.contains_id(id) {
            assert(holds_at(store.notes, id, after.index_of(id)));
        }
    }
    assert forall|id: Seq<char>| store.contains_id(id) implies after.index_of(id)
        == store.index_of(id) by {
        lemma_index_is_unique(after, id, store.index_of(id));
    }
}

/// Where a note stood before the removal of the note at `at`, given where it
/// stands afterwards.
spec fn place_before(i: int, at: int) -> int {
    if i < at {
        i
    } else {
        i + 1
    }
}

/// A delete removes the selected note and no other: afterwards no note bears
/// the identifier that was selected, and every other identifier finds the
/// note that it found before. Where nothing was selected, or an identifier
/// that no note bore, the notes stay as they were.
pub proof fn lemma_delete_removes_one(store: StoreView)
    requires
        store.distinct_ids(),
    ensures
        ({
            let after = store.after_delete();
            &&& after.distinct_ids()
            &&& store.selected_note() is Some ==> after.notes.len() == store.notes.len() - 1
            &&& store.selected_note() is None ==> after.notes == store.notes
            &&& store.selection is Some ==> !after.contains_id(store.selection->0)
            &&& forall|id: Seq<char>|
                store.selection != Some(id) ==> after.note_of(id) == store.note_of(id)
        }),
{
    let after = store.after_delete();
    if store.selected_note() is Some {
        let gone = store.selection->0;
        let at = store.index_of(gone);
        assert forall|i: int| 0 <= i < after.notes.len() implies #[trigger] after.notes[i]
            == store.notes[place_before(i, at)] by {}
        if after.contains_id(gone) {
            lemma_index_is_unique(store, gone, place_before(after.index_of(gone), at));
        }
        assert forall|id: Seq<char>| store.selection != Some(id) implies after.note_of(id)
            == store.note_of(id) by {
            if store.contains_id(id) {
                let before = store.index_of(id);
                lemma_index_is_unique(after, id, if before < at { before } else { before - 1 });
            }
            if after.contains_id(id) {
                lemma_index_is_unique(store, id, place_before(after.index_of(id), at));
            }
        }
    }
}

/// After a delete the selection never dangles: it is the oldest note of the
/// store, or nothing where the store is empty. The draft is untouched.
pub proof fn lemma_delete_selects_what_is_left(store: StoreView)
    requires
        store.distinct_ids(),
    ensures
        ({
            let after = store.after_delete();
            &&& after.draft == store.draft
            &&& after.notes.len() == 0 ==> after.selection == None::<Seq<char>>
                && after.selected_note() == None::<NoteView>
            &&& after.notes.len() > 0 ==> after.selection == Some(after.notes[0].id)
                && after.selected_note() == Some(after.notes[0])
        }),
{
    let after = store.after_delete();
    lemma_delete_removes_one(store);
    if after.notes.len() > 0 {
        lemma_index_is_unique(after, after.notes[0].id, 0);
    }
}

/// A delete in a store of two notes or more leaves a note selected: one that
/// is in the store, and another than what was selected before. The note that
/// was selected is gone.
pub proof fn lemma_delete_among_several(store: StoreView)
    requires
        store.distinct_ids(),
        store.notes.len() >= 2,
    ensures
        ({
            let after = store.after_delete();
            &&& store.selected_note() is Some ==> after.notes.len() == store.notes.len() - 1
            &&& store.selection is Some ==> !after.contains_id(store.selection->0)
            &&& after.selection is Some
            &&& after.selection != store.selection
            &&& after.contains_id(after.selection->0)
            &&& after.selected_note() is Some
        }),
{
    lemma_delete_removes_one(store);
    lemma_delete_selects_what_is_left(store);
}

/// A delete in a store whose only note is the selected one leaves the store
/// empty, with nothing selected.
pub proof fn lemma_delete_of_only_note(store: StoreView)
    requires
        store.notes.len() == 1,
        store.selection == Some(store.notes[0].id),
    ensures
        store.after_delete().notes.len() == 0,
        store.after_delete().selection == None::<Seq<char>>,
        store.after_delete().selected_note() == None::<NoteView>,
{
    assert(holds_at(store.notes, store.notes[0].id, 0));
}

/// One operation on a store.
pub enum Step {
    /// The draft is replaced by the given text.
    SetDraft(Seq<char>),
    /// A note is added at the given clock reading.
    Add(u64),
    /// The selected note is deleted.
    DeleteSelected,
    /// The given identifier is selected.
    Select(Seq<char>),
    /// The note with the given identifier gets the given title.
    UpdateTitle(Seq<char>, Seq<char>),
    /// The note with the given identifier gets the given content.
    UpdateContent(Seq<char>, Seq<char>),
}

/// The store after one operation.
pub open spec fn step(store: StoreView, op: Step) -> StoreView {
    match op {
        Step::SetDraft(text) => store.with_draft(text),
        Step::Add(clock_millis) => store.after_add(clock_millis),
        Step::DeleteSelected => store.after_delete(),
        Step::Select(id) => store.with_selection(id),
        Step::UpdateTitle(id, title) => store.with_title(id, title),
        Step::UpdateContent(id, content) => store.with_content(id, content),
    }
}

/// The store after the operations `ops`, the first of them applied first.
pub open spec fn run(store: StoreView, ops: Seq<Step>) -> StoreView
    decreases ops.len(),
{
    if ops.len() == 0 {
        store
    } else {
        step(run(store, ops.drop_last()), ops.last())
    }
}

/// No operation makes two notes bear the same identifier.
pub proof fn lemma_step_keeps_ids_distinct(store: StoreView, op: Step)
    requires
        store.distinct_ids(),
    ensures
        step(store, op).distinct_ids(),
{
    match op {
        Step::SetDraft(_) => {},
        Step::Add(clock_millis) => {
            lemma_add_keeps_ids_distinct(store, clock_millis);
        },
        Step::DeleteSelected => {
            lemma_delete_removes_one(store);
        },
        Step::Select(_) => {},
        Step::UpdateTitle(id, title) => {
            if store.contains_id(id) {
                lemma_title_update_is_seen(store, id, title);
            }
        },
        Step::UpdateContent(id, content) => {
            if store.contains_id(id) {
                lemma_content_update_is_seen(store, id, content);
            }
        },
    }
}

/// Whatever is done to a store in which no two notes bear the same
/// identifier, in whatever order, no two notes of it ever do.
pub proof fn lemma_run_keeps_ids_distinct(store: StoreView, ops: Seq<Step>)
    requires
        store.distinct_ids(),
    ensures
        run(store, ops).distinct_ids(),
    decreases ops.len(),
{
    if ops.len() > 0 {
        lemma_run_keeps_ids_distinct(store, ops.drop_last());
        lemma_step_keeps_ids_distinct(run(store, ops.drop_last()), ops.last());
    }
}

/// In every store that a session can reach, no two notes bear the same
/// identifier.
pub proof fn lemma_ids_always_distinct(ops: Seq<Step>)
    ensures
        run(StoreView::initial(), ops).distinct_ids(),
{
    lemma_initial_store();
    lemma_run_keeps_ids_distinct(StoreView::initial(), ops);
}

/// The store after the adds `adds`, the first of them made first: each is the
/// title that was typed and the clock reading at which the note was added.
pub open spec fn after_adds(store: StoreView, adds: Seq<(Seq<char>, u64)>) -> StoreView
    decreases adds.len(),
{
    if adds.len() == 0 {
        store
    } else {
        after_adds(store, adds.drop_last()).with_draft(adds.last().0).after_add(adds.last().1)
    }
}

/// Adds to a new store, each with a title, at clock readings above `1` that
/// rise from one add to the next, create one note each. The store then holds
/// the first note and, in the order of their creation, one note per add: its
/// identifier is the reading in decimal, its title the one that was typed,
/// its content empty. The note of the last add is selected.
pub proof fn lemma_adds_at_rising_readings(adds: Seq<(Seq<char>, u64)>)
    requires
        forall|k: int| 0 <= k < adds.len() ==> (#[trigger] adds[k]).0.len() > 0 && adds[k].1 > 1,
        forall|j: int, k: int| 0 <= j < k < adds.len() ==> adds[j].1 < adds[k].1,
    ensures
        ({
            let after = after_adds(StoreView::initial(), adds);
            &&& after.distinct_ids()
            &&& after.notes.len() == 1 + adds.len()
            &&& after.notes[0] == StoreView::first_note()
            &&& forall|k: int|
                0 <= k < adds.len() ==> #[trigger] after.notes[k + 1] == (NoteView {
                    id: decimal(adds[k].1 as nat),
                    title: adds[k].0,
                    content: Seq::empty(),
                })
            &&& adds.len() > 0 ==> after.selection == Some(decimal(adds.last().1 as nat))
                && after.draft.len() == 0
        }),
    decreases adds.len(),
{
    lemma_initial_store();
    if adds.len() > 0 {
        let earlier = adds.drop_last();
        let (title, clock) = adds.last();
        lemma_adds_at_rising_readings(earlier);
        let before = after_adds(StoreView::initial(), earlier).with_draft(title);
        let id = decimal(clock as nat);
        assert forall|i: int| !holds_at(before.notes, id, i) by {
            if 0 <= i < before.notes.len() {
                if i == 0 {
                    reveal_strlit("1");
                    assert(before.notes[0].id =~= decimal(1));
                    if before.notes[0].id == id {
                        lemma_decimal_injective(1, clock as nat);
                    }
                } else {
                    assert(before.notes[(i - 1) + 1].id == decimal(earlier[i - 1].1 as nat));
                    if before.notes[i].id == id {
                        lemma_decimal_injective(adds[i - 1].1 as nat, clock as nat);
                    }
                }
            }
        }
        lemma_add_with_new_id(before, clock);
        lemma_add_keeps_ids_distinct(before, clock);
    }
}

} // verus!
