use note_store::{Note, NoteStore, Selection};

fn text(s: &str) -> String {
    s.to_string()
}

fn ids(store: &NoteStore) -> Vec<String> {
    store.notes().iter().map(|note| note.id.clone()).collect()
}

fn store_with(titles_and_clocks: &[(&str, u64)]) -> NoteStore {
    let mut store = NoteStore::initialize();
    for (title, clock) in titles_and_clocks {
        store.set_draft(text(title));
        store.add_note(*clock);
    }
    store
}

#[test]
fn initialize_seeds_one_selected_note() {
    let store = NoteStore::initialize();
    assert_eq!(store.len(), 1);
    assert!(!store.is_empty());
    let first = Note::new(text("1"), text("My First Note"), text("Welcome to my note app!"));
    assert_eq!(store.notes()[0], first);
    assert_eq!(store.selection(), &Selection::Selected(text("1")));
    assert_eq!(store.get_selected(), Some(&first));
    assert_eq!(store.draft(), "");
}

#[test]
fn add_note_appends_selects_and_clears_the_draft() {
    let mut store = NoteStore::initialize();
    store.set_draft(text("Groceries"));
    assert_eq!(store.draft(), "Groceries");
    store.add_note(1_700_000_000_123);
    assert_eq!(store.len(), 2);
    let added = Note::new(text("1700000000123"), text("Groceries"), text(""));
    assert_eq!(store.notes()[1], added);
    assert_eq!(store.notes()[0].id, "1");
    assert_eq!(store.selection(), &Selection::Selected(text("1700000000123")));
    assert_eq!(store.get_selected(), Some(&added));
    assert_eq!(store.draft(), "");
}

#[test]
fn add_note_with_empty_draft_changes_nothing() {
    let mut store = NoteStore::initialize();
    store.add_note(1_700_000_000_123);
    assert_eq!(store.len(), 1);
    assert_eq!(store.notes()[0].id, "1");
    assert_eq!(store.selection(), &Selection::Selected(text("1")));
    assert_eq!(store.draft(), "");

    store.set_draft(text(""));
    store.add_note(5);
    assert_eq!(store.len(), 1);
    assert_eq!(store.selection(), &Selection::Selected(text("1")));
}

#[test]
fn add_note_takes_a_blank_title_as_it_is() {
    let mut store = NoteStore::initialize();
    store.set_draft(text(" "));
    store.add_note(42);
    assert_eq!(store.len(), 2);
    assert_eq!(store.get_selected(), Some(&Note::new(text("42"), text(" "), text(""))));
}

#[test]
fn add_note_keeps_the_order_of_creation() {
    let store = store_with(&[("a", 30), ("b", 20), ("c", 10)]);
    assert_eq!(ids(&store), vec![text("1"), text("30"), text("20"), text("10")]);
    assert_eq!(store.selection(), &Selection::Selected(text("10")));
}

#[test]
fn add_note_at_rising_readings_creates_one_note_each() {
    let mut store = NoteStore::initialize();
    let mut expected = vec![text("1")];
    for (count, clock) in [2u64, 3, 10, 11, 99, 100, 1_700_000_000_000].into_iter().enumerate() {
        store.set_draft(format!("note {count}"));
        store.add_note(clock);
        expected.push(clock.to_string());
        assert_eq!(store.len(), count + 2);
        let added = Note::new(clock.to_string(), format!("note {count}"), text(""));
        assert_eq!(store.get_selected(), Some(&added));
    }
    assert_eq!(ids(&store), expected);
}

#[test]
fn add_note_at_a_used_reading_replaces_the_note() {
    let mut store = store_with(&[("a", 500), ("b", 600)]);
    store.update_content("500", text("kept until replaced"));
    store.set_draft(text("again"));
    store.add_note(500);
    assert_eq!(store.len(), 3);
    assert_eq!(ids(&store), vec![text("1"), text("500"), text("600")]);
    assert_eq!(store.get("500"), Some(&Note::new(text("500"), text("again"), text(""))));
    assert_eq!(store.selection(), &Selection::Selected(text("500")));
    assert_eq!(store.draft(), "");
}

#[test]
fn add_note_at_reading_one_replaces_the_first_note() {
    let mut store = NoteStore::initialize();
    store.set_draft(text("Groceries"));
    store.add_note(1);
    assert_eq!(store.len(), 1);
    assert_eq!(store.get_selected(), Some(&Note::new(text("1"), text("Groceries"), text(""))));
}

#[test]
fn ids_stay_distinct_over_many_adds() {
    let mut store = NoteStore::initialize();
    for round in 0..3 {
        for clock in 0..40u64 {
            store.set_draft(format!("note {round}/{clock}"));
            store.add_note(clock);
        }
    }
    assert_eq!(store.len(), 40);
    let mut seen = ids(&store);
    seen.sort();
    seen.dedup();
    assert_eq!(seen.len(), store.len());
    assert_eq!(store.get("39").map(|note| note.title.as_str()), Some("note 2/39"));
}

#[test]
fn set_draft_replaces_the_draft_only() {
    let mut store = NoteStore::initialize();
    store.set_draft(text("Gro"));
    store.set_draft(text("Groceries"));
    assert_eq!(store.draft(), "Groceries");
    assert_eq!(store.len(), 1);
    assert_eq!(store.selection(), &Selection::Selected(text("1")));
}

#[test]
fn select_note_takes_any_identifier() {
    let mut store = store_with(&[("a", 7)]);
    store.select_note(text("1"));
    assert_eq!(store.get_selected().map(|note| note.id.as_str()), Some("1"));
    assert!(store.is_selected("1"));
    assert!(!store.is_selected("7"));

    store.select_note(text("no such note"));
    assert_eq!(store.selection(), &Selection::Selected(text("no such note")));
    assert_eq!(store.selection().id(), Some(&text("no such note")));
    assert!(store.is_selected("no such note"));
    assert_eq!(store.get_selected(), None);
    assert_eq!(store.len(), 2);
}

#[test]
fn contains_and_get_find_notes_by_identifier() {
    let store = store_with(&[("a", 7)]);
    assert!(store.contains("1"));
    assert!(store.contains("7"));
    assert!(!store.contains("07"));
    assert!(!store.contains(""));
    assert_eq!(store.get("7"), Some(&Note::new(text("7"), text("a"), text(""))));
    assert_eq!(store.get("8"), None);
}

#[test]
fn update_title_shows_in_the_selected_note() {
    let mut store = NoteStore::initialize();
    store.update_title("1", text("X"));
    let expected = Note::new(text("1"), text("X"), text("Welcome to my note app!"));
    assert_eq!(store.get_selected(), Some(&expected));
    assert_eq!(store.len(), 1);
    assert_eq!(store.selection(), &Selection::Selected(text("1")));
}

#[test]
fn update_title_of_a_note_that_is_not_selected() {
    let mut store = store_with(&[("a", 7), ("b", 8)]);
    store.update_title("7", text("renamed"));
    assert_eq!(store.get("7"), Some(&Note::new(text("7"), text("renamed"), text(""))));
    assert_eq!(store.get("8"), Some(&Note::new(text("8"), text("b"), text(""))));
    assert_eq!(store.get_selected().map(|note| note.id.as_str()), Some("8"));
    assert_eq!(ids(&store), vec![text("1"), text("7"), text("8")]);
}

#[test]
fn update_title_of_an_unknown_id_changes_nothing() {
    let mut store = store_with(&[("a", 7)]);
    store.update_title("nowhere", text("X"));
    assert_eq!(store.len(), 2);
    assert_eq!(store.notes()[0].title, "My First Note");
    assert_eq!(store.notes()[1].title, "a");
    assert_eq!(store.selection(), &Selection::Selected(text("7")));
}

#[test]
fn update_content_replaces_the_content_only() {
    let mut store = store_with(&[("a", 7)]);
    store.update_content("7", text("milk, eggs"));
    assert_eq!(store.get("7"), Some(&Note::new(text("7"), text("a"), text("milk, eggs"))));
    store.update_content("7", text(""));
    assert_eq!(store.get("7"), Some(&Note::new(text("7"), text("a"), text(""))));
    assert_eq!(store.notes()[0].content, "Welcome to my note app!");
}

#[test]
fn update_content_of_an_unknown_id_changes_nothing() {
    let mut store = NoteStore::initialize();
    store.update_content("2", text("lost"));
    assert_eq!(store.len(), 1);
    assert_eq!(store.notes()[0].content, "Welcome to my note app!");
}

#[test]
fn delete_selected_among_several_selects_a_remaining_note() {
    let mut store = store_with(&[("a", 7), ("b", 8)]);
    assert_eq!(store.selection(), &Selection::Selected(text("8")));
    store.delete_selected();
    assert_eq!(ids(&store), vec![text("1"), text("7")]);
    assert!(!store.contains("8"));
    assert_eq!(store.selection(), &Selection::Selected(text("1")));
    assert_eq!(store.get_selected().map(|note| note.title.as_str()), Some("My First Note"));
}

#[test]
fn delete_selected_of_the_oldest_note_selects_the_next() {
    let mut store = store_with(&[("a", 7), ("b", 8)]);
    store.select_note(text("1"));
    store.delete_selected();
    assert_eq!(ids(&store), vec![text("7"), text("8")]);
    assert_eq!(store.selection(), &Selection::Selected(text("7")));
}

#[test]
fn delete_selected_of_the_only_note_leaves_nothing_selected() {
    let mut store = NoteStore::initialize();
    store.delete_selected();
    assert!(store.is_empty());
    assert_eq!(store.len(), 0);
    assert_eq!(store.selection(), &Selection::NoSelection);
    assert_eq!(store.selection().id(), None);
    assert_eq!(store.get_selected(), None);
    assert!(!store.is_selected("1"));
}

#[test]
fn delete_selected_on_an_empty_store_does_nothing() {
    let mut store = NoteStore::initialize();
    store.delete_selected();
    store.delete_selected();
    assert!(store.is_empty());
    assert_eq!(store.selection(), &Selection::NoSelection);

    store.set_draft(text("back"));
    store.add_note(9);
    assert_eq!(ids(&store), vec![text("9")]);
    assert_eq!(store.selection(), &Selection::Selected(text("9")));
}

#[test]
fn delete_selected_with_an_unknown_selection_removes_nothing() {
    let mut store = NoteStore::initialize();
    store.select_note(text("zzz"));
    store.delete_selected();
    assert_eq!(ids(&store), vec![text("1")]);
    assert_eq!(store.selection(), &Selection::Selected(text("1")));

    let mut store = store_with(&[("a", 7)]);
    store.select_note(text("zzz"));
    store.delete_selected();
    assert_eq!(ids(&store), vec![text("1"), text("7")]);
    assert_eq!(store.selection(), &Selection::Selected(text("1")));
}

#[test]
fn delete_selected_keeps_the_draft() {
    let mut store = NoteStore::initialize();
    store.set_draft(text("half typed"));
    store.delete_selected();
    assert_eq!(store.draft(), "half typed");
}
