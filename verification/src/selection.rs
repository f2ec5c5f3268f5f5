//! Which note, if any, is selected.

use vstd::prelude::*;

verus! {

/// The selection of a store.
///
/// `Selected` holds an identifier, which need not be that of a note in the
/// store: selecting is never refused. `NoSelection` is what a store has once
/// its last note is deleted.
#[derive(Debug)]
pub enum Selection {
    Selected(String),
    NoSelection,
}

impl View for Selection {
    type V = Option<Seq<char>>;

    open spec fn view(&self) -> Option<Seq<char>> {
        match self {
            Selection::Selected(id) => Some(id@),
            Selection::NoSelection => None,
        }
    }
}

impl Selection {
    /// The selected identifier, if any.
    pub fn id(&self) -> (id: Option<&String>)
        ensures
            match id {
                Some(text) => self@ == Some(text@),
                None => self@ == None::<Seq<char>>,
            },
    {
        match self {
            Selection::Selected(id) => Some(id),
            Selection::NoSelection => None,
        }
    }

    /// Whether `id` is the selected identifier.
    pub fn selects(&self, id: &str) -> (same: bool)
        ensures
            same == (self@ == Some(id@)),
    {
        match self {
            Selection::Selected(selected) => *selected == String::from_str(id),
            Selection::NoSelection => false,
        }
    }
}

impl Clone for Selection {
    fn clone(&self) -> (copy: Selection)
        ensures
            copy@ == self@,
    {
        match self {
            Selection::Selected(id) => Selection::Selected(id.clone()),
            Selection::NoSelection => Selection::NoSelection,
        }
    }
}

impl PartialEq for Selection {
    fn eq(&self, other: &Selection) -> (same: bool) {
        match (self, other) {
            (Selection::Selected(a), Selection::Selected(b)) => *a == *b,
            (Selection::NoSelection, Selection::NoSelection) => true,
            _ => false,
        }
    }
}

impl vstd::std_specs::cmp::PartialEqSpecImpl for Selection {
    open spec fn obeys_eq_spec() -> bool {
        true
    }

    /// Two selections are equal when both hold the same identifier or both
    /// hold none.
    open spec fn eq_spec(&self, other: &Selection) -> bool {
        self@ == other@
    }
}

} // verus!
