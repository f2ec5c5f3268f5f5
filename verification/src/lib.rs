//! An in-memory note store: a list of notes found by identifier, one selected
//! note, and the draft title of the note to be created next.
//!
//! Every operation is total: on an input it cannot act on (an empty draft, an
//! unknown identifier) it leaves the store as it was.
//!
//! `store` holds the store and its operations, `model` the mathematical value
//! that their contracts speak of, and `laws` what is proved of that value.

pub mod ident;
pub mod laws;
pub mod model;
pub mod note;
pub mod preview;
pub mod selection;
pub mod store;

pub use note::Note;
pub use preview::preview_of;
pub use selection::Selection;
pub use store::NoteStore;
