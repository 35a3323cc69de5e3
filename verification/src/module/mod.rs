pub mod categories;
pub mod default;
pub mod notes;
pub mod notes_tags;
pub mod tags;
