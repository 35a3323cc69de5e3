use vstd::prelude::*;

verus! {

/// One link between a note and a tag.
#[derive(Debug, Default)]
pub struct NoteTags {
    pub id: i64,
    pub note_id: i64,
    pub tag_id: i64,
}

} // verus!
