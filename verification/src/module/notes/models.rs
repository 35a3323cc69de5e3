use vstd::prelude::*;
use ordermap::OrderMap;
use crate::json::{FieldValue, lemma_key_absent, ordermap_entries, ordermap_insert, ordermap_new, JsonField};
use crate::module::default::models::{
    column_value, has_column, lemma_mentioned_occurs, mentions_field, picked, text_column,
};
use crate::module::tags::models::{copy_tags, text_entry, Tag};
use crate::text::{contains_str, lemma_contains_push, split, split_on, str_eq, str_views, trim_each, trimmed};
use crate::utils::querys::{DbFields, Fields};

verus! {

/// A note, with the tags attached to it when they were asked for.
#[derive(Debug, Default)]
pub struct Note {
    pub id: i64,
    pub title: Option<String>,
    pub details: Option<String>,
    pub done: Option<bool>,
    pub rank: Option<i64>,
    pub tags: Option<Vec<Tag>>,
}

/// The body of a request that creates a note.
#[derive(Debug)]
pub struct NoteUseCreate {
    pub title: String,
    pub details: String,
    pub done: Option<bool>,
    pub rank: Option<i64>,
}

/// The body of a request that attaches tags to, or detaches them from, a note.
#[derive(Debug)]
pub struct AddTagsInNote {
    pub tag_ids: Option<Vec<i64>>,
    pub note_id: Option<i64>,
}

/// The body of a request that updates a note.
#[derive(Debug)]
pub struct NoteUseUpdate {
    pub id: i64,
    pub title: Option<String>,
    pub details: Option<String>,
    pub done: Option<bool>,
    pub rank: Option<i64>,
}

/// The body of a request that deletes notes.
#[derive(Debug)]
pub struct Ids {
    pub ids: Vec<i64>,
}

/// One `notes` row as the database returned it: `id` always; for each
/// other column `None` when the query did not select it, else its value.
#[derive(Debug)]
pub struct NoteRow {
    pub id: i64,
    pub title: Option<Option<String>>,
    pub details: Option<Option<String>>,
    pub done: Option<Option<bool>>,
    pub rank: Option<Option<i64>>,
    pub tags: Option<Option<Vec<Tag>>>,
}

/// The row holds every column that the column list mentions.
pub open spec fn note_row_covers(row: NoteRow, fields: Seq<char>) -> bool {
    &&& has_column(fields, "notes.title"@, row.title)
    &&& has_column(fields, "notes.details"@, row.details)
    &&& has_column(fields, "notes.done"@, row.done)
    &&& has_column(fields, "notes.rank"@, row.rank)
    &&& has_column(fields, "notes.tags"@, row.tags)
}

/// The tags of a note, as a sequence.
pub open spec fn tags_view(o: Option<Vec<Tag>>) -> Option<Seq<Tag>> {
    match o {
        Some(v) => Some(v@),
        None => None,
    }
}

/// `note` is what a row gives for a column list: its id, and each column
/// that the list mentions.
pub open spec fn note_of_row(note: Note, row: NoteRow, fields: Seq<char>) -> bool {
    &&& note.id == row.id
    &&& note.title == picked(fields, "notes.title"@, row.title)
    &&& note.details == picked(fields, "notes.details"@, row.details)
    &&& note.done == picked(fields, "notes.done"@, row.done)
    &&& note.rank == picked(fields, "notes.rank"@, row.rank)
    &&& tags_view(note.tags) == tags_view(picked(fields, "notes.tags"@, row.tags))
}

pub open spec fn bool_entry(key: Seq<char>, value: Option<bool>) -> Seq<(Seq<char>, FieldValue)> {
    match value {
        Some(v) => seq![(key, FieldValue::Bool(v))],
        None => Seq::<(Seq<char>, FieldValue)>::empty(),
    }
}

pub open spec fn int_entry(key: Seq<char>, value: Option<i64>) -> Seq<(Seq<char>, FieldValue)> {
    match value {
        Some(v) => seq![(key, FieldValue::Int(v))],
        None => Seq::<(Seq<char>, FieldValue)>::empty(),
    }
}

pub open spec fn tags_entry(key: Seq<char>, value: Option<Seq<Tag>>) -> Seq<(Seq<char>, FieldValue)> {
    match value {
        Some(v) => seq![(key, FieldValue::Tags(v))],
        None => Seq::<(Seq<char>, FieldValue)>::empty(),
    }
}

/// The JSON object of a note: `id`, then each present column in order.
pub open spec fn note_entries(n: Note) -> Seq<(Seq<char>, FieldValue)> {
    seq![("id"@, FieldValue::Int(n.id))] + text_entry("title"@, n.title) + text_entry(
        "details"@,
        n.details,
    ) + bool_entry("done"@, n.done) + int_entry("rank"@, n.rank) + tags_entry("tags"@, tags_view(n.tags))
}

/// The JSON object of the note that a row gives for a column list.
pub open spec fn note_row_entries(row: NoteRow, fields: Seq<char>) -> Seq<(Seq<char>, FieldValue)> {
    seq![("id"@, FieldValue::Int(row.id))] + text_entry("title"@, picked(fields, "notes.title"@, row.title))
        + text_entry("details"@, picked(fields, "notes.details"@, row.details)) + bool_entry(
        "done"@,
        picked(fields, "notes.done"@, row.done),
    ) + int_entry("rank"@, picked(fields, "notes.rank"@, row.rank)) + tags_entry(
        "tags"@,
        tags_view(picked(fields, "notes.tags"@, row.tags)),
    )
}

/// The value of a tags column of a row.
fn tags_column(c: &Option<Option<Vec<Tag>>>) -> (r: Option<Vec<Tag>>)
    ensures
        tags_view(r) == tags_view(column_value(*c)),
{
    match c {
        Some(Some(v)) => {
            let copy = copy_tags(v);
            Some(copy)
        },
        _ => None,
    }
}

impl NoteRow {
    /// Whether the row holds every column that the column list mentions.
    pub fn covers(&self, fields: &str) -> (b: bool)
        ensures
            b == note_row_covers(*self, fields@),
    {
        (!mentions_field(fields, "notes.title") || self.title.is_some()) && (!mentions_field(
            fields,
            "notes.details",
        ) || self.details.is_some()) && (!mentions_field(fields, "notes.done")
            || self.done.is_some()) && (!mentions_field(fields, "notes.rank")
            || self.rank.is_some()) && (!mentions_field(fields, "notes.tags")
            || self.tags.is_some())
    }
}

impl Note {
    /// The note that a row gives for the column list `fields`: its id, and
    /// each column that the list mentions.
    pub fn from_row_option(row: &NoteRow, fields: &str) -> (r: Result<Note, &'static str>)
        requires
            note_row_covers(*row, fields@),
        ensures
            r matches Ok(note) && note_of_row(note, *row, fields@),
    {
        let fields_ = trim_each(&split(fields, ','));
        let ghost items = split_on(fields@, ',').map_values(|e: Seq<char>| trimmed(e));
        let mut note = Note { id: row.id, title: None, details: None, done: None, rank: None, tags: None };
        let n = fields_.len();
        for i in 0..n
            invariant
                n == fields_@.len(),
                str_views(fields_@) == items,
                items == split_on(fields@, ',').map_values(|e: Seq<char>| trimmed(e)),
                note.id == row.id,
                note.title == (if items.take(i as int).contains("notes.title"@) {
                    column_value(row.title)
                } else {
                    None
                }),
                note.details == (if items.take(i as int).contains("notes.details"@) {
                    column_value(row.details)
                } else {
                    None
                }),
                note.done == (if items.take(i as int).contains("notes.done"@) {
                    column_value(row.done)
                } else {
                    None
                }),
                note.rank == (if items.take(i as int).contains("notes.rank"@) {
                    column_value(row.rank)
                } else {
                    None
                }),
                tags_view(note.tags) == (if items.take(i as int).contains("notes.tags"@) {
                    tags_view(column_value(row.tags))
                } else {
                    None
                }),
        {
            let field = fields_[i];
            proof {
                reveal_strlit("notes.title");
                reveal_strlit("notes.details");
                reveal_strlit("notes.done");
                reveal_strlit("notes.rank");
                reveal_strlit("notes.tags");
                assert("notes.done"@[6] == 'd');
                assert("notes.rank"@[6] == 'r');
                assert("notes.tags"@[6] == 't');
                assert(items.take(i + 1) =~= items.take(i as int).push(field@));
                assert(items[i as int] == field@);
                assert(items.contains(field@));
                lemma_contains_push(items.take(i as int), field@, "notes.title"@);
                lemma_contains_push(items.take(i as int), field@, "notes.details"@);
                lemma_contains_push(items.take(i as int), field@, "notes.done"@);
                lemma_contains_push(items.take(i as int), field@, "notes.rank"@);
                lemma_contains_push(items.take(i as int), field@, "notes.tags"@);
            }
            if str_eq(field, "notes.title") {
                proof {
                    lemma_mentioned_occurs(fields@, "notes.title"@);
                }
                if contains_str(fields, "notes.title") {
                    note.title = text_column(&row.title);
                } else {
                    note.title = None;
                }
            } else if str_eq(field, "notes.details") {
                proof {
                    lemma_mentioned_occurs(fields@, "notes.details"@);
                }
                if contains_str(fields, "notes.details") {
                    note.details = text_column(&row.details);
                } else {
                    note.details = None;
                }
            } else if str_eq(field, "notes.done") {
                proof {
                    lemma_mentioned_occurs(fields@, "notes.done"@);
                }
                if contains_str(fields, "notes.done") {
                    note.done = match row.done {
                        Some(v) => v,
                        None => None,
                    };
                } else {
                    note.done = None;
                }
            } else if str_eq(field, "notes.rank") {
                proof {
                    lemma_mentioned_occurs(fields@, "notes.rank"@);
                }
                if contains_str(fields, "notes.rank") {
                    note.rank = match row.rank {
                        Some(v) => v,
                        None => None,
                    };
                } else {
                    note.rank = None;
                }
            } else if str_eq(field, "notes.tags") {
                proof {
                    lemma_mentioned_occurs(fields@, "notes.tags"@);
                }
                if contains_str(fields, "notes.tags") {
                    note.tags = tags_column(&row.tags);
                } else {
                    note.tags = None;
                }
            }
        }
        assert(items.take(n as int) =~= items);
        assert(note_of_row(note, *row, fields@));
        Ok(note)
    }

    /// The note as a JSON object: `id`, then each column that has a value.
    pub fn to_filtered_map(&self) -> (r: OrderMap<String, JsonField>)
        ensures
            ordermap_entries(r) == note_entries(*self),
    {
        proof {
            reveal_strlit("id");
            reveal_strlit("title");
            reveal_strlit("details");
            reveal_strlit("done");
            reveal_strlit("rank");
            reveal_strlit("tags");
            assert("id"@.len() == 2);
            assert("title"@.len() == 5);
            assert("details"@.len() == 7);
            assert("done"@[0] == 'd');
            assert("rank"@[0] == 'r');
            assert("tags"@[0] == 't');
            assert("id"@[0] == 'i');
        }
        let ghost e0 = seq![("id"@, FieldValue::Int(self.id))];
        let mut map = ordermap_new();
        ordermap_insert(&mut map, String::from_str("id"), JsonField::Int(self.id));
        assert(ordermap_entries(map) =~= e0);
        if let Some(title) = &self.title {
            proof {
                lemma_key_absent(ordermap_entries(map), "title"@);
            }
            ordermap_insert(&mut map, String::from_str("title"), JsonField::Text(title.clone()));
        }
        let ghost e1 = e0 + text_entry("title"@, self.title);
        assert(ordermap_entries(map) =~= e1);
        if let Some(details) = &self.details {
            proof {
                lemma_key_absent(ordermap_entries(map), "details"@);
            }
            ordermap_insert(&mut map, String::from_str("details"), JsonField::Text(details.clone()));
        }
        let ghost e2 = e1 + text_entry("details"@, self.details);
        assert(ordermap_entries(map) =~= e2);
        if let Some(done) = &self.done {
            proof {
                lemma_key_absent(ordermap_entries(map), "done"@);
            }
            ordermap_insert(&mut map, String::from_str("done"), JsonField::Bool(*done));
        }
        let ghost e3 = e2 + bool_entry("done"@, self.done);
        assert(ordermap_entries(map) =~= e3);
        if let Some(rank) = &self.rank {
            proof {
                lemma_key_absent(ordermap_entries(map), "rank"@);
            }
            ordermap_insert(&mut map, String::from_str("rank"), JsonField::Int(*rank));
        }
        let ghost e4 = e3 + int_entry("rank"@, self.rank);
        assert(ordermap_entries(map) =~= e4);
        if let Some(tags) = &self.tags {
            proof {
                lemma_key_absent(ordermap_entries(map), "tags"@);
            }
            let copy = copy_tags(tags);
            assert(copy@ =~= tags@);
            ordermap_insert(&mut map, String::from_str("tags"), JsonField::Tags(copy));
        }
        assert(ordermap_entries(map) =~= note_entries(*self));
        map
    }

    /// The column lists of the `notes` table.
    pub fn get_fields_string() -> (r: Fields)
        ensures
            r.db.all@ == "notes.id, notes.title, notes.details, notes.done, notes.rank, notes.tags"@,
            r.db.without_id@ == "notes.title, notes.details, notes.done, notes.rank, notes.tags"@,
            r.db.without_id_ship@ == "notes.title, notes.details, notes.done, notes.rank"@,
            r.searchs@ == "title, details"@,
            r.conditionals@ == "done, rank"@,
    {
        Fields {
            db: DbFields {
                all: String::from_str(
                    "notes.id, notes.title, notes.details, notes.done, notes.rank, notes.tags",
                ),
                without_id: String::from_str(
                    "notes.title, notes.details, notes.done, notes.rank, notes.tags",
                ),
                without_id_ship: String::from_str("notes.title, notes.details, notes.done, notes.rank"),
            },
            searchs: String::from_str("title, details"),
            conditionals: String::from_str("done, rank"),
        }
    }
}

} // verus!
