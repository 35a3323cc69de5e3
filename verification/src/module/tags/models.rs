use vstd::prelude::*;
use ordermap::OrderMap;
use crate::json::{FieldValue, lemma_key_absent, ordermap_entries, ordermap_insert, ordermap_new, JsonField};
use crate::module::default::models::{
    copy_text, has_column, lemma_mentioned_occurs, mentions_field, picked, text_column,
};
use crate::text::{lemma_contains_push, contains_str, split, str_eq, str_views, trim_each, trimmed, split_on};
use crate::utils::querys::{DbFields, Fields};

verus! {

/// The tags that a JSON column holds.
#[derive(Debug)]
pub struct TagVec(pub Vec<Tag>);

/// A tag.
#[derive(Debug, Default)]
pub struct Tag {
    pub id: i64,
    pub name: Option<String>,
    pub description: Option<String>,
    pub color: Option<String>,
}

/// The body of a request that creates a tag.
#[derive(Debug)]
pub struct TagUseCreate {
    pub name: String,
    pub description: String,
    pub color: Option<String>,
}

/// The body of a request that updates a tag.
#[derive(Debug)]
pub struct TagUseUpdate {
    pub id: i64,
    pub name: Option<String>,
    pub description: Option<String>,
    pub color: Option<String>,
}

/// The body of a request that deletes tags.
#[derive(Debug)]
pub struct Ids {
    pub ids: Vec<i64>,
}

/// One `tags` row as the database returned it: `id` always; for each other
/// column `None` when the query did not select it, else its value.
#[derive(Debug)]
pub struct TagRow {
    pub id: i64,
    pub name: Option<Option<String>>,
    pub description: Option<Option<String>>,
    pub color: Option<Option<String>>,
}

/// The row holds every column that the column list mentions.
pub open spec fn tag_row_covers(row: TagRow, fields: Seq<char>) -> bool {
    &&& has_column(fields, "tags.name"@, row.name)
    &&& has_column(fields, "tags.description"@, row.description)
    &&& has_column(fields, "tags.color"@, row.color)
}

/// The tag that a row gives for a column list: its id, and each column
/// that the list mentions.
pub open spec fn tag_of_row(row: TagRow, fields: Seq<char>) -> Tag {
    Tag {
        id: row.id,
        name: picked(fields, "tags.name"@, row.name),
        description: picked(fields, "tags.description"@, row.description),
        color: picked(fields, "tags.color"@, row.color),
    }
}

/// One entry for a present value, none for an absent one.
pub open spec fn text_entry(key: Seq<char>, value: Option<String>) -> Seq<(Seq<char>, FieldValue)> {
    match value {
        Some(v) => seq![(key, FieldValue::Text(v@))],
        None => Seq::<(Seq<char>, FieldValue)>::empty(),
    }
}

/// The JSON object of a tag: `id`, then each present column in order.
pub open spec fn tag_entries(tag: Tag) -> Seq<(Seq<char>, FieldValue)> {
    seq![("id"@, FieldValue::Int(tag.id))] + text_entry("name"@, tag.name) + text_entry(
        "description"@,
        tag.description,
    ) + text_entry("color"@, tag.color)
}

impl TagRow {
    /// Whether the row holds every column that the column list mentions.
    pub fn covers(&self, fields: &str) -> (b: bool)
        ensures
            b == tag_row_covers(*self, fields@),
    {
        (!mentions_field(fields, "tags.name") || self.name.is_some()) && (!mentions_field(
            fields,
            "tags.description",
        ) || self.description.is_some()) && (!mentions_field(fields, "tags.color")
            || self.color.is_some())
    }
}

/// A copy of a tag.
pub fn copy_tag(t: &Tag) -> (r: Tag)
    ensures
        r == *t,
{
    Tag {
        id: t.id,
        name: copy_text(&t.name),
        description: copy_text(&t.description),
        color: copy_text(&t.color),
    }
}

/// A copy of a list of tags.
pub fn copy_tags(v: &Vec<Tag>) -> (r: Vec<Tag>)
    ensures
        r@ == v@,
{
    let mut out: Vec<Tag> = Vec::new();
    let n = v.len();
    for i in 0..n
        invariant
            n == v@.len(),
            out@ == v@.take(i as int),
    {
        out.push(copy_tag(&v[i]));
        assert(out@ =~= v@.take(i + 1));
    }
    assert(v@.take(n as int) =~= v@);
    out
}

impl Tag {
    /// The tag that a row gives for the column list `fields`: its id, and
    /// each column that the list mentions.
    pub fn from_row_option(row: &TagRow, fields: &str) -> (r: Result<Tag, &'static str>)
        requires
            tag_row_covers(*row, fields@),
        ensures
            r == Ok::<Tag, &'static str>(tag_of_row(*row, fields@)),
    {
        let fields_ = trim_each(&split(fields, ','));
        let ghost items = split_on(fields@, ',').map_values(|e: Seq<char>| trimmed(e));
        let mut tag = Tag { id: row.id, name: None, description: None, color: None };
        let n = fields_.len();
        for i in 0..n
            invariant
                n == fields_@.len(),
                str_views(fields_@) == items,
                items == split_on(fields@, ',').map_values(|e: Seq<char>| trimmed(e)),
                tag.id == row.id,
                tag.name == (if items.take(i as int).contains("tags.name"@) {
                    crate::module::default::models::column_value(row.name)
                } else {
                    None
                }),
                tag.description == (if items.take(i as int).contains("tags.description"@) {
                    crate::module::default::models::column_value(row.description)
                } else {
                    None
                }),
                tag.color == (if items.take(i as int).contains("tags.color"@) {
                    crate::module::default::models::column_value(row.color)
                } else {
                    None
                }),
        {
            let field = fields_[i];
            proof {
                reveal_strlit("tags.name");
                reveal_strlit("tags.description");
                reveal_strlit("tags.color");
                assert(items.take(i + 1) =~= items.take(i as int).push(field@));
                assert(items[i as int] == field@);
                assert(items.contains(field@));
                lemma_contains_push(items.take(i as int), field@, "tags.name"@);
                lemma_contains_push(items.take(i as int), field@, "tags.description"@);
                lemma_contains_push(items.take(i as int), field@, "tags.color"@);
            }
            if str_eq(field, "tags.name") {
                proof {
                    lemma_mentioned_occurs(fields@, "tags.name"@);
                }
                if contains_str(fields, "tags.name") {
                    tag.name = text_column(&row.name);
                } else {
                    tag.name = None;
                }
            } else if str_eq(field, "tags.description") {
                proof {
                    lemma_mentioned_occurs(fields@, "tags.description"@);
                }
                if contains_str(fields, "tags.description") {
                    tag.description = text_column(&row.description);
                } else {
                    tag.description = None;
                }
            } else if str_eq(field, "tags.color") {
                proof {
                    lemma_mentioned_occurs(fields@, "tags.color"@);
                }
                if contains_str(fields, "tags.color") {
                    tag.color = text_column(&row.color);
                } else {
                    tag.color = None;
                }
            }
        }
        assert(items.take(n as int) =~= items);
        Ok(tag)
    }

    /// The tag as a JSON object: `id`, then each column that has a value.
    pub fn to_filtered_map(&self) -> (r: OrderMap<String, JsonField>)
        ensures
            ordermap_entries(r) == tag_entries(*self),
    {
        proof {
            reveal_strlit("id");
            reveal_strlit("name");
            reveal_strlit("description");
            reveal_strlit("color");
            assert("id"@.len() == 2);
            assert("name"@.len() == 4);
            assert("description"@.len() == 11);
            assert("color"@.len() == 5);
        }
        let mut map = ordermap_new();
        ordermap_insert(&mut map, String::from_str("id"), JsonField::Int(self.id));
        assert(ordermap_entries(map) =~= seq![("id"@, FieldValue::Int(self.id))]);
        if let Some(name) = &self.name {
            proof { lemma_key_absent(ordermap_entries(map), "name"@); }
            ordermap_insert(&mut map, String::from_str("name"), JsonField::Text(name.clone()));
        }
        assert(ordermap_entries(map) =~= seq![("id"@, FieldValue::Int(self.id))] + text_entry("name"@, self.name));
        if let Some(description) = &self.description {
            proof { lemma_key_absent(ordermap_entries(map), "description"@); }
            ordermap_insert(&mut map, String::from_str("description"), JsonField::Text(description.clone()));
        }
        assert(ordermap_entries(map) =~= seq![("id"@, FieldValue::Int(self.id))] + text_entry("name"@, self.name) + text_entry("description"@, self.description));
        if let Some(color) = &self.color {
            proof { lemma_key_absent(ordermap_entries(map), "color"@); }
            ordermap_insert(&mut map, String::from_str("color"), JsonField::Text(color.clone()));
        }
        assert(ordermap_entries(map) =~= tag_entries(*self));
        map
    }

    /// The column lists of the `tags` table.
    pub fn get_fields_string() -> (r: Fields)
        ensures
            r.db.all@ == "tags.id, tags.name, tags.description, tags.color"@,
            r.db.without_id@ == "tags.name, tags.description, tags.color"@,
            r.db.without_id_ship@ == ""@,
            r.searchs@ == "name, description, color"@,
            r.conditionals@ == ""@,
    {
        Fields {
            db: DbFields {
                all: String::from_str("tags.id, tags.name, tags.description, tags.color"),
                without_id: String::from_str("tags.name, tags.description, tags.color"),
                without_id_ship: String::from_str(""),
            },
            searchs: String::from_str("name, description, color"),
            conditionals: String::from_str(""),
        }
    }
}

} // verus!
