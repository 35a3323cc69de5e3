use vstd::prelude::*;
use ordermap::OrderMap;
use crate::json::{FieldValue, lemma_key_absent, ordermap_entries, ordermap_insert, ordermap_new, JsonField};
use crate::module::default::models::{
    column_value, has_column, lemma_mentioned_occurs, mentions_field, picked, text_column,
};
use crate::module::tags::models::text_entry;
use crate::text::{contains_str, lemma_contains_push, split, split_on, str_eq, str_views, trim_each, trimmed};
use crate::utils::querys::{DbFields, Fields};

verus! {

/// The categories that a JSON column holds.
#[derive(Debug)]
pub struct CategoryVec(pub Vec<Category>);

/// A category.
#[derive(Debug, Default)]
pub struct Category {
    pub id: i64,
    pub title: Option<String>,
    pub description: Option<String>,
}

/// The body of a request that creates a category.
#[derive(Debug)]
pub struct CategoryUseCreate {
    pub title: String,
    pub description: String,
}

/// The body of a request that updates a category.
#[derive(Debug)]
pub struct CategoryUseUpdate {
    pub id: i64,
    pub title: Option<String>,
    pub description: Option<String>,
}

/// The body of a request that deletes categories.
#[derive(Debug)]
pub struct Ids {
    pub ids: Vec<i64>,
}

/// One `categories` row as the database returned it: `id` always; for each
/// other column `None` when the query did not select it, else its value.
#[derive(Debug)]
pub struct CategoryRow {
    pub id: i64,
    pub title: Option<Option<String>>,
    pub description: Option<Option<String>>,
}

/// The row holds every column that the column list mentions.
pub open spec fn category_row_covers(row: CategoryRow, fields: Seq<char>) -> bool {
    &&& has_column(fields, "categories.title"@, row.title)
    &&& has_column(fields, "categories.description"@, row.description)
}

/// The category that a row gives for a column list: its id, and each
/// column that the list mentions.
pub open spec fn category_of_row(row: CategoryRow, fields: Seq<char>) -> Category {
    Category {
        id: row.id,
        title: picked(fields, "categories.title"@, row.title),
        description: picked(fields, "categories.description"@, row.description),
    }
}

/// The JSON object of a category: `id`, then each present column in order.
pub open spec fn category_entries(c: Category) -> Seq<(Seq<char>, FieldValue)> {
    seq![("id"@, FieldValue::Int(c.id))] + text_entry("title"@, c.title) + text_entry(
        "description"@,
        c.description,
    )
}

impl CategoryRow {
    /// Whether the row holds every column that the column list mentions.
    pub fn covers(&self, fields: &str) -> (b: bool)
        ensures
            b == category_row_covers(*self, fields@),
    {
        (!mentions_field(fields, "categories.title") || self.title.is_some()) && (
        !mentions_field(fields, "categories.description") || self.description.is_some())
    }
}

impl Category {
    /// The category that a row gives for the column list `fields`: its id,
    /// and each column that the list mentions.
    pub fn from_row_option(row: &CategoryRow, fields: &str) -> (r: Result<Category, &'static str>)
        requires
            category_row_covers(*row, fields@),
        ensures
            r == Ok::<Category, &'static str>(category_of_row(*row, fields@)),
    {
        let fields_ = trim_each(&split(fields, ','));
        let ghost items = split_on(fields@, ',').map_values(|e: Seq<char>| trimmed(e));
        let mut category = Category { id: row.id, title: None, description: None };
        let n = fields_.len();
        for i in 0..n
            invariant
                n == fields_@.len(),
                str_views(fields_@) == items,
                items == split_on(fields@, ',').map_values(|e: Seq<char>| trimmed(e)),
                category.id == row.id,
                category.title == (if items.take(i as int).contains("categories.title"@) {
                    column_value(row.title)
                } else {
                    None
                }),
                category.description == (if items.take(i as int).contains(
                    "categories.description"@,
                ) {
                    column_value(row.description)
                } else {
                    None
                }),
        {
            let field = fields_[i];
            proof {
                reveal_strlit("categories.title");
                reveal_strlit("categories.description");
                assert(items.take(i + 1) =~= items.take(i as int).push(field@));
                assert(items[i as int] == field@);
                assert(items.contains(field@));
                lemma_contains_push(items.take(i as int), field@, "categories.title"@);
                lemma_contains_push(items.take(i as int), field@, "categories.description"@);
            }
            if str_eq(field, "categories.title") {
                proof {
                    lemma_mentioned_occurs(fields@, "categories.title"@);
                }
                if contains_str(fields, "categories.title") {
                    category.title = text_column(&row.title);
                } else {
                    category.title = None;
                }
            } else if str_eq(field, "categories.description") {
                proof {
                    lemma_mentioned_occurs(fields@, "categories.description"@);
                }
                if contains_str(fields, "categories.description") {
                    category.description = text_column(&row.description);
                } else {
                    category.description = None;
                }
            }
        }
        assert(items.take(n as int) =~= items);
        Ok(category)
    }

    /// The category as a JSON object: `id`, then each column that has a value.
    pub fn to_filtered_map(&self) -> (r: OrderMap<String, JsonField>)
        ensures
            ordermap_entries(r) == category_entries(*self),
    {
        proof {
            reveal_strlit("id");
            reveal_strlit("title");
            reveal_strlit("description");
            assert("id"@.len() == 2);
            assert("title"@.len() == 5);
            assert("description"@.len() == 11);
        }
        let mut map = ordermap_new();
        ordermap_insert(&mut map, String::from_str("id"), JsonField::Int(self.id));
        assert(ordermap_entries(map) =~= seq![("id"@, FieldValue::Int(self.id))]);
        if let Some(title) = &self.title {
            proof {
                lemma_key_absent(ordermap_entries(map), "title"@);
            }
            ordermap_insert(&mut map, String::from_str("title"), JsonField::Text(title.clone()));
        }
        assert(ordermap_entries(map) =~= seq![("id"@, FieldValue::Int(self.id))] + text_entry(
            "title"@,
            self.title,
        ));
        if let Some(description) = &self.description {
            proof {
                lemma_key_absent(ordermap_entries(map), "description"@);
            }
            ordermap_insert(
                &mut map,
                String::from_str("description"),
                JsonField::Text(description.clone()),
            );
        }
        assert(ordermap_entries(map) =~= category_entries(*self));
        map
    }

    /// The column lists of the `categories` table.
    pub fn get_fields_string() -> (r: Fields)
        ensures
            r.db.all@ == "categories.id, categories.title, categories.description"@,
            r.db.without_id@ == "categories.title, categories.description"@,
            r.db.without_id_ship@ == "categories.title, categories.description"@,
            r.searchs@ == "title, description"@,
            r.conditionals@ == ""@,
    {
        Fields {
            db: DbFields {
                all: String::from_str("categories.id, categories.title, categories.description"),
                without_id: String::from_str("categories.title, categories.description"),
                without_id_ship: String::from_str("categories.title, categories.description"),
            },
            searchs: String::from_str("title, description"),
            conditionals: String::from_str(""),
        }
    }
}

} // verus!
