use notes_api::json::{JsonDocument, JsonField};
use notes_api::module::categories::models::{Category, CategoryRow};
use notes_api::module::default::models::{mentions_field, FieldOperations, JsonColumnError, SqlType};
use notes_api::module::notes::models::{Note, NoteRow};
use notes_api::module::tags::models::{copy_tags, Tag, TagRow};

fn text(s: &str) -> Option<String> {
    Some(s.to_string())
}

fn keys(m: &ordermap::OrderMap<String, JsonField>) -> Vec<String> {
    m.keys().cloned().collect()
}

#[test]
fn tag_from_row_takes_mentioned_columns() {
    let row = TagRow {
        id: 7,
        name: Some(text("home")),
        description: Some(None),
        color: Some(text("red")),
    };
    let tag = Tag::from_row_option(&row, "tags.name, tags.color").unwrap();
    assert_eq!(tag.id, 7);
    assert_eq!(tag.name.as_deref(), Some("home"));
    assert_eq!(tag.description, None);
    assert_eq!(tag.color.as_deref(), Some("red"));
    let tag = Tag::from_row_option(&row, "name, color").unwrap();
    assert_eq!((tag.id, tag.name, tag.color), (7, None, None));
}

#[test]
fn tag_map_lists_present_columns_in_order() {
    let tag = Tag { id: 3, name: text("n"), description: None, color: text("c") };
    let m = tag.to_filtered_map();
    assert_eq!(keys(&m), vec!["id", "name", "color"]);
    assert!(matches!(m.get("id"), Some(JsonField::Int(3))));
    assert!(matches!(m.get("color"), Some(JsonField::Text(c)) if c == "c"));
}

#[test]
fn row_coverage() {
    let row = TagRow { id: 1, name: None, description: Some(None), color: None };
    assert!(row.covers("tags.description"));
    assert!(!row.covers("tags.description, tags.name"));
    assert!(row.covers("name"));
    assert!(mentions_field(" a ,b", "a"));
    assert!(!mentions_field("ab", "a"));
}

#[test]
fn category_round_trip_through_map() {
    let row = CategoryRow { id: 9, title: Some(text("t")), description: Some(text("d")) };
    assert!(row.covers("categories.title"));
    let c = Category::from_row_option(&row, "categories.title").unwrap();
    assert_eq!((c.id, c.title.as_deref(), c.description.as_deref()), (9, Some("t"), None));
    let m = c.to_filtered_map();
    assert_eq!(keys(&m), vec!["id", "title"]);
    let full = Category::from_row_option(&row, "categories.title,categories.description").unwrap();
    assert_eq!(keys(&full.to_filtered_map()), vec!["id", "title", "description"]);
}

#[test]
fn category_fields() {
    let f = Category::get_fields_string();
    assert_eq!(f.db.all, "categories.id, categories.title, categories.description");
    assert_eq!(f.db.without_id, "categories.title, categories.description");
    assert_eq!(f.searchs, "title, description");
    assert_eq!(f.conditionals, "");
}

#[test]
fn note_and_tag_fields() {
    let f = Note::get_fields_string();
    assert_eq!(f.db.all, "notes.id, notes.title, notes.details, notes.done, notes.rank, notes.tags");
    assert_eq!(f.db.without_id, "notes.title, notes.details, notes.done, notes.rank, notes.tags");
    assert_eq!(f.db.without_id_ship, "notes.title, notes.details, notes.done, notes.rank");
    assert_eq!(f.searchs, "title, details");
    assert_eq!(f.conditionals, "done, rank");
    let f = Tag::get_fields_string();
    assert_eq!(f.db.all, "tags.id, tags.name, tags.description, tags.color");
    assert_eq!(f.db.without_id, "tags.name, tags.description, tags.color");
    assert_eq!(f.db.without_id_ship, "");
    assert_eq!(f.searchs, "name, description, color");
    assert_eq!(f.conditionals, "");
}

#[test]
fn note_from_row_with_tags() {
    let tags = vec![Tag { id: 1, name: text("a"), description: None, color: None }];
    let row = NoteRow {
        id: 5,
        title: Some(text("buy")),
        details: None,
        done: Some(Some(true)),
        rank: Some(None),
        tags: Some(Some(tags)),
    };
    let fields = "notes.title, notes.done, notes.rank, notes.tags";
    assert!(row.covers(fields));
    assert!(!row.covers("notes.details"));
    let n = Note::from_row_option(&row, fields).unwrap();
    assert_eq!(n.id, 5);
    assert_eq!(n.title.as_deref(), Some("buy"));
    assert_eq!(n.details, None);
    assert_eq!(n.done, Some(true));
    assert_eq!(n.rank, None);
    assert_eq!(n.tags.as_ref().map(|t| t.len()), Some(1));
    let m = n.to_filtered_map();
    assert_eq!(keys(&m), vec!["id", "title", "done", "tags"]);
    assert!(matches!(m.get("done"), Some(JsonField::Bool(true))));
    assert!(matches!(m.get("tags"), Some(JsonField::Tags(t)) if t.len() == 1 && t[0].id == 1));
}

#[test]
fn note_map_with_every_column() {
    let n = Note { id: 1, title: text("t"), details: text("d"), done: Some(false), rank: Some(4), tags: Some(vec![]) };
    let m = n.to_filtered_map();
    assert_eq!(keys(&m), vec!["id", "title", "details", "done", "rank", "tags"]);
    assert!(matches!(m.get("rank"), Some(JsonField::Int(4))));
}

#[test]
fn copying_tags_keeps_them() {
    let v = vec![Tag { id: 2, name: text("x"), description: text("y"), color: None }];
    let c = copy_tags(&v);
    assert_eq!(c.len(), 1);
    assert_eq!((c[0].id, c[0].name.as_deref(), c[0].description.as_deref(), c[0].color.as_deref()), (2, Some("x"), Some("y"), None));
}

#[test]
fn json_column_checks() {
    assert!(matches!(FieldOperations::from_sql_json(SqlType::Json, b"[1,2]"), Ok(v) if v.len() == 2));
    assert!(matches!(FieldOperations::from_sql_json(SqlType::Jsonb, b"[]"), Ok(v) if v.is_empty()));
    assert!(matches!(FieldOperations::from_sql_json(SqlType::Other, b"[1]"), Err(JsonColumnError::IncompatibleType)));
    assert!(matches!(FieldOperations::from_sql_json(SqlType::Jsonb, b"{\"a\":1}"), Err(JsonColumnError::NotAnArray)));
    assert!(matches!(FieldOperations::from_sql_json(SqlType::Json, b"nope"), Err(JsonColumnError::Parse(_))));
}

#[test]
fn json_array_items_by_shape() {
    let items = vec![serde_json::Value::Bool(true)];
    assert!(matches!(FieldOperations::json_array_items(Ok(JsonDocument::Array(items))), Ok(v) if v.len() == 1));
    assert!(matches!(
        FieldOperations::json_array_items(Ok(JsonDocument::Other(serde_json::Value::Null))),
        Err(JsonColumnError::NotAnArray)
    ));
    let e = serde_json::from_str::<serde_json::Value>("{").unwrap_err();
    assert!(matches!(FieldOperations::json_array_items(Err(e)), Err(JsonColumnError::Parse(_))));
}

#[test]
fn object_keys_never_repeat() {
    let n = Note { id: 1, title: text("a"), details: None, done: Some(true), rank: Some(2), tags: None };
    let k = keys(&n.to_filtered_map());
    let mut sorted = k.clone();
    sorted.sort();
    sorted.dedup();
    assert_eq!(sorted.len(), k.len());
    assert_eq!(k[0], "id");
}

#[test]
fn json_column_hands_back_the_array_elements() {
    let items = FieldOperations::from_sql_json(SqlType::Jsonb, b"[1, \"a\", {\"id\": 2}]").unwrap();
    let mut object = serde_json::Map::new();
    object.insert("id".to_string(), serde_json::Value::from(2));
    assert_eq!(
        items,
        vec![serde_json::Value::from(1), serde_json::Value::from("a"), serde_json::Value::Object(object)]
    );
}
