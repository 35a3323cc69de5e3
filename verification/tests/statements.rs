use notes_api::migrations::{migration_path, split_sql_commands};
use notes_api::module::categories::controller::{
    category_maps, categories_of_rows, plan_get_many_categories, plan_get_one_category, plan_update_category,
};
use notes_api::module::categories::models::{CategoryRow, CategoryUseUpdate};
use notes_api::module::default::types::QuerysParams;
use notes_api::module::notes::controller::{
    note_columns_for, note_delete_fields, note_list_response, note_maps, notes_of_rows, plan_create_note,
    plan_get_many_notes, plan_get_one_note, plan_update_note,
};
use notes_api::module::notes::models::{NoteRow, NoteUseCreate, NoteUseUpdate};
use notes_api::utils::statements::{
    first_row, found_rows, ids_placeholders, list_response, plan_delete, plan_list, SqlParam,
};
use notes_api::module::tags::models::Tag;

fn text(s: &str) -> Option<String> {
    Some(s.to_string())
}

const LIST: &str = "SELECT id$table_fields FROM t $_SEARCH_ ORDER BY $sort_field $sort_order LIMIT $limit_pag OFFSET $offset_pag";

#[test]
fn listing_statement_for_tags() {
    let q = QuerysParams {
        search: text("x"),
        sort: text("name:desc"),
        limit: Some(5),
        pag: Some(2),
        ..Default::default()
    };
    let plan = plan_list(LIST, &Tag::get_fields_string(), &q);
    assert_eq!(plan.valid_fields, "tags.name, tags.description, tags.color");
    assert_eq!(
        plan.stmt,
        "SELECT idtags.name, tags.description, tags.color FROM t CONCAT(name,description,color) ILIKE '%x%' ORDER BY name DESC LIMIT 5 OFFSET 5"
    );
    assert_eq!((plan.limit, plan.pag, plan.without), (5, 2, false));
    assert_eq!(plan.search, "x");
    assert_eq!(plan.sort, "name:desc");
}

#[test]
fn listing_statement_for_categories() {
    let q = QuerysParams::default();
    let plan = plan_get_many_categories(LIST, &q);
    assert_eq!(
        plan.stmt,
        "SELECT idcategories.title, categories.description FROM t  ORDER BY id ASC LIMIT 10 OFFSET 0"
    );
    let r = list_response(plan, vec!["a", "b"], 7);
    assert_eq!(r.pagination.count, 2);
    assert_eq!(r.pagination.count_total, 7);
    assert_eq!(r.filters.conditionals, "");
    assert_eq!(r.filters.sort, "id:ASC");
}

#[test]
fn one_category_statement() {
    let q = QuerysParams { fields: text("title"), ..Default::default() };
    let (stmt, fields) = plan_get_one_category("SELECT id, $table_fields FROM c WHERE id = $id_category", -3, &q);
    assert_eq!(fields, "title");
    assert_eq!(stmt, "SELECT id, title FROM c WHERE id = -3");
}

#[test]
fn category_rows_to_objects() {
    let rows = vec![
        CategoryRow { id: 1, title: Some(text("a")), description: None },
        CategoryRow { id: 2, title: Some(None), description: None },
    ];
    let maps = category_maps(&rows, "categories.title");
    assert_eq!(maps.len(), 2);
    assert_eq!(maps[0].keys().cloned().collect::<Vec<_>>(), vec!["id", "title"]);
    assert_eq!(maps[1].keys().cloned().collect::<Vec<_>>(), vec!["id"]);
    let cats = categories_of_rows(&rows, "categories.title");
    assert_eq!(cats[1].id, 2);
    assert_eq!(cats[0].title.as_deref(), Some("a"));
}

#[test]
fn placeholders() {
    assert_eq!(ids_placeholders(0), "");
    assert_eq!(ids_placeholders(3), "$1, $2, $3");
    assert_eq!(plan_delete("DELETE FROM t WHERE id IN ($ids)", &vec![4, 8]), "DELETE FROM t WHERE id IN ($1, $2)");
}

#[test]
fn category_update_numbers_after_id() {
    let body = CategoryUseUpdate { id: 4, title: None, description: text("d") };
    let (stmt, params) = plan_update_category("UPDATE c SET $set_clause WHERE id = $1", body);
    assert_eq!(stmt, "UPDATE c SET description = $2 WHERE id = $1");
    assert_eq!(params.len(), 2);
    assert!(matches!(params[0], SqlParam::Int(4)));
    assert!(matches!(&params[1], SqlParam::OptText(Some(d)) if d == "d"));
    let body = CategoryUseUpdate { id: 4, title: text("t"), description: text("d") };
    let (stmt, params) = plan_update_category("SET $set_clause", body);
    assert_eq!(stmt, "SET title = $2, description = $3");
    assert_eq!(params.len(), 3);
}

#[test]
fn note_update_all_columns() {
    let body = NoteUseUpdate { id: 1, title: text("t"), details: text("d"), done: Some(true), rank: Some(3) };
    let (stmt, params, fields) = plan_update_note("SET $set_clause;", body);
    assert_eq!(stmt, "SET title = $2, details = $3, done = $4, rank = $5;");
    assert_eq!(params.len(), 5);
    assert!(matches!(params[3], SqlParam::OptBool(Some(true))));
    assert!(matches!(params[4], SqlParam::OptInt(Some(3))));
    assert_eq!(fields, "notes.title, notes.details, notes.done, notes.rank");
    let body = NoteUseUpdate { id: 1, title: None, details: None, done: None, rank: Some(0) };
    let (stmt, params, _) = plan_update_note("SET $set_clause;", body);
    assert_eq!(stmt, "SET rank = $2;");
    assert_eq!(params.len(), 2);
}

#[test]
fn note_create_defaults() {
    let body = NoteUseCreate { title: "t".to_string(), details: "d".to_string(), done: None, rank: None };
    let (fields, params) = plan_create_note(body);
    assert_eq!(fields, "notes.title, notes.details, notes.done, notes.rank");
    assert!(matches!(params[2], SqlParam::Bool(false)));
    assert!(matches!(params[3], SqlParam::Int(0)));
    assert!(matches!(&params[0], SqlParam::Text(t) if t == "t"));
    assert_eq!(note_delete_fields(), "notes.title, notes.details, notes.done, notes.rank");
}

#[test]
fn note_columns_with_tags() {
    let c = note_columns_for("title, details, tags", "SELECT json_agg(x $fields_relationship)");
    assert_eq!(c.row_fields, "notes.title, notes.details, notes.tags");
    assert_eq!(c.consult, ", notes.title, notes.details");
    assert_eq!(
        c.relationship,
        ", SELECT json_agg(x , 'name', tags.name, 'description', tags.description, 'color', tags.color)"
    );
    let c = note_columns_for("tags", "R");
    assert_eq!(c.consult, "");
    assert_eq!(c.relationship, ", R");
    let c = note_columns_for("title", "R");
    assert_eq!(c.relationship, "");
}

#[test]
fn note_listing_and_one() {
    let q = QuerysParams { fields: text("title,tags"), ..Default::default() };
    let (plan, row_fields) = plan_get_many_notes(
        "SELECT notes.id$table_fields$relationship FROM notes $_SEARCH_ ORDER BY $sort_field $sort_order LIMIT $limit_pag OFFSET $offset_pag",
        "T",
        &q,
    );
    assert_eq!(plan.valid_fields, "title, tags");
    assert_eq!(row_fields, "notes.title, notes.tags");
    assert_eq!(plan.stmt, "SELECT notes.id, notes.title, T FROM notes  ORDER BY id ASC LIMIT 10 OFFSET 0");
    assert!(note_list_response(plan, vec![], 0).is_none());
    let (stmt, fields) = plan_get_one_note("S$table_fields$relationship W $id_note", "T", 12, &q);
    assert_eq!(fields, "title, tags");
    assert_eq!(stmt, "S, notes.title, T W 12");
}

#[test]
fn note_rows_to_objects() {
    let rows = vec![NoteRow { id: 3, title: Some(text("a")), details: None, done: None, rank: None, tags: None }];
    let maps = note_maps(&rows, "notes.title");
    assert_eq!(maps[0].keys().cloned().collect::<Vec<_>>(), vec!["id", "title"]);
    let notes = notes_of_rows(&rows, "title");
    assert_eq!(notes[0].title, None);
}

#[test]
fn first_and_found_rows() {
    assert_eq!(first_row(vec![3, 4]), Some(3));
    assert_eq!(first_row::<i32>(vec![]), None);
    assert_eq!(found_rows(vec![1]), Some(vec![1]));
    assert_eq!(found_rows::<i32>(vec![]), None);
}

#[test]
fn migration_scripts() {
    assert_eq!(split_sql_commands("CREATE A;\n\n  INSERT B ;  ; "), vec!["CREATE A", "INSERT B"]);
    assert!(split_sql_commands("  ").is_empty());
    assert_eq!(migration_path("001_init"), "migrations/001_init.sql");
}
