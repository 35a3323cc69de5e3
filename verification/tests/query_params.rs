use notes_api::module::categories::models::Category;
use notes_api::module::default::models::{FieldOperations, GetResponseParams, get_response};
use notes_api::module::default::types::QuerysParams;
use notes_api::module::notes::models::Note;
use notes_api::module::tags::models::Tag;
use notes_api::utils::querys::{sort_order_for, get_conditionals, get_pagination, get_params, get_search, get_sort};

fn text(s: &str) -> Option<String> {
    Some(s.to_string())
}

#[test]
fn pagination_defaults() {
    let q = QuerysParams::default();
    assert_eq!(get_pagination(&q), (10, 1, 0));
}

#[test]
fn pagination_offset_is_previous_pages() {
    let q = QuerysParams { limit: Some(20), pag: Some(3), ..Default::default() };
    assert_eq!(get_pagination(&q), (20, 3, 40));
    let q = QuerysParams { limit: Some(255), pag: Some(2), ..Default::default() };
    assert_eq!(get_pagination(&q), (255, 2, 255));
}

#[test]
fn sort_default_and_empty() {
    let q = QuerysParams::default();
    assert_eq!(get_sort(&q), ("id:ASC".to_string(), "id".to_string(), "ASC".to_string()));
    let q = QuerysParams { sort: text(""), ..Default::default() };
    assert_eq!(get_sort(&q), ("".to_string(), "id".to_string(), "ASC".to_string()));
}

#[test]
fn sort_directions() {
    let cases = [
        ("title:DeSc", "title", "DESC"),
        ("rank:asc", "rank", "ASC"),
        ("rank:up", "rank", "ASC"),
        ("rank:DESC:x", "rank", "DESC"),
        ("title", "title", "ASC"),
        (":desc", "", "DESC"),
    ];
    for (sort, field, order) in cases {
        let q = QuerysParams { sort: text(sort), ..Default::default() };
        assert_eq!(get_sort(&q), (sort.to_string(), field.to_string(), order.to_string()), "{}", sort);
    }
}

#[test]
fn sort_order_is_asc_or_desc() {
    for sort in ["a:b", "a:DESC", "", "x", "a:", "a:dEsC "] {
        let q = QuerysParams { sort: text(sort), ..Default::default() };
        let (_, _, order) = get_sort(&q);
        assert!(order == "ASC" || order == "DESC");
    }
}

#[test]
fn search_on_note() {
    let f = Note::get_fields_string();
    let q = QuerysParams { search: text("milk"), ..Default::default() };
    let (s, fs, clause) = get_search(&f, &q);
    assert_eq!(s, "milk");
    assert_eq!(fs, "");
    assert_eq!(clause, "CONCAT(title,details) ILIKE '%milk%'");
}

#[test]
fn search_in_chosen_fields() {
    let f = Note::get_fields_string();
    let q = QuerysParams { search: text("x"), fields_search: text("details"), ..Default::default() };
    assert_eq!(get_search(&f, &q).2, "CONCAT(details) ILIKE '%x%'");
    let q = QuerysParams { search: text("x"), fields_search: text("details:title"), ..Default::default() };
    assert_eq!(get_search(&f, &q).2, "CONCAT(title,details) ILIKE '%x%'");
    let q = QuerysParams { search: text("x"), fields_search: text("foo"), ..Default::default() };
    assert_eq!(get_search(&f, &q).2, "CONCAT(title,details) ILIKE '%x%'");
}

#[test]
fn no_search_no_clause() {
    let f = Tag::get_fields_string();
    let q = QuerysParams { fields_search: text("name"), ..Default::default() };
    assert_eq!(get_search(&f, &q), ("".to_string(), "name".to_string(), "".to_string()));
}

#[test]
fn conditionals_build_where_clause() {
    let f = Note::get_fields_string();
    let q = QuerysParams { conditionals: text("done=true, rank=[1-5], title=false, bad"), ..Default::default() };
    assert_eq!(
        get_conditionals(&f, &q),
        (
            "done=true, rank=[1-5], title=false, bad".to_string(),
            "WHERE done is true AND rank BETWEEN 1 AND 5".to_string()
        )
    );
}

#[test]
fn conditionals_rejected_items() {
    let f = Note::get_fields_string();
    for c in ["a=b=c", "done=maybe", "rank=[1-2-3]", "rank=[]", "rank=[1-5"] {
        let q = QuerysParams { conditionals: text(c), ..Default::default() };
        assert_eq!(get_conditionals(&f, &q).1, "", "{}", c);
    }
    let q = QuerysParams::default();
    assert_eq!(get_conditionals(&f, &q), ("".to_string(), "".to_string()));
}

#[test]
fn conditionals_edge_cases() {
    let f = Note::get_fields_string();
    let q = QuerysParams { conditionals: text("=true"), ..Default::default() };
    assert_eq!(get_conditionals(&f, &q).1, "WHERE  is true");
    let q = QuerysParams { conditionals: text(" done = false ,rank=[ 2 - 9 ]"), ..Default::default() };
    assert_eq!(get_conditionals(&f, &q).1, "WHERE done is false AND rank BETWEEN 2 AND 9");
}

#[test]
fn params_default_selection() {
    let f = Note::get_fields_string();
    let q = QuerysParams::default();
    assert_eq!(
        get_params(&f, &q),
        ("".to_string(), false, "notes.title, notes.details, notes.done, notes.rank, notes.tags".to_string())
    );
}

#[test]
fn params_selected_fields() {
    let f = Note::get_fields_string();
    let q = QuerysParams { fields: text("done,title"), ..Default::default() };
    assert_eq!(get_params(&f, &q).2, "title, done");
    let q = QuerysParams { fields: text("title, done"), ..Default::default() };
    assert_eq!(get_params(&f, &q).2, "title");
}

#[test]
fn params_without_selected_fields() {
    let f = Note::get_fields_string();
    let q = QuerysParams { fields: text("title"), without: Some(true), ..Default::default() };
    assert_eq!(
        get_params(&f, &q),
        ("title".to_string(), true, "notes.details, notes.done, notes.rank, notes.tags".to_string())
    );
}

#[test]
fn params_unknown_fields_fall_back() {
    let f = Note::get_fields_string();
    let q = QuerysParams { fields: text("nothing"), ..Default::default() };
    assert_eq!(get_params(&f, &q).2, "title, details, done, rank, tags");
    let f = Category::get_fields_string();
    assert_eq!(get_params(&f, &q).2, "title, description");
}

#[test]
fn get_fields_drops_names_with_id() {
    let table = "tags.id, tags.name, tags.description, tags.color".to_string();
    assert_eq!(FieldOperations::get_fields(&table), vec!["name", "description", "color"]);
    let table = "video, idea, name".to_string();
    assert_eq!(FieldOperations::get_fields(&table), vec!["name"]);
}

#[test]
fn get_select_fields_keeps_table_order() {
    let table = "notes.title, notes.details, notes.done".to_string();
    let asked = vec!["done", "title", "zzz"];
    assert_eq!(FieldOperations::get_select_fields(&asked, &table), vec!["title", "done"]);
    let asked: Vec<&str> = vec![];
    assert!(FieldOperations::get_select_fields(&asked, &table).is_empty());
}

#[test]
fn get_fields_iterator_prefixes() {
    assert_eq!(
        FieldOperations::get_fields_iterator("title, notes.done,rank", "notes."),
        vec!["notes.title", "notes.done", "notes.rank"]
    );
    assert_eq!(FieldOperations::get_fields_iterator("", "notes."), vec!["notes."]);
}

#[test]
fn response_carries_everything() {
    let r = get_response(GetResponseParams {
        count_total: 42,
        count: 2,
        pag: 3,
        limit: 2,
        fields_search: "a".to_string(),
        conditionals: "b".to_string(),
        search: "c".to_string(),
        fields: "d".to_string(),
        without: true,
        sort: "e".to_string(),
        results: vec![1, 2],
    });
    assert_eq!(r.data, vec![1, 2]);
    assert_eq!(r.pagination.count_total, 42);
    assert_eq!(r.pagination.count, 2);
    assert_eq!(r.pagination.pag, 3);
    assert_eq!(r.pagination.limit, 2);
    assert_eq!(r.filters.fields_search, "a");
    assert_eq!(r.filters.conditionals, "b");
    assert_eq!(r.filters.search, "c");
    assert_eq!(r.filters.fields, "d");
    assert!(r.filters.without);
    assert_eq!(r.filters.sort, "e");
}

#[test]
fn sort_order_for_lowercase_directions() {
    assert_eq!(sort_order_for("asc"), "ASC");
    assert_eq!(sort_order_for("desc"), "DESC");
    assert_eq!(sort_order_for("DESC"), "ASC");
    assert_eq!(sort_order_for(""), "ASC");
}

#[test]
fn without_selects_the_complement() {
    let f = Tag::get_fields_string();
    let q = QuerysParams { fields: text("name,color"), without: Some(true), ..Default::default() };
    assert_eq!(get_params(&f, &q).2, "tags.description");
}

#[test]
fn selecting_a_selection_again_changes_nothing() {
    let table = "notes.title, notes.details, notes.done".to_string();
    let first = FieldOperations::get_select_fields(&vec!["done", "title", "zzz"], &table);
    assert_eq!(FieldOperations::get_select_fields(&first, &table), first);
}

#[test]
fn prefixing_twice_adds_nothing() {
    let once = FieldOperations::get_fields_iterator(" title, notes.done ,rank,", "notes.");
    let joined = once.join(",");
    assert_eq!(FieldOperations::get_fields_iterator(&joined, "notes."), once);
}
