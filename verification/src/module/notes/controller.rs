//! The decisions of the `notes` endpoints: which statement to run and what
//! to answer with the rows it returns.
use vstd::prelude::*;
use ordermap::OrderMap;
use crate::json::{ordermap_entries, JsonField};
use crate::module::default::models::{prefixed_fields, FieldOperations, ResponseData};
use crate::module::default::types::{opt_text, QuerysParams};
use crate::module::notes::models::{
    note_entries, note_of_row, note_row_entries, note_row_covers, Note, NoteRow, NoteUseCreate, NoteUseUpdate,
};
use crate::text::{
    cat, contains_str, decimal, has_substring, i64_to_string, join_strings, joined, replace,
    replaced, signed_decimal, string_views, u64_to_string,
};
use crate::utils::querys::{
    get_pagination, get_params, get_search, get_sort, limit_of, pag_of, paging_fits,
    search_clause, sort_field_of, sort_order_of, sort_text,
};
use crate::utils::statements::{
    assignments, list_columns, list_filters_of, list_response, push_assignment, set_clause,
    ListPlan, SqlParam,
};

verus! {

/// The columns of the `notes` table other than its id.
pub open spec fn note_columns() -> Seq<char> {
    "notes.title, notes.details, notes.done, notes.rank, notes.tags"@
}

/// The columns of the `notes` table that free-text search looks in.
pub open spec fn note_search_columns() -> Seq<char> {
    "title, details"@
}

/// The JSON object that the tags relationship builds for each tag.
pub open spec fn tag_relationship_fields() -> Seq<char> {
    ", 'name', tags.name, 'description', tags.description, 'color', tags.color"@
}

/// The selected columns, each qualified with `notes.`.
pub open spec fn note_with_ship(valid: Seq<char>) -> Seq<Seq<char>> {
    prefixed_fields(valid, "notes."@)
}

/// The selected columns, qualified, other than the tags relationship.
pub open spec fn note_without_ship(valid: Seq<char>) -> Seq<Seq<char>> {
    note_with_ship(valid).filter(|x: Seq<char>| !has_substring(x, "tags"@))
}

/// The column list a note statement selects after the id: empty, or a
/// comma followed by the plain columns.
pub open spec fn note_consult(valid: Seq<char>) -> Seq<char> {
    let w = note_without_ship(valid);
    if w.len() >= 1 {
        ", "@ + joined(w, ", "@)
    } else {
        joined(w, ", "@)
    }
}

/// The tags relationship a note statement joins in: only when the tags
/// were selected.
pub open spec fn note_relationship(valid: Seq<char>, relationship: Seq<char>) -> Seq<char> {
    if has_substring(valid, "tags"@) {
        ", "@ + replaced(relationship, "$fields_relationship"@, tag_relationship_fields())
    } else {
        Seq::<char>::empty()
    }
}

/// How a selection of note columns enters a statement and its rows.
pub struct NoteColumns {
    /// The qualified columns, joined: what the rows are read with.
    pub row_fields: String,
    /// The plain columns to select.
    pub consult: String,
    /// The tags relationship to join.
    pub relationship: String,
}

/// How the selection `valid_fields` enters a note statement, with
/// `relationship` the statement that gathers a note's tags.
pub fn note_columns_for(valid_fields: &str, relationship: &str) -> (r: NoteColumns)
    ensures
        r.row_fields@ == joined(note_with_ship(valid_fields@), ", "@),
        r.consult@ == note_consult(valid_fields@),
        r.relationship@ == note_relationship(valid_fields@, relationship@),
{
    let with_ship = FieldOperations::get_fields_iterator(valid_fields, "notes.");
    let ghost all = string_views(with_ship@);
    let ghost pred = |x: Seq<char>| !has_substring(x, "tags"@);
    let mut without_ship: Vec<String> = Vec::new();
    let n = with_ship.len();
    for i in 0..n
        invariant
            n == with_ship@.len(),
            all == string_views(with_ship@),
            pred == (|x: Seq<char>| !has_substring(x, "tags"@)),
            string_views(without_ship@) == all.take(i as int).filter(pred),
    {
        proof {
            reveal(Seq::filter);
            assert(all.take(i + 1).drop_last() =~= all.take(i as int));
            assert(all.take(i + 1).last() == with_ship@[i as int]@);
        }
        let ghost prev = without_ship@;
        if !contains_str(with_ship[i].as_str(), "tags") {
            let item = with_ship[i].clone();
            without_ship.push(item);
            assert(string_views(without_ship@) =~= string_views(prev).push(item@));
        }
    }
    assert(all.take(n as int) =~= all);
    let relationship_text = if contains_str(valid_fields, "tags") {
        proof {
            reveal_strlit("$fields_relationship");
        }
        let tags = replace(
            relationship,
            "$fields_relationship",
            ", 'name', tags.name, 'description', tags.description, 'color', tags.color",
        );
        cat(", ", tags.as_str())
    } else {
        String::new()
    };
    let plain = join_strings(&without_ship, ", ");
    let consult = if without_ship.len() >= 1 {
        cat(", ", plain.as_str())
    } else {
        plain
    };
    NoteColumns {
        row_fields: join_strings(&with_ship, ", "),
        consult,
        relationship: relationship_text,
    }
}

/// The listing statement of notes: the template with its columns,
/// relationship, paging, search and sort placeholders filled in, in that
/// order.
pub open spec fn note_list_statement(template: Seq<char>, relationship: Seq<char>, query: QuerysParams) -> Seq<char> {
    let valid = list_columns(note_columns(), query);
    let s1 = replaced(template, "$table_fields"@, note_consult(valid));
    let s2 = replaced(s1, "$relationship"@, note_relationship(valid, relationship));
    let s3 = replaced(s2, "$offset_pag"@, decimal(((pag_of(query) - 1) * limit_of(query)) as nat));
    let s4 = replaced(s3, "$limit_pag"@, decimal(limit_of(query) as nat));
    let s5 = replaced(
        s4,
        "$_SEARCH_"@,
        search_clause(note_search_columns(), opt_text(query.fields_search), opt_text(query.search)),
    );
    let s6 = replaced(s5, "$sort_field"@, sort_field_of(sort_text(query)));
    replaced(s6, "$sort_order"@, sort_order_of(sort_text(query)))
}

/// The listing plan of `GET /note/all`, and the column list its rows are
/// read with.
pub fn plan_get_many_notes(template: &str, relationship: &str, query: &QuerysParams) -> (r: (ListPlan, String))
    requires
        paging_fits(*query),
    ensures
        list_filters_of(r.0, note_columns(), *query),
        r.0.stmt@ == note_list_statement(template@, relationship@, *query),
        r.1@ == joined(note_with_ship(list_columns(note_columns(), *query)), ", "@),
{
    let fields = Note::get_fields_string();
    let (search, fields_search, search_query) = get_search(&fields, query);
    let (fields_asked, without, valid_fields) = get_params(&fields, query);
    let (sort, sort_field, sort_order) = get_sort(query);
    let (limit, pag, offset) = get_pagination(query);
    let columns = note_columns_for(valid_fields.as_str(), relationship);
    proof {
        reveal_strlit("$table_fields");
        reveal_strlit("$relationship");
        reveal_strlit("$offset_pag");
        reveal_strlit("$limit_pag");
        reveal_strlit("$_SEARCH_");
        reveal_strlit("$sort_field");
        reveal_strlit("$sort_order");
    }
    let offset_text = u64_to_string(offset as u64);
    let limit_text = u64_to_string(limit as u64);
    let stmt = replace(template, "$table_fields", columns.consult.as_str());
    let stmt = replace(stmt.as_str(), "$relationship", columns.relationship.as_str());
    let stmt = replace(stmt.as_str(), "$offset_pag", offset_text.as_str());
    let stmt = replace(stmt.as_str(), "$limit_pag", limit_text.as_str());
    let stmt = replace(stmt.as_str(), "$_SEARCH_", search_query.as_str());
    let stmt = replace(stmt.as_str(), "$sort_field", sort_field.as_str());
    let stmt = replace(stmt.as_str(), "$sort_order", sort_order.as_str());
    let plan = ListPlan {
        search,
        fields_search,
        fields: fields_asked,
        without,
        sort,
        limit,
        pag,
        valid_fields,
        stmt,
    };
    (plan, columns.row_fields)
}

/// The answer of `GET /note/all`: `None` (not found) when no note came back.
pub fn note_list_response(plan: ListPlan, results: Vec<OrderMap<String, JsonField>>, count_total: i64) -> (r: Option<ResponseData<Vec<OrderMap<String, JsonField>>>>)
    ensures
        results@.len() == 0 <==> r is None,
        r matches Some(d) ==> {
            &&& d.data@ == results@
            &&& d.pagination.count == results@.len()
            &&& d.pagination.count_total == count_total
            &&& d.pagination.limit == plan.limit
            &&& d.pagination.pag == plan.pag
            &&& d.filters.fields_search == plan.fields_search
            &&& d.filters.conditionals@ == Seq::<char>::empty()
            &&& d.filters.without == plan.without
            &&& d.filters.fields == plan.fields
            &&& d.filters.search == plan.search
            &&& d.filters.sort == plan.sort
        },
{
    let empty = results.len() == 0;
    let response = list_response(plan, results, count_total);
    if empty {
        None
    } else {
        Some(response)
    }
}

/// The statement of `GET /note/one/{id}`, and the column list its rows are
/// read with.
pub fn plan_get_one_note(template: &str, relationship: &str, id: i32, query: &QuerysParams) -> (r: (String, String))
    ensures
        r.1@ == list_columns(note_columns(), *query),
        r.0@ == replaced(
            replaced(
                replaced(template@, "$table_fields"@, note_consult(r.1@)),
                "$relationship"@,
                note_relationship(r.1@, relationship@),
            ),
            "$id_note"@,
            signed_decimal(id as int),
        ),
{
    let fields = Note::get_fields_string();
    let (_, _, valid_fields) = get_params(&fields, query);
    let columns = note_columns_for(valid_fields.as_str(), relationship);
    proof {
        reveal_strlit("$table_fields");
        reveal_strlit("$relationship");
        reveal_strlit("$id_note");
    }
    let id_text = i64_to_string(id as i64);
    let stmt = replace(template, "$table_fields", columns.consult.as_str());
    let stmt = replace(stmt.as_str(), "$relationship", columns.relationship.as_str());
    let stmt = replace(stmt.as_str(), "$id_note", id_text.as_str());
    (stmt, valid_fields)
}

/// The JSON objects of the notes that `rows` give for the column list
/// `fields`.
pub fn note_maps(rows: &Vec<NoteRow>, fields: &str) -> (r: Vec<OrderMap<String, JsonField>>)
    requires
        forall|i: int| 0 <= i < rows@.len() ==> note_row_covers(#[trigger] rows@[i], fields@),
    ensures
        r@.len() == rows@.len(),
        forall|i: int|
            0 <= i < rows@.len() ==> ordermap_entries(#[trigger] r@[i]) == note_row_entries(rows@[i], fields@),
{
    let mut out: Vec<OrderMap<String, JsonField>> = Vec::new();
    let len = rows.len();
    for i in 0..len
        invariant
            len == rows@.len(),
            forall|k: int| 0 <= k < rows@.len() ==> note_row_covers(#[trigger] rows@[k], fields@),
            out@.len() == i,
            forall|k: int|
                0 <= k < i ==> ordermap_entries(#[trigger] out@[k]) == note_row_entries(rows@[k], fields@),
    {
        let note = Note::from_row_option(&rows[i], fields).unwrap();
        let map = note.to_filtered_map();
        assert(note_entries(note) == note_row_entries(rows@[i as int], fields@));
        out.push(map);
    }
    out
}

/// The notes that `rows` give for the column list `fields`.
pub fn notes_of_rows(rows: &Vec<NoteRow>, fields: &str) -> (r: Vec<Note>)
    requires
        forall|i: int| 0 <= i < rows@.len() ==> note_row_covers(#[trigger] rows@[i], fields@),
    ensures
        r@.len() == rows@.len(),
        forall|i: int| 0 <= i < rows@.len() ==> note_of_row(#[trigger] r@[i], rows@[i], fields@),
{
    let mut out: Vec<Note> = Vec::new();
    let len = rows.len();
    for i in 0..len
        invariant
            len == rows@.len(),
            forall|k: int| 0 <= k < rows@.len() ==> note_row_covers(#[trigger] rows@[k], fields@),
            out@.len() == i,
            forall|k: int| 0 <= k < i ==> note_of_row(#[trigger] out@[k], rows@[k], fields@),
    {
        let note = Note::from_row_option(&rows[i], fields).unwrap();
        out.push(note);
    }
    out
}

/// The qualified columns that the rows of a write are read with.
pub open spec fn note_write_fields(list: Seq<char>) -> Seq<char> {
    joined(note_with_ship(list), ", "@)
}

/// The parameters of `POST /note/create`, and the column list its rows are
/// read with: a note is created undone and of rank 0 unless the body says
/// otherwise.
pub fn plan_create_note(body: NoteUseCreate) -> (r: (String, Vec<SqlParam>))
    ensures
        r.0@ == note_write_fields("title,details,done,rank"@),
        r.1@ == seq![
            SqlParam::Text(body.title),
            SqlParam::Text(body.details),
            SqlParam::Bool(
                match body.done {
                    Some(d) => d,
                    None => false,
                },
            ),
            SqlParam::Int(
                match body.rank {
                    Some(k) => k,
                    None => 0,
                },
            ),
        ],
{
    let with_ship = FieldOperations::get_fields_iterator("title,details,done,rank", "notes.");
    let done = match body.done {
        Some(d) => d,
        None => false,
    };
    let rank = match body.rank {
        Some(k) => k,
        None => 0,
    };
    let params = vec![
        SqlParam::Text(body.title),
        SqlParam::Text(body.details),
        SqlParam::Bool(done),
        SqlParam::Int(rank),
    ];
    (join_strings(&with_ship, ", "), params)
}

/// The columns that an update of a note sets, in order.
pub open spec fn note_update_columns(body: NoteUseUpdate) -> Seq<Seq<char>> {
    (if body.title is Some {
        seq!["title"@]
    } else {
        Seq::<Seq<char>>::empty()
    }) + (if body.details is Some {
        seq!["details"@]
    } else {
        Seq::<Seq<char>>::empty()
    }) + (if body.done is Some {
        seq!["done"@]
    } else {
        Seq::<Seq<char>>::empty()
    }) + (if body.rank is Some {
        seq!["rank"@]
    } else {
        Seq::<Seq<char>>::empty()
    })
}

/// The parameters that an update of a note binds: the id, then the value
/// of each column it sets.
pub open spec fn note_update_params(body: NoteUseUpdate) -> Seq<SqlParam> {
    seq![SqlParam::Int(body.id)] + (if body.title is Some {
        seq![SqlParam::OptText(body.title)]
    } else {
        Seq::<SqlParam>::empty()
    }) + (if body.details is Some {
        seq![SqlParam::OptText(body.details)]
    } else {
        Seq::<SqlParam>::empty()
    }) + (if body.done is Some {
        seq![SqlParam::OptBool(body.done)]
    } else {
        Seq::<SqlParam>::empty()
    }) + (if body.rank is Some {
        seq![SqlParam::OptInt(body.rank)]
    } else {
        Seq::<SqlParam>::empty()
    })
}

/// The statement and parameters of `PUT /note/update`, and the column list
/// its rows are read with.
pub fn plan_update_note(template: &str, body: NoteUseUpdate) -> (r: (String, Vec<SqlParam>, String))
    ensures
        r.0@ == replaced(template@, "$set_clause"@, set_clause(note_update_columns(body))),
        r.1@ == note_update_params(body),
        r.2@ == note_write_fields("title,details,done,rank"@),
{
    let ghost b = body;
    let with_ship = FieldOperations::get_fields_iterator("title,details,done,rank", "notes.");
    let mut placeholders: Vec<String> = Vec::new();
    let mut values: Vec<SqlParam> = Vec::new();
    values.push(SqlParam::Int(body.id));
    if body.title.is_some() {
        push_assignment(&mut placeholders, "title", values.len() + 1);
        values.push(SqlParam::OptText(body.title));
    }
    if body.details.is_some() {
        push_assignment(&mut placeholders, "details", values.len() + 1);
        values.push(SqlParam::OptText(body.details));
    }
    if body.done.is_some() {
        push_assignment(&mut placeholders, "done", values.len() + 1);
        values.push(SqlParam::OptBool(body.done));
    }
    if body.rank.is_some() {
        push_assignment(&mut placeholders, "rank", values.len() + 1);
        values.push(SqlParam::OptInt(body.rank));
    }
    assert(values@ =~= note_update_params(b));
    assert(string_views(placeholders@) =~= assignments(note_update_columns(b)));
    let set = join_strings(&placeholders, ", ");
    proof {
        reveal_strlit("$set_clause");
    }
    (replace(template, "$set_clause", set.as_str()), values, join_strings(&with_ship, ", "))
}

/// The column list that the rows of `DELETE /note/delete` are read with.
pub fn note_delete_fields() -> (r: String)
    ensures
        r@ == note_write_fields("title, details, done, rank"@),
{
    let with_ship = FieldOperations::get_fields_iterator("title, details, done, rank", "notes.");
    join_strings(&with_ship, ", ")
}

} // verus!
