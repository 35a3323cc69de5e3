//! The decisions of the `categories` endpoints: which statement to run and
//! what to answer with the rows it returns.
use vstd::prelude::*;
use ordermap::OrderMap;
use crate::json::{ordermap_entries, JsonField};
use crate::module::categories::models::{
    category_entries, category_of_row, category_row_covers, Category, CategoryRow, CategoryUseUpdate,
};
use crate::module::default::types::QuerysParams;
use crate::text::{string_views, i64_to_string, join_strings, replace, replaced, signed_decimal};
use crate::utils::querys::{get_params, paging_fits};
use crate::utils::statements::{
    assignments, list_columns, list_plan_of, plan_list, push_assignment, set_clause, ListPlan, SqlParam,
};

verus! {

/// The listing plan of `GET /category/all`.
pub fn plan_get_many_categories(template: &str, query: &QuerysParams) -> (r: ListPlan)
    requires
        paging_fits(*query),
    ensures
        list_plan_of(
            r,
            template@,
            "categories.title, categories.description"@,
            "title, description"@,
            *query,
        ),
{
    let fields = Category::get_fields_string();
    plan_list(template, &fields, query)
}

/// The JSON objects of the categories that `rows` give for the column list
/// `fields`.
pub fn category_maps(rows: &Vec<CategoryRow>, fields: &str) -> (r: Vec<OrderMap<String, JsonField>>)
    requires
        forall|i: int| 0 <= i < rows@.len() ==> category_row_covers(#[trigger] rows@[i], fields@),
    ensures
        r@.len() == rows@.len(),
        forall|i: int|
            0 <= i < rows@.len() ==> ordermap_entries(#[trigger] r@[i]) == category_entries(
                category_of_row(rows@[i], fields@),
            ),
{
    let mut out: Vec<OrderMap<String, JsonField>> = Vec::new();
    let n = rows.len();
    for i in 0..n
        invariant
            n == rows@.len(),
            forall|k: int| 0 <= k < rows@.len() ==> category_row_covers(#[trigger] rows@[k], fields@),
            out@.len() == i,
            forall|k: int|
                0 <= k < i ==> ordermap_entries(#[trigger] out@[k]) == category_entries(
                    category_of_row(rows@[k], fields@),
                ),
    {
        let category = Category::from_row_option(&rows[i], fields).unwrap();
        out.push(category.to_filtered_map());
    }
    out
}

/// The categories that `rows` give for the column list `fields`.
pub fn categories_of_rows(rows: &Vec<CategoryRow>, fields: &str) -> (r: Vec<Category>)
    requires
        forall|i: int| 0 <= i < rows@.len() ==> category_row_covers(#[trigger] rows@[i], fields@),
    ensures
        r@.len() == rows@.len(),
        forall|i: int| 0 <= i < rows@.len() ==> #[trigger] r@[i] == category_of_row(rows@[i], fields@),
{
    let mut out: Vec<Category> = Vec::new();
    let n = rows.len();
    for i in 0..n
        invariant
            n == rows@.len(),
            forall|k: int| 0 <= k < rows@.len() ==> category_row_covers(#[trigger] rows@[k], fields@),
            out@.len() == i,
            forall|k: int| 0 <= k < i ==> #[trigger] out@[k] == category_of_row(rows@[k], fields@),
    {
        let category = Category::from_row_option(&rows[i], fields).unwrap();
        out.push(category);
    }
    out
}

/// The statement and column list of `GET /category/one/{id}`.
pub fn plan_get_one_category(template: &str, id: i32, query: &QuerysParams) -> (r: (String, String))
    ensures
        r.1@ == list_columns("categories.title, categories.description"@, *query),
        r.0@ == replaced(
            replaced(template@, "$table_fields"@, r.1@),
            "$id_category"@,
            signed_decimal(id as int),
        ),
{
    let fields = Category::get_fields_string();
    let (_, _, valid_fields) = get_params(&fields, query);
    proof {
        reveal_strlit("$table_fields");
        reveal_strlit("$id_category");
    }
    let id_text = i64_to_string(id as i64);
    let stmt = replace(template, "$table_fields", valid_fields.as_str());
    let stmt = replace(stmt.as_str(), "$id_category", id_text.as_str());
    (stmt, valid_fields)
}

/// The columns that an update of a category sets, in order.
pub open spec fn category_update_columns(body: CategoryUseUpdate) -> Seq<Seq<char>> {
    (if body.title is Some {
        seq!["title"@]
    } else {
        Seq::<Seq<char>>::empty()
    }) + (if body.description is Some {
        seq!["description"@]
    } else {
        Seq::<Seq<char>>::empty()
    })
}

/// The parameters that an update of a category binds: the id, then the
/// value of each column it sets.
pub open spec fn category_update_params(body: CategoryUseUpdate) -> Seq<SqlParam> {
    seq![SqlParam::Int(body.id)] + (if body.title is Some {
        seq![SqlParam::OptText(body.title)]
    } else {
        Seq::<SqlParam>::empty()
    }) + (if body.description is Some {
        seq![SqlParam::OptText(body.description)]
    } else {
        Seq::<SqlParam>::empty()
    })
}

/// The statement and parameters of `PUT /category/update`: one assignment
/// per column the body sets, numbered after the id.
pub fn plan_update_category(template: &str, body: CategoryUseUpdate) -> (r: (String, Vec<SqlParam>))
    ensures
        r.0@ == replaced(template@, "$set_clause"@, set_clause(category_update_columns(body))),
        r.1@ == category_update_params(body),
{
    let ghost b = body;
    let mut placeholders: Vec<String> = Vec::new();
    let mut values: Vec<SqlParam> = Vec::new();
    values.push(SqlParam::Int(body.id));
    if body.title.is_some() {
        push_assignment(&mut placeholders, "title", values.len() + 1);
        values.push(SqlParam::OptText(body.title));
    }
    if body.description.is_some() {
        push_assignment(&mut placeholders, "description", values.len() + 1);
        values.push(SqlParam::OptText(body.description));
    }
    assert(values@ =~= category_update_params(b));
    assert(string_views(placeholders@) =~= assignments(category_update_columns(b)));
    let set = join_strings(&placeholders, ", ");
    proof {
        reveal_strlit("$set_clause");
    }
    (replace(template, "$set_clause", set.as_str()), values)
}

} // verus!
