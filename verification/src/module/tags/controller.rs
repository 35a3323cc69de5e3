//! The decisions of the `tags` endpoints: which statement to run and what
//! to answer with the rows it returns.
use vstd::prelude::*;
use ordermap::OrderMap;
use crate::json::{ordermap_entries, JsonField};
use crate::module::default::types::QuerysParams;
use crate::module::tags::models::{tag_entries, tag_of_row, tag_row_covers, Tag, TagRow, TagUseUpdate};
use crate::text::{i64_to_string, join_strings, replace, replaced, signed_decimal, string_views};
use crate::utils::querys::{get_params, paging_fits};
use crate::utils::statements::{
    assignments, list_columns, list_plan_of, plan_list, push_assignment, set_clause, ListPlan, SqlParam,
};

verus! {

/// The listing plan of `GET /tag/all`.
pub fn plan_get_many_tags(template: &str, query: &QuerysParams) -> (r: ListPlan)
    requires
        paging_fits(*query),
    ensures
        list_plan_of(
            r,
            template@,
            "tags.name, tags.description, tags.color"@,
            "name, description, color"@,
            *query,
        ),
{
    let fields = Tag::get_fields_string();
    plan_list(template, &fields, query)
}

/// The JSON objects of the tags that `rows` give for the column list `fields`.
pub fn tag_maps(rows: &Vec<TagRow>, fields: &str) -> (r: Vec<OrderMap<String, JsonField>>)
    requires
        forall|i: int| 0 <= i < rows@.len() ==> tag_row_covers(#[trigger] rows@[i], fields@),
    ensures
        r@.len() == rows@.len(),
        forall|i: int|
            0 <= i < rows@.len() ==> ordermap_entries(#[trigger] r@[i]) == tag_entries(
                tag_of_row(rows@[i], fields@),
            ),
{
    let mut out: Vec<OrderMap<String, JsonField>> = Vec::new();
    let n = rows.len();
    for i in 0..n
        invariant
            n == rows@.len(),
            forall|k: int| 0 <= k < rows@.len() ==> tag_row_covers(#[trigger] rows@[k], fields@),
            out@.len() == i,
            forall|k: int|
                0 <= k < i ==> ordermap_entries(#[trigger] out@[k]) == tag_entries(
                    tag_of_row(rows@[k], fields@),
                ),
    {
        let tag = Tag::from_row_option(&rows[i], fields).unwrap();
        out.push(tag.to_filtered_map());
    }
    out
}

/// The tags that `rows` give for the column list `fields`.
pub fn tags_of_rows(rows: &Vec<TagRow>, fields: &str) -> (r: Vec<Tag>)
    requires
        forall|i: int| 0 <= i < rows@.len() ==> tag_row_covers(#[trigger] rows@[i], fields@),
    ensures
        r@.len() == rows@.len(),
        forall|i: int| 0 <= i < rows@.len() ==> #[trigger] r@[i] == tag_of_row(rows@[i], fields@),
{
    let mut out: Vec<Tag> = Vec::new();
    let n = rows.len();
    for i in 0..n
        invariant
            n == rows@.len(),
            forall|k: int| 0 <= k < rows@.len() ==> tag_row_covers(#[trigger] rows@[k], fields@),
            out@.len() == i,
            forall|k: int| 0 <= k < i ==> #[trigger] out@[k] == tag_of_row(rows@[k], fields@),
    {
        let tag = Tag::from_row_option(&rows[i], fields).unwrap();
        out.push(tag);
    }
    out
}

/// The statement and column list of `GET /tag/one/{id}`.
pub fn plan_get_one_tag(template: &str, id: i32, query: &QuerysParams) -> (r: (String, String))
    ensures
        r.1@ == list_columns("tags.name, tags.description, tags.color"@, *query),
        r.0@ == replaced(
            replaced(template@, "$table_fields"@, r.1@),
            "$id_tag"@,
            signed_decimal(id as int),
        ),
{
    let fields = Tag::get_fields_string();
    let (_, _, valid_fields) = get_params(&fields, query);
    proof {
        reveal_strlit("$table_fields");
        reveal_strlit("$id_tag");
    }
    let id_text = i64_to_string(id as i64);
    let stmt = replace(template, "$table_fields", valid_fields.as_str());
    let stmt = replace(stmt.as_str(), "$id_tag", id_text.as_str());
    (stmt, valid_fields)
}

/// The columns that an update of a tag sets, in order.
pub open spec fn tag_update_columns(body: TagUseUpdate) -> Seq<Seq<char>> {
    (if body.name is Some {
        seq!["name"@]
    } else {
        Seq::<Seq<char>>::empty()
    }) + (if body.description is Some {
        seq!["description"@]
    } else {
        Seq::<Seq<char>>::empty()
    }) + (if body.color is Some {
        seq!["color"@]
    } else {
        Seq::<Seq<char>>::empty()
    })
}

/// The parameters that an update of a tag binds: the id, then the value of
/// each column it sets.
pub open spec fn tag_update_params(body: TagUseUpdate) -> Seq<SqlParam> {
    seq![SqlParam::Int(body.id)] + (if body.name is Some {
        seq![SqlParam::OptText(body.name)]
    } else {
        Seq::<SqlParam>::empty()
    }) + (if body.description is Some {
        seq![SqlParam::OptText(body.description)]
    } else {
        Seq::<SqlParam>::empty()
    }) + (if body.color is Some {
        seq![SqlParam::OptText(body.color)]
    } else {
        Seq::<SqlParam>::empty()
    })
}

/// The statement and parameters of `PUT /tag/update`: one assignment per
/// column the body sets, numbered after the id.
pub fn plan_update_tag(template: &str, body: TagUseUpdate) -> (r: (String, Vec<SqlParam>))
    ensures
        r.0@ == replaced(template@, "$set_clause"@, set_clause(tag_update_columns(body))),
        r.1@ == tag_update_params(body),
{
    let ghost b = body;
    let mut placeholders: Vec<String> = Vec::new();
    let mut values: Vec<SqlParam> = Vec::new();
    values.push(SqlParam::Int(body.id));
    if body.name.is_some() {
        push_assignment(&mut placeholders, "name", values.len() + 1);
        values.push(SqlParam::OptText(body.name));
    }
    if body.description.is_some() {
        push_assignment(&mut placeholders, "description", values.len() + 1);
        values.push(SqlParam::OptText(body.description));
    }
    if body.color.is_some() {
        push_assignment(&mut placeholders, "color", values.len() + 1);
        values.push(SqlParam::OptText(body.color));
    }
    assert(values@ =~= tag_update_params(b));
    assert(string_views(placeholders@) =~= assignments(tag_update_columns(b)));
    let set = join_strings(&placeholders, ", ");
    proof {
        reveal_strlit("$set_clause");
    }
    (replace(template, "$set_clause", set.as_str()), values)
}

} // verus!
