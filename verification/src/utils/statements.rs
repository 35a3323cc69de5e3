//! Assembly of the SQL statements that the handlers run: listing statements
//! from a template and the query string, `SET` clauses of updates, and the
//! placeholder lists of deletions.
use vstd::prelude::*;
use crate::module::default::models::{get_response, GetResponseParams, ResponseData};
use crate::module::default::types::{opt_text, QuerysParams};
use crate::text::{decimal, joined, replace, replaced, string_views, u64_to_string, cat, join_strings};
use crate::utils::querys::{
    get_pagination, get_params, get_search, get_sort, limit_of, pag_of, paging_fits,
    params_select, search_clause, sort_field_of, sort_order_of, sort_text, Fields,
};

verus! {

// ---------------------------------------------------------------------------
// Listing
// ---------------------------------------------------------------------------

/// Whether the query asks for the selected fields to be left out.
pub open spec fn without_of(query: QuerysParams) -> bool {
    match query.without {
        Some(w) => w,
        None => false,
    }
}

/// The column list that a listing selects from a table whose columns other
/// than the id are `without_id`.
pub open spec fn list_columns(without_id: Seq<char>, query: QuerysParams) -> Seq<char> {
    params_select(without_id, opt_text(query.fields), without_of(query))
}

/// The listing statement: the template with its paging, column, search and
/// sort placeholders filled in, in that order, for a table whose columns
/// other than the id are `without_id` and whose searchable columns are
/// `searchs`.
pub open spec fn list_statement(
    template: Seq<char>,
    without_id: Seq<char>,
    searchs: Seq<char>,
    query: QuerysParams,
) -> Seq<char> {
    let offset = decimal(((pag_of(query) - 1) * limit_of(query)) as nat);
    let s1 = replaced(template, "$offset_pag"@, offset);
    let s2 = replaced(s1, "$limit_pag"@, decimal(limit_of(query) as nat));
    let s3 = replaced(s2, "$table_fields"@, list_columns(without_id, query));
    let s4 = replaced(
        s3,
        "$_SEARCH_"@,
        search_clause(searchs, opt_text(query.fields_search), opt_text(query.search)),
    );
    let s5 = replaced(s4, "$sort_field"@, sort_field_of(sort_text(query)));
    replaced(s5, "$sort_order"@, sort_order_of(sort_text(query)))
}

/// What a listing request asks for: the filters it echoes back, its paging,
/// the column list it selects and the statement to run.
pub struct ListPlan {
    pub search: String,
    pub fields_search: String,
    pub fields: String,
    pub without: bool,
    pub sort: String,
    pub limit: u8,
    pub pag: u8,
    pub valid_fields: String,
    pub stmt: String,
}

/// The plan echoes the filters, and selects the columns, that `query` asks
/// of a table whose columns other than the id are `without_id`.
pub open spec fn list_filters_of(p: ListPlan, without_id: Seq<char>, query: QuerysParams) -> bool {
    &&& p.search@ == opt_text(query.search)
    &&& p.fields_search@ == opt_text(query.fields_search)
    &&& p.fields@ == opt_text(query.fields)
    &&& p.without == without_of(query)
    &&& p.sort@ == sort_text(query)
    &&& p.limit == limit_of(query)
    &&& p.pag == pag_of(query)
    &&& p.valid_fields@ == list_columns(without_id, query)
}

/// The plan is the one that `query` asks, with `template`, of a table whose
/// columns other than the id are `without_id` and whose searchable columns
/// are `searchs`.
pub open spec fn list_plan_of(
    p: ListPlan,
    template: Seq<char>,
    without_id: Seq<char>,
    searchs: Seq<char>,
    query: QuerysParams,
) -> bool {
    &&& list_filters_of(p, without_id, query)
    &&& p.stmt@ == list_statement(template, without_id, searchs, query)
}

/// Plans a listing of `table`: the search, column selection, sort and
/// paging that `query` asks for, and the statement that `template` gives
/// with them.
pub fn plan_list(template: &str, table: &Fields, query: &QuerysParams) -> (r: ListPlan)
    requires
        paging_fits(*query),
    ensures
        list_plan_of(r, template@, table.db.without_id@, table.searchs@, *query),
{
    let (search, fields_search, search_query) = get_search(table, query);
    let (fields, without, valid_fields) = get_params(table, query);
    let (sort, sort_field, sort_order) = get_sort(query);
    let (limit, pag, offset) = get_pagination(query);
    proof {
        reveal_strlit("$offset_pag");
        reveal_strlit("$limit_pag");
        reveal_strlit("$table_fields");
        reveal_strlit("$_SEARCH_");
        reveal_strlit("$sort_field");
        reveal_strlit("$sort_order");
    }
    let offset_text = u64_to_string(offset as u64);
    let limit_text = u64_to_string(limit as u64);
    let stmt = replace(template, "$offset_pag", offset_text.as_str());
    let stmt = replace(stmt.as_str(), "$limit_pag", limit_text.as_str());
    let stmt = replace(stmt.as_str(), "$table_fields", valid_fields.as_str());
    let stmt = replace(stmt.as_str(), "$_SEARCH_", search_query.as_str());
    let stmt = replace(stmt.as_str(), "$sort_field", sort_field.as_str());
    let stmt = replace(stmt.as_str(), "$sort_order", sort_order.as_str());
    ListPlan { search, fields_search, fields, without, sort, limit, pag, valid_fields, stmt }
}

/// The response of a listing: the rows it found, their count, the total
/// count, and the filters of its plan (with no conditions).
pub fn list_response<T>(plan: ListPlan, results: Vec<T>, count_total: i64) -> (r: ResponseData<Vec<T>>)
    ensures
        r.data@ == results@,
        r.pagination.count_total == count_total,
        r.pagination.count == results@.len(),
        r.pagination.limit == plan.limit,
        r.pagination.pag == plan.pag,
        r.filters.fields_search == plan.fields_search,
        r.filters.conditionals@ == Seq::<char>::empty(),
        r.filters.without == plan.without,
        r.filters.fields == plan.fields,
        r.filters.search == plan.search,
        r.filters.sort == plan.sort,
{
    let count = results.len();
    get_response(GetResponseParams {
        fields_search: plan.fields_search,
        conditionals: String::new(),
        count_total,
        results,
        without: plan.without,
        search: plan.search,
        fields: plan.fields,
        count,
        limit: plan.limit,
        pag: plan.pag,
        sort: plan.sort,
    })
}

/// The first row of a result, `None` when there is none.
pub fn first_row<T>(rows: Vec<T>) -> (r: Option<T>)
    ensures
        rows@.len() == 0 ==> r is None,
        rows@.len() > 0 ==> r == Some(rows@[0]),
{
    let mut rows = rows;
    if rows.len() == 0 {
        None
    } else {
        Some(rows.remove(0))
    }
}

/// The rows of a result, `None` when there are none.
pub fn found_rows<T>(rows: Vec<T>) -> (r: Option<Vec<T>>)
    ensures
        rows@.len() == 0 <==> r is None,
        r matches Some(v) ==> v@ == rows@,
{
    if rows.len() == 0 {
        None
    } else {
        Some(rows)
    }
}

// ---------------------------------------------------------------------------
// Placeholders
// ---------------------------------------------------------------------------

/// The placeholder of the `n`-th bound parameter: `$n`.
pub open spec fn placeholder(n: nat) -> Seq<char> {
    "$"@ + decimal(n)
}

/// The placeholders `$1, $2, …, $n` of `n` bound parameters.
pub open spec fn placeholders(n: nat) -> Seq<Seq<char>> {
    Seq::new(n, |i: int| placeholder((i + 1) as nat))
}

/// `"$1, $2, …, $n"`.
pub fn ids_placeholders(n: usize) -> (r: String)
    ensures
        r@ == joined(placeholders(n as nat), ", "@),
{
    let mut parts: Vec<String> = Vec::new();
    for i in 0..n
        invariant
            string_views(parts@) == placeholders(i as nat),
    {
        let number = u64_to_string((i as u64) + 1);
        let p = cat("$", number.as_str());
        let ghost prev = parts@;
        parts.push(p);
        assert(p@ == placeholder((i + 1) as nat));
        assert(string_views(parts@) =~= string_views(prev).push(p@));
        assert(string_views(parts@) =~= placeholders((i + 1) as nat));
    }
    join_strings(&parts, ", ")
}

/// The deletion statement for `ids`: the template with `$ids` replaced by
/// one placeholder per id.
pub fn plan_delete(template: &str, ids: &Vec<i64>) -> (r: String)
    ensures
        r@ == replaced(template@, "$ids"@, joined(placeholders(ids@.len()), ", "@)),
{
    let list = ids_placeholders(ids.len());
    proof {
        reveal_strlit("$ids");
    }
    replace(template, "$ids", list.as_str())
}

// ---------------------------------------------------------------------------
// Updates
// ---------------------------------------------------------------------------

/// A value bound to a statement parameter.
#[derive(Debug)]
pub enum SqlParam {
    Int(i64),
    Text(String),
    Bool(bool),
    OptText(Option<String>),
    OptBool(Option<bool>),
    OptInt(Option<i64>),
}

/// The assignments of a `SET` clause for the columns that an update sets,
/// in order: the first column takes parameter `$2` (`$1` is the id).
pub open spec fn assignments(columns: Seq<Seq<char>>) -> Seq<Seq<char>> {
    columns.map(|i: int, c: Seq<char>| c + " = "@ + placeholder((i + 2) as nat))
}

/// The `SET` clause of an update of `columns`.
pub open spec fn set_clause(columns: Seq<Seq<char>>) -> Seq<char> {
    joined(assignments(columns), ", "@)
}

/// Appends the assignment of `column` to parameter `$n`.
pub fn push_assignment(parts: &mut Vec<String>, column: &str, n: usize)
    ensures
        string_views(final(parts)@) == string_views(old(parts)@).push(
            column@ + " = "@ + placeholder(n as nat),
        ),
{
    let number = u64_to_string(n as u64);
    let mut a = cat(column, " = ");
    a.append("$");
    a.append(number.as_str());
    assert(a@ =~= column@ + " = "@ + placeholder(n as nat));
    let ghost prev = parts@;
    parts.push(a);
    assert(string_views(parts@) =~= string_views(prev).push(a@));
}

} // verus!
