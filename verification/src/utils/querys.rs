use vstd::prelude::*;
use crate::module::default::models::{selected_fields, fields_without_id, column_name, FieldOperations};
use crate::module::default::types::{opt_str, opt_text, QuerysParams};
use crate::text::{
    cat, contains_char, contains_str, ends_with_char, has_substring, join_strings, join_strs,
    joined, lemma_split_contains, split, split_on, starts_with_char, str_eq, str_lowercase,
    str_views, string_views, to_lowercase, trim, trim_each, trimmed,
};

verus! {

/// The column lists of one table.
pub struct DbFields {
    pub all: String,
    pub without_id: String,
    pub without_id_ship: String,
}

/// Everything the listing helpers need to know about a table: its column
/// lists, the columns free-text search looks in, and the columns that
/// conditions may name.
pub struct Fields {
    pub db: DbFields,
    pub searchs: String,
    pub conditionals: String,
}

// ---------------------------------------------------------------------------
// Search
// ---------------------------------------------------------------------------

/// The columns a free-text search concatenates: those of `fields_search`
/// (`:` separated) that the table's search list names, or, when there are
/// none, every entry of the search list.
pub open spec fn search_columns(table: Seq<char>, fields_search: Seq<char>) -> Seq<Seq<char>> {
    let chosen = selected_fields(split_on(fields_search, ':'), table);
    if fields_search.len() > 0 && chosen.len() > 0 {
        chosen
    } else {
        split_on(table, ',').map_values(|e: Seq<char>| trimmed(e))
    }
}

/// The SQL condition of a free-text search, empty when there is no search.
pub open spec fn search_clause(table: Seq<char>, fields_search: Seq<char>, search: Seq<char>) -> Seq<char> {
    if search.len() == 0 {
        Seq::<char>::empty()
    } else {
        "CONCAT("@ + joined(search_columns(table, fields_search), ","@) + ") ILIKE '%"@ + search
            + "%'"@
    }
}

/// The search text, the search columns asked for, and the SQL condition
/// that searches for the text in those columns.
pub fn get_search(fields: &Fields, query: &QuerysParams) -> (r: (String, String, String))
    ensures
        r.0@ == opt_text(query.search),
        r.1@ == opt_text(query.fields_search),
        r.2@ == search_clause(fields.searchs@, opt_text(query.fields_search), opt_text(query.search)),
{
    let fields_search = opt_str(&query.fields_search);
    let search = opt_str(&query.search);
    if !search.is_empty() {
        let fields_table = &fields.searchs;
        let mut valid_fields = trim_each(&split(fields_table.as_str(), ','));
        if !fields_search.is_empty() {
            let fields_search_arr = split(fields_search, ':');
            let valid_fields_new = FieldOperations::get_select_fields(&fields_search_arr, fields_table);
            if valid_fields_new.len() > 0 {
                valid_fields = valid_fields_new;
            }
        }
        let mut query_search = String::new();
        query_search.append("CONCAT(");
        let columns = join_strs(&valid_fields, ",");
        query_search.append(columns.as_str());
        query_search.append(") ILIKE '%");
        query_search.append(search);
        query_search.append("%'");
        (String::from_str(search), String::from_str(fields_search), query_search)
    } else {
        (String::from_str(search), String::from_str(fields_search), String::new())
    }
}

// ---------------------------------------------------------------------------
// Conditions
// ---------------------------------------------------------------------------

/// The SQL condition that one `field=condition` item asks for, if any:
/// `field BETWEEN a AND b` for `[a-b]`, `field is true|false` for a boolean;
/// only fields that the table's condition list mentions are accepted.
pub open spec fn condition_for(table: Seq<char>, item: Seq<char>) -> Option<Seq<char>> {
    if !item.contains('=') {
        None
    } else {
        let parts = split_on(item, '=');
        if parts.len() != 2 {
            None
        } else {
            let field = trimmed(parts[0]);
            let cond = trimmed(parts[1]);
            if !has_substring(table, field) {
                None
            } else if cond.len() > 0 && cond[0] == '[' && cond.last() == ']' {
                let values = split_on(cond.subrange(1, cond.len() - 1), '-');
                if values.len() == 2 {
                    Some(field + " BETWEEN "@ + trimmed(values[0]) + " AND "@ + trimmed(values[1]))
                } else {
                    None
                }
            } else if cond == "true"@ || cond == "false"@ {
                Some(field + " is "@ + cond)
            } else {
                None
            }
        }
    }
}

/// The SQL conditions that a list of items asks for, in order.
pub open spec fn conditions(table: Seq<char>, items: Seq<Seq<char>>) -> Seq<Seq<char>>
    decreases items.len(),
{
    if items.len() == 0 {
        Seq::<Seq<char>>::empty()
    } else {
        let r = conditions(table, items.drop_last());
        match condition_for(table, items.last()) {
            Some(c) => r.push(c),
            None => r,
        }
    }
}

/// The `WHERE` clause that a comma separated list of conditions asks for,
/// empty when it asks for none.
pub open spec fn where_clause(table: Seq<char>, conditionals: Seq<char>) -> Seq<char> {
    if conditionals.len() == 0 {
        Seq::<char>::empty()
    } else {
        let items = split_on(conditionals, ',').map_values(|e: Seq<char>| trimmed(e));
        let w = joined(conditions(table, items), " AND "@);
        if w.len() == 0 {
            Seq::<char>::empty()
        } else {
            "WHERE "@ + w
        }
    }
}

fn condition_of(table: &str, item: &str) -> (r: Option<String>)
    ensures
        match (r, condition_for(table@, item@)) {
            (Some(a), Some(b)) => a@ == b,
            (None, None) => true,
            _ => false,
        },
{
    if !contains_char(item, '=') {
        return None;
    }
    let parts = split(item, '=');
    if parts.len() != 2 {
        return None;
    }
    assert(parts@[0]@ == split_on(item@, '=')[0]);
    assert(parts@[1]@ == split_on(item@, '=')[1]);
    let field = trim(parts[0]);
    let condition = trim(parts[1]);
    if !contains_str(table, field) {
        return None;
    }
    if starts_with_char(condition, '[') && ends_with_char(condition, ']') {
        let n = condition.unicode_len();
        let inner = condition.substring_char(1, n - 1);
        let values = split(inner, '-');
        if values.len() == 2 {
            assert(values@[0]@ == split_on(inner@, '-')[0]);
            assert(values@[1]@ == split_on(inner@, '-')[1]);
            let mut c = String::from_str(field);
            c.append(" BETWEEN ");
            c.append(trim(values[0]));
            c.append(" AND ");
            c.append(trim(values[1]));
            Some(c)
        } else {
            None
        }
    } else if str_eq(condition, "true") || str_eq(condition, "false") {
        let mut c = String::from_str(field);
        c.append(" is ");
        c.append(condition);
        Some(c)
    } else {
        None
    }
}

/// The conditions asked for, and the `WHERE` clause they give.
pub fn get_conditionals(fields: &Fields, query: &QuerysParams) -> (r: (String, String))
    ensures
        r.0@ == opt_text(query.conditionals),
        r.1@ == where_clause(fields.conditionals@, opt_text(query.conditionals)),
{
    let conditionals = opt_str(&query.conditionals);
    let conditionals_vec = trim_each(&split(conditionals, ','));
    if !conditionals.is_empty() {
        let fields_table = fields.conditionals.as_str();
        let ghost items = split_on(conditionals@, ',').map_values(|e: Seq<char>| trimmed(e));
        let mut query_conditionals: Vec<String> = Vec::new();
        let n = conditionals_vec.len();
        for i in 0..n
            invariant
                n == conditionals_vec@.len(),
                str_views(conditionals_vec@) == items,
                items == split_on(conditionals@, ',').map_values(|e: Seq<char>| trimmed(e)),
                string_views(query_conditionals@) == conditions(fields_table@, items.take(i as int)),
        {
            proof {
                assert(items.take(i + 1).drop_last() =~= items.take(i as int));
                assert(items.take(i + 1).last() == conditionals_vec@[i as int]@);
            }
            let ghost prev = query_conditionals@;
            match condition_of(fields_table, conditionals_vec[i]) {
                Some(c) => {
                    query_conditionals.push(c);
                    assert(string_views(query_conditionals@) =~= string_views(prev).push(c@));
                },
                None => {},
            }
        }
        assert(items.take(n as int) =~= items);
        let where_body = join_strings(&query_conditionals, " AND ");
        let where_clause = if !where_body.as_str().is_empty() {
            cat("WHERE ", where_body.as_str())
        } else {
            where_body
        };
        (String::from_str(conditionals), where_clause)
    } else {
        (String::from_str(conditionals), String::new())
    }
}

// ---------------------------------------------------------------------------
// Paging
// ---------------------------------------------------------------------------

/// The page size asked for, 10 by default.
pub open spec fn limit_of(query: QuerysParams) -> u8 {
    match query.limit {
        Some(l) => l,
        None => 10,
    }
}

/// The page asked for, 1 by default.
pub open spec fn pag_of(query: QuerysParams) -> u8 {
    match query.pag {
        Some(p) => p,
        None => 1,
    }
}

/// Paging is well defined: pages count from 1 and the offset of the page
/// fits in a `u8`.
pub open spec fn paging_fits(query: QuerysParams) -> bool {
    pag_of(query) >= 1 && (pag_of(query) - 1) * limit_of(query) <= u8::MAX
}

/// The page size, the page, and the number of rows before that page.
pub fn get_pagination(query: &QuerysParams) -> (r: (u8, u8, u8))
    requires
        paging_fits(*query),
    ensures
        r.0 == limit_of(*query),
        r.1 == pag_of(*query),
        r.2 == (pag_of(*query) - 1) * limit_of(*query),
{
    let limit = match query.limit {
        Some(l) => l,
        None => 10,
    };
    let pag = match query.pag {
        Some(p) => p,
        None => 1,
    };
    let offset = (pag - 1) * limit;
    (limit, pag, offset)
}

// ---------------------------------------------------------------------------
// Sorting
// ---------------------------------------------------------------------------

/// The sort asked for, `id:ASC` by default.
pub open spec fn sort_text(query: QuerysParams) -> Seq<char> {
    match query.sort {
        Some(s) => s@,
        None => "id:ASC"@,
    }
}

/// The SQL order that a lowercased direction names: `DESC` for `desc`,
/// `ASC` otherwise.
pub open spec fn order_of(direction_lowercase: Seq<char>) -> Seq<char> {
    if direction_lowercase == "desc"@ {
        "DESC"@
    } else {
        "ASC"@
    }
}

/// The sort field that a sort text names.
pub open spec fn sort_field_of(sort: Seq<char>) -> Seq<char> {
    if sort.len() == 0 {
        "id"@
    } else if sort.contains(':') {
        split_on(sort, ':')[0]
    } else {
        sort
    }
}

/// The sort order that a sort text names.
pub open spec fn sort_order_of(sort: Seq<char>) -> Seq<char> {
    if sort.len() > 0 && sort.contains(':') {
        order_of(str_lowercase(split_on(sort, ':')[1]))
    } else {
        "ASC"@
    }
}

/// The SQL order that a lowercased sort direction names.
pub fn sort_order_for(direction_lowercase: &str) -> (r: &'static str)
    ensures
        r@ == order_of(direction_lowercase@),
{
    proof {
        reveal_strlit("asc");
        reveal_strlit("desc");
        assert("asc"@.len() == 3);
        assert("desc"@.len() == 4);
    }
    if str_eq(direction_lowercase, "asc") {
        "ASC"
    } else if str_eq(direction_lowercase, "desc") {
        "DESC"
    } else {
        "ASC"
    }
}

/// The sort asked for, the field it sorts by, and the SQL order.
pub fn get_sort(query: &QuerysParams) -> (r: (String, String, String))
    ensures
        r.0@ == sort_text(*query),
        r.1@ == sort_field_of(sort_text(*query)),
        r.2@ == sort_order_of(sort_text(*query)),
{
    let sort: &str = match &query.sort {
        Some(s) => s.as_str(),
        None => "id:ASC",
    };
    if !sort.is_empty() {
        if contains_char(sort, ':') {
            proof {
                lemma_split_contains(sort@, ':');
            }
            let sort_parts = split(sort, ':');
            assert(sort_parts@[0]@ == split_on(sort@, ':')[0]);
            assert(sort_parts@[1]@ == split_on(sort@, ':')[1]);
            let direction = to_lowercase(sort_parts[1]);
            let order = sort_order_for(direction.as_str());
            (String::from_str(sort), String::from_str(sort_parts[0]), String::from_str(order))
        } else {
            (String::from_str(sort), String::from_str(sort), String::from_str("ASC"))
        }
    } else {
        (String::from_str(sort), String::from_str("id"), String::from_str("ASC"))
    }
}

// ---------------------------------------------------------------------------
// Column selection
// ---------------------------------------------------------------------------

/// The column list a query selects from a table's `without_id` list:
/// every entry when no fields are asked for; the columns free of `id` when
/// none of those asked for exist; with `without`, every entry whose column
/// was not asked for; else the columns asked for.
pub open spec fn params_select(table: Seq<char>, params: Seq<char>, without: bool) -> Seq<char> {
    if params.len() == 0 {
        joined(split_on(table, ',').map_values(|e: Seq<char>| trimmed(e)), ", "@)
    } else {
        let selected = selected_fields(split_on(params, ','), table);
        if selected.len() == 0 {
            joined(fields_without_id(table).map_values(|e: Seq<char>| trimmed(e)), ", "@)
        } else if without {
            let chosen = joined(selected, ", "@);
            trimmed(
                joined(
                    split_on(table, ',').map_values(|e: Seq<char>| trimmed(e)).filter(
                        |f: Seq<char>| !has_substring(chosen, column_name(f)),
                    ),
                    ", "@,
                ),
            )
        } else {
            trimmed(joined(selected, ", "@))
        }
    }
}

/// The fields asked for, whether they are to be left out, and the column
/// list to select.
pub fn get_params(fields: &Fields, query: &QuerysParams) -> (r: (String, bool, String))
    ensures
        r.0@ == opt_text(query.fields),
        r.1 == match query.without {
            Some(w) => w,
            None => false,
        },
        r.2@ == params_select(fields.db.without_id@, opt_text(query.fields), r.1),
{
    let params = opt_str(&query.fields);
    let without = match query.without {
        Some(w) => w,
        None => false,
    };
    let fields_table = &fields.db.without_id;
    if !params.is_empty() {
        let valid_fields = FieldOperations::get_fields(fields_table);
        let field_with_prefix = split(params, ',');
        let selected_fields = FieldOperations::get_select_fields(&field_with_prefix, fields_table);
        if selected_fields.len() == 0 {
            let params_select = trim_each(&valid_fields);
            (String::from_str(params), without, join_strs(&params_select, ", "))
        } else if without {
            let chosen = join_strs(&selected_fields, ", ");
            let entries = trim_each(&split(fields_table.as_str(), ','));
            let ghost all = split_on(fields_table@, ',').map_values(|e: Seq<char>| trimmed(e));
            let ghost pred = |f: Seq<char>| !has_substring(chosen@, column_name(f));
            let mut filtered_params: Vec<&str> = Vec::new();
            let n = entries.len();
            for i in 0..n
                invariant
                    n == entries@.len(),
                    str_views(entries@) == all,
                    pred == (|f: Seq<char>| !has_substring(chosen@, column_name(f))),
                    str_views(filtered_params@) == all.take(i as int).filter(pred),
            {
                proof {
                    reveal(Seq::filter);
                    assert(all.take(i + 1).drop_last() =~= all.take(i as int));
                    assert(all.take(i + 1).last() == entries@[i as int]@);
                }
                let field = entries[i];
                let new_field = crate::module::default::models::column_of(field);
                let ghost prev = filtered_params@;
                if !contains_str(chosen.as_str(), new_field) {
                    filtered_params.push(field);
                    assert(str_views(filtered_params@) =~= str_views(prev).push(field@));
                }
            }
            assert(all.take(n as int) =~= all);
            let joined_params = join_strs(&filtered_params, ", ");
            (String::from_str(params), without, String::from_str(trim(joined_params.as_str())))
        } else {
            let joined_params = join_strs(&selected_fields, ", ");
            (String::from_str(params), without, String::from_str(trim(joined_params.as_str())))
        }
    } else {
        let filtered_fields = trim_each(&split(fields_table.as_str(), ','));
        (String::from_str(params), without, join_strs(&filtered_fields, ", "))
    }
}

} // verus!
