use vstd::prelude::*;
use crate::json::{json_document, parse_json, JsonDocument};
use crate::text::{cat, contains_str, has_substring, lemma_split_nonempty, split, split_on, str_eq, str_views, string_views, trim, trim_each, trimmed};

verus! {

/// Paging figures of a listing response.
#[derive(Debug)]
pub struct PaginationResponse {
    pub count_total: i64,
    pub count: usize,
    pub pag: u8,
    pub limit: u8,
}

/// The filters that a listing response echoes back.
#[derive(Debug)]
pub struct FilterResponse {
    pub fields_search: String,
    pub conditionals: String,
    pub search: String,
    pub fields: String,
    pub without: bool,
    pub sort: String,
}

/// A listing response: the rows, their paging and the filters used.
#[derive(Debug)]
pub struct ResponseData<T> {
    pub data: T,
    pub pagination: PaginationResponse,
    pub filters: FilterResponse,
}

/// Everything a listing handler gathered, flat, before it is shaped into a
/// [`ResponseData`].
pub struct GetResponseParams<T> {
    pub count_total: i64,
    pub count: usize,
    pub pag: u8,
    pub limit: u8,
    pub fields_search: String,
    pub conditionals: String,
    pub search: String,
    pub fields: String,
    pub without: bool,
    pub sort: String,
    pub results: T,
}

/// Operations on the comma separated column lists that describe a table,
/// such as `"notes.title, notes.details"`.
#[derive(Debug)]
pub struct FieldOperations;

/// The column that a column-list entry names: the part after its last `.`,
/// without surrounding white space (`" notes.title "` names `title`).
pub open spec fn column_name(entry: Seq<char>) -> Seq<char> {
    trimmed(split_on(trimmed(entry), '.').last())
}

/// The columns that a comma separated column list names, in order.
pub open spec fn column_names(table: Seq<char>) -> Seq<Seq<char>> {
    split_on(table, ',').map_values(|e: Seq<char>| column_name(e))
}

/// The columns of `table` whose name does not contain `id`.
pub open spec fn fields_without_id(table: Seq<char>) -> Seq<Seq<char>> {
    column_names(table).filter(|x: Seq<char>| !has_substring(x, "id"@))
}

/// The columns of `table`, in table order, whose name is one of `requested`.
pub open spec fn selected_fields(requested: Seq<Seq<char>>, table: Seq<char>) -> Seq<Seq<char>> {
    column_names(table).filter(|x: Seq<char>| requested.contains(x))
}

/// `entry` when it already contains `prefix`, else `prefix` followed by it.
pub open spec fn with_prefix(entry: Seq<char>, prefix: Seq<char>) -> Seq<char> {
    if has_substring(entry, prefix) {
        entry
    } else {
        prefix + entry
    }
}

/// The trimmed entries of a comma separated list, each given `prefix`
/// unless it already contains it.
pub open spec fn prefixed_fields(fields: Seq<char>, prefix: Seq<char>) -> Seq<Seq<char>> {
    split_on(fields, ',').map_values(|e: Seq<char>| with_prefix(trimmed(e), prefix))
}

/// The column that one column-list entry names.
pub fn column_of<'a>(entry: &'a str) -> (r: &'a str)
    ensures
        r@ == column_name(entry@),
{
    let t = trim(entry);
    let parts = split(t, '.');
    proof {
        lemma_split_nonempty(t@, '.');
    }
    let last = parts[parts.len() - 1];
    trim(last)
}

/// Whether `list` holds a string equal to `item`.
pub fn contains_item(list: &Vec<&str>, item: &str) -> (b: bool)
    ensures
        b == str_views(list@).contains(item@),
{
    let n = list.len();
    for i in 0..n
        invariant
            n == list@.len(),
            forall|k: int| 0 <= k < i ==> list@[k]@ != item@,
    {
        if str_eq(list[i], item) {
            assert(str_views(list@)[i as int] == item@);
            return true;
        }
    }
    proof {
        if str_views(list@).contains(item@) {
            let k = choose|k: int| 0 <= k < str_views(list@).len() && str_views(list@)[k] == item@;
            assert(list@[k]@ == item@);
        }
    }
    false
}

impl FieldOperations {
    /// The columns of a column list whose name does not contain `id`.
    pub fn get_fields(fields_table: &String) -> (r: Vec<&str>)
        ensures
            str_views(r@) == fields_without_id(fields_table@),
    {
        let entries = split(fields_table.as_str(), ',');
        let n = entries.len();
        let ghost names = column_names(fields_table@);
        let ghost pred = |x: Seq<char>| !has_substring(x, "id"@);
        let mut out: Vec<&str> = Vec::new();
        for i in 0..n
            invariant
                n == entries@.len(),
                str_views(entries@) == split_on(fields_table@, ','),
                names == column_names(fields_table@),
                pred == (|x: Seq<char>| !has_substring(x, "id"@)),
                str_views(out@) == names.take(i as int).filter(pred),
        {
            let name = column_of(entries[i]);
            let ghost prev = out@;
            proof {
                reveal(Seq::filter);
                assert(names.take(i + 1).drop_last() =~= names.take(i as int));
                assert(names.take(i + 1).last() == name@);
            }
            if !contains_str(name, "id") {
                out.push(name);
                assert(str_views(out@) =~= str_views(prev).push(name@));
            }
        }
        assert(names.take(n as int) =~= names);
        out
    }

    /// The columns of `fields_table`, in table order, whose name is one of
    /// `fields`.
    pub fn get_select_fields<'a>(fields: &Vec<&'a str>, fields_table: &'a String) -> (r: Vec<&'a str>)
        ensures
            str_views(r@) == selected_fields(str_views(fields@), fields_table@),
    {
        let entries = split(fields_table.as_str(), ',');
        let n = entries.len();
        let ghost names = column_names(fields_table@);
        let ghost requested = str_views(fields@);
        let ghost pred = |x: Seq<char>| requested.contains(x);
        let mut out: Vec<&'a str> = Vec::new();
        for i in 0..n
            invariant
                n == entries@.len(),
                str_views(entries@) == split_on(fields_table@, ','),
                names == column_names(fields_table@),
                requested == str_views(fields@),
                pred == (|x: Seq<char>| requested.contains(x)),
                str_views(out@) == names.take(i as int).filter(pred),
        {
            let name = column_of(entries[i]);
            let ghost prev = out@;
            proof {
                reveal(Seq::filter);
                assert(names.take(i + 1).drop_last() =~= names.take(i as int));
                assert(names.take(i + 1).last() == name@);
            }
            if contains_item(fields, name) {
                out.push(name);
                assert(str_views(out@) =~= str_views(prev).push(name@));
            }
        }
        assert(names.take(n as int) =~= names);
        out
    }

    /// Reads a `JSON`/`JSONB` column that must hold an array, and hands back
    /// the array's elements for deserialisation.
    pub fn from_sql_json(ty: SqlType, raw: &[u8]) -> (r: Result<Vec<serde_json::Value>, JsonColumnError>)
        ensures
            ty == SqlType::Other ==> r matches Err(JsonColumnError::IncompatibleType),
            ty != SqlType::Other ==> r == array_items_of(json_document(raw@)),
    {
        match ty {
            SqlType::Other => Err(JsonColumnError::IncompatibleType),
            _ => Self::json_array_items(parse_json(raw)),
        }
    }

    /// The elements of a parsed document that must be an array.
    pub fn json_array_items(doc: Result<JsonDocument, serde_json::Error>) -> (r: Result<Vec<serde_json::Value>, JsonColumnError>)
        ensures
            r == array_items_of(doc),
    {
        match doc {
            Err(e) => Err(JsonColumnError::Parse(e)),
            Ok(JsonDocument::Other(_)) => Err(JsonColumnError::NotAnArray),
            Ok(JsonDocument::Array(items)) => Ok(items),
        }
    }

    /// The trimmed entries of `fields`, each given the prefix `verify_str`
    /// unless it already contains it.
    pub fn get_fields_iterator(fields: &str, verify_str: &str) -> (r: Vec<String>)
        ensures
            string_views(r@) == prefixed_fields(fields@, verify_str@),
    {
        let entries = split(fields, ',');
        let n = entries.len();
        let ghost want = prefixed_fields(fields@, verify_str@);
        let mut out: Vec<String> = Vec::new();
        for i in 0..n
            invariant
                n == entries@.len(),
                str_views(entries@) == split_on(fields@, ','),
                want == prefixed_fields(fields@, verify_str@),
                want.len() == n,
                string_views(out@) == want.take(i as int),
        {
            let t = trim(entries[i]);
            let item = if contains_str(t, verify_str) {
                String::from_str(t)
            } else {
                cat(verify_str, t)
            };
            let ghost prev = out@;
            proof {
                assert(str_views(entries@)[i as int] == entries@[i as int]@);
                assert(want[i as int] == with_prefix(trimmed(entries@[i as int]@), verify_str@));
                assert(item@ == want[i as int]);
            }
            out.push(item);
            assert(string_views(out@) =~= string_views(prev).push(item@));
            assert(string_views(out@) =~= want.take(i + 1));
        }
        assert(want.take(n as int) =~= want);
        out
    }
}

// ---------------------------------------------------------------------------
// Rows
// ---------------------------------------------------------------------------

/// Whether a column list mentions `name` as one of its trimmed entries.
pub open spec fn mentions(fields: Seq<char>, name: Seq<char>) -> bool {
    split_on(fields, ',').map_values(|e: Seq<char>| trimmed(e)).contains(name)
}

/// The value of a row column: `None` stands for a column the row lacks,
/// `Some(None)` for SQL `NULL`.
pub open spec fn column_value<T>(column: Option<Option<T>>) -> Option<T> {
    match column {
        Some(v) => v,
        None => None,
    }
}

/// The value a record takes for a column: the row's value when the column
/// list mentions the column, else `None`.
pub open spec fn picked<T>(fields: Seq<char>, name: Seq<char>, column: Option<Option<T>>) -> Option<T> {
    if mentions(fields, name) {
        column_value(column)
    } else {
        None
    }
}

/// The row holds every column that the column list mentions.
pub open spec fn has_column<T>(fields: Seq<char>, name: Seq<char>, column: Option<Option<T>>) -> bool {
    mentions(fields, name) ==> column is Some
}

/// Whether a column list mentions `name`.
pub fn mentions_field(fields: &str, name: &str) -> (b: bool)
    ensures
        b == mentions(fields@, name@),
{
    let pieces = trim_each(&split(fields, ','));
    contains_item(&pieces, name)
}

/// A copy of an optional text column.
pub fn copy_text(o: &Option<String>) -> (r: Option<String>)
    ensures
        r == *o,
{
    match o {
        Some(s) => Some(s.clone()),
        None => None,
    }
}

/// The value of a text column of a row.
pub fn text_column(c: &Option<Option<String>>) -> (r: Option<String>)
    ensures
        r == column_value(*c),
{
    match c {
        Some(v) => copy_text(v),
        None => None,
    }
}

/// An entry that a column list mentions occurs in it as text, so the check
/// that a matched entry occurs in the list always succeeds.
pub proof fn lemma_mentioned_occurs(fields: Seq<char>, name: Seq<char>)
    requires
        mentions(fields, name),
    ensures
        has_substring(fields, name),
{
    let items = split_on(fields, ',').map_values(|e: Seq<char>| trimmed(e));
    let k = choose|k: int| 0 <= k < items.len() && items[k] == name;
    crate::text::lemma_trimmed_piece_occurs(fields, ',', k);
}

// ---------------------------------------------------------------------------
// JSON columns
// ---------------------------------------------------------------------------

/// The SQL type of a column, as far as JSON decoding tells them apart.
#[derive(Debug, Clone, Copy, PartialEq, Eq, Structural)]
pub enum SqlType {
    Json,
    Jsonb,
    Other,
}

/// Why a JSON column could not be read.
#[derive(Debug)]
pub enum JsonColumnError {
    /// The column is neither `JSON` nor `JSONB`.
    IncompatibleType,
    /// The column does not hold a JSON document.
    Parse(serde_json::Error),
    /// The document is not a JSON array.
    NotAnArray,
}

/// What a parsed JSON column gives: the elements of its top-level array,
/// the parse error, or `NotAnArray` for any other document.
pub open spec fn array_items_of(doc: Result<JsonDocument, serde_json::Error>) -> Result<Vec<serde_json::Value>, JsonColumnError> {
    match doc {
        Err(e) => Err(JsonColumnError::Parse(e)),
        Ok(JsonDocument::Other(_)) => Err(JsonColumnError::NotAnArray),
        Ok(JsonDocument::Array(items)) => Ok(items),
    }
}

/// Shapes what a listing handler gathered into its response.
pub fn get_response<T>(data: GetResponseParams<T>) -> (r: ResponseData<T>)
    ensures
        r.data == data.results,
        r.pagination.count_total == data.count_total,
        r.pagination.count == data.count,
        r.pagination.limit == data.limit,
        r.pagination.pag == data.pag,
        r.filters.fields_search == data.fields_search,
        r.filters.conditionals == data.conditionals,
        r.filters.without == data.without,
        r.filters.fields == data.fields,
        r.filters.search == data.search,
        r.filters.sort == data.sort,
{
    let pagination = PaginationResponse {
        count_total: data.count_total,
        count: data.count,
        limit: data.limit,
        pag: data.pag,
    };
    let filters = FilterResponse {
        fields_search: data.fields_search,
        conditionals: data.conditionals,
        without: data.without,
        fields: data.fields,
        search: data.search,
        sort: data.sort,
    };
    ResponseData { data: data.results, pagination, filters }
}

} // verus!
