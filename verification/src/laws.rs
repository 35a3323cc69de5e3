//! Properties that hold across the library's functions, stated over the
//! specifications those functions' contracts use, and proved.
use vstd::prelude::*;
use crate::json::FieldValue;
use crate::migrations::sql_commands;
use crate::module::categories::controller::{category_update_columns, category_update_params};
use crate::module::categories::models::{
    category_entries, category_of_row, Category, CategoryRow, CategoryUseUpdate,
};
use crate::module::default::models::{
    column_name, column_names, fields_without_id, picked, prefixed_fields, selected_fields,
};
use crate::module::default::types::QuerysParams;
use crate::module::notes::controller::{note_update_columns, note_update_params};
use crate::module::notes::models::{
    bool_entry, int_entry, note_entries, note_row_entries, tags_entry, tags_view, Note, NoteRow,
    NoteUseUpdate,
};
use crate::module::tags::controller::{tag_update_columns, tag_update_params};
use crate::module::tags::models::{tag_entries, tag_of_row, text_entry, Tag, TagRow, TagUseUpdate};
use crate::text::{
    has_substring, is_ws, joined, lemma_replaced_no_match_from_start, lemma_split_nonempty,
    lemma_trim_end_prefix, occurs_at, replaced, split_on, trim_end, trim_start, trimmed,
};
use crate::utils::querys::{params_select, search_clause, search_columns, sort_order_of, sort_text};
use crate::utils::statements::{assignments, placeholder, placeholders, SqlParam};

verus! {

broadcast use vstd::seq_lib::group_filter_ensures;

// ---------------------------------------------------------------------------
// Text
// ---------------------------------------------------------------------------

/// Joining the pieces of a split with the separator gives the text back.
pub proof fn law_split_join_roundtrip(s: Seq<char>, sep: char)
    ensures
        joined(split_on(s, sep), seq![sep]) == s,
    decreases s.len(),
{
    if s.len() > 0 {
        let t = s.drop_last();
        let r = split_on(t, sep);
        law_split_join_roundtrip(t, sep);
        lemma_split_nonempty(t, sep);
        if s.last() == sep {
            let q = r.push(Seq::<char>::empty());
            assert(q.drop_last() =~= r);
            assert(joined(q, seq![sep]) =~= s);
        } else {
            let q = r.update(r.len() - 1, r.last().push(s.last()));
            if r.len() == 1 {
                assert(q.len() == 1);
                assert(q[0] == r[0].push(s.last()));
                assert(joined(r, seq![sep]) == r[0]);
                assert(s =~= t.push(s.last()));
                assert(joined(q, seq![sep]) == q[0]);
                assert(q[0] =~= s);
            } else {
                assert(q.drop_last() =~= r.drop_last());
                assert(q.last() == r.last().push(s.last()));
                assert(joined(r, seq![sep]) == joined(r.drop_last(), seq![sep]) + seq![sep] + r.last());
                assert(joined(q, seq![sep]) == joined(r.drop_last(), seq![sep]) + seq![sep] + q.last());
                assert(s =~= t.push(s.last()));
                assert(joined(q, seq![sep]) =~= s);
            }
        }
    } else {
        assert(joined(split_on(s, sep), seq![sep]) =~= s);
    }
}

/// No piece of a split holds the separator.
pub proof fn law_split_pieces_free_of_separator(s: Seq<char>, sep: char, k: int)
    requires
        0 <= k < split_on(s, sep).len(),
    ensures
        !split_on(s, sep)[k].contains(sep),
    decreases s.len(),
{
    if s.len() > 0 {
        let t = s.drop_last();
        let r = split_on(t, sep);
        lemma_split_nonempty(t, sep);
        if s.last() == sep {
            if k < r.len() {
                law_split_pieces_free_of_separator(t, sep, k);
            }
        } else {
            law_split_pieces_free_of_separator(t, sep, if k < r.len() { k } else { r.len() - 1 });
            if k == r.len() - 1 {
                let p = r.last().push(s.last());
                assert forall|i: int| 0 <= i < p.len() implies p[i] != sep by {
                    if i < p.len() - 1 {
                        assert(p[i] == r.last()[i]);
                    }
                }
            }
        }
    }
}

proof fn lemma_trim_start_head(s: Seq<char>)
    ensures
        trim_start(s).len() > 0 ==> !is_ws(trim_start(s)[0]),
    decreases s.len(),
{
    if s.len() > 0 && is_ws(s[0]) {
        lemma_trim_start_head(s.drop_first());
    }
}

proof fn lemma_trim_end_last(s: Seq<char>)
    ensures
        trim_end(s).len() > 0 ==> !is_ws(trim_end(s).last()),
    decreases s.len(),
{
    if s.len() > 0 && is_ws(s.last()) {
        lemma_trim_end_last(s.drop_last());
    }
}

/// A trimmed text starts and ends with a character other than white space.
pub proof fn law_trimmed_edges(s: Seq<char>)
    ensures
        trimmed(s).len() > 0 ==> !is_ws(trimmed(s)[0]) && !is_ws(trimmed(s).last()),
{
    let u = trim_start(s);
    lemma_trim_start_head(s);
    lemma_trim_end_last(u);
    let b = lemma_trim_end_prefix(u);
    if b > 0 {
        assert(trimmed(s)[0] == u[0]);
    }
}

/// Trimming twice is trimming once.
pub proof fn law_trim_idempotent(s: Seq<char>)
    ensures
        trimmed(trimmed(s)) == trimmed(s),
{
    let t = trimmed(s);
    law_trimmed_edges(s);
    assert(trim_start(t) == t);
    assert(trim_end(t) == t);
}

/// Replacing a pattern that does not occur leaves the text as it is.
pub proof fn law_replace_without_pattern(s: Seq<char>, p: Seq<char>, r: Seq<char>)
    requires
        p.len() > 0,
        !has_substring(s, p),
    ensures
        replaced(s, p, r) == s,
{
    assert forall|k: int| 0 <= k < s.len() implies !#[trigger] occurs_at(s, p, k) by {
        if occurs_at(s, p, k) {
            assert(has_substring(s, p));
        }
    }
    lemma_replaced_no_match_from_start(s, p, r);
}

// ---------------------------------------------------------------------------
// Query parameters
// ---------------------------------------------------------------------------

/// Whatever is asked, the SQL order of a listing is `ASC` or `DESC`.
pub proof fn law_sort_order_is_asc_or_desc(query: QuerysParams)
    ensures
        sort_order_of(sort_text(query)) == "ASC"@ || sort_order_of(sort_text(query)) == "DESC"@,
{
}

/// A listing searches exactly when a search text is given.
pub proof fn law_search_clause_empty_iff(table: Seq<char>, fields_search: Seq<char>, search: Seq<char>)
    ensures
        search_clause(table, fields_search, search).len() == 0 <==> search.len() == 0,
{
    reveal_strlit("CONCAT(");
    assert("CONCAT("@.len() == 7);
}

/// No column that the default selection yields contains `id`.
pub proof fn law_fields_without_id_free_of_id(table: Seq<char>, k: int)
    requires
        0 <= k < fields_without_id(table).len(),
    ensures
        !has_substring(fields_without_id(table)[k], "id"@),
{
    let pred = |x: Seq<char>| !has_substring(x, "id"@);
    column_names(table).lemma_filter_pred(pred, k);
}

/// Every selected column is one of the table's columns and one of those
/// asked for.
pub proof fn law_selected_fields_requested(requested: Seq<Seq<char>>, table: Seq<char>, k: int)
    requires
        0 <= k < selected_fields(requested, table).len(),
    ensures
        requested.contains(selected_fields(requested, table)[k]),
        column_names(table).contains(selected_fields(requested, table)[k]),
{
    let pred = |x: Seq<char>| requested.contains(x);
    let sel = selected_fields(requested, table);
    column_names(table).lemma_filter_pred(pred, k);
    assert(sel.contains(sel[k]));
    column_names(table).lemma_filter_contains_rev(pred, sel[k]);
}

/// Every prefixed entry contains the prefix.
pub proof fn law_prefixed_fields_hold_prefix(fields: Seq<char>, prefix: Seq<char>, k: int)
    requires
        0 <= k < prefixed_fields(fields, prefix).len(),
    ensures
        has_substring(prefixed_fields(fields, prefix)[k], prefix),
{
    let e = trimmed(split_on(fields, ',')[k]);
    if !has_substring(e, prefix) {
        let w = prefix + e;
        assert(w.subrange(0, prefix.len() as int) =~= prefix);
        assert(occurs_at(w, prefix, 0));
    }
}

// ---------------------------------------------------------------------------
// Column selection
// ---------------------------------------------------------------------------

/// Filtering by two tests that agree on every element gives the same result.
proof fn lemma_filter_agree<A>(s: Seq<A>, p: spec_fn(A) -> bool, q: spec_fn(A) -> bool)
    requires
        forall|i: int| 0 <= i < s.len() ==> p(s[i]) == q(s[i]),
    ensures
        s.filter(p) == s.filter(q),
    decreases s.len(),
{
    reveal(Seq::filter);
    if s.len() > 0 {
        assert forall|i: int| 0 <= i < s.drop_last().len() implies p(s.drop_last()[i]) == q(
            s.drop_last()[i],
        ) by {
            assert(s.drop_last()[i] == s[i]);
        }
        lemma_filter_agree(s.drop_last(), p, q);
        assert(p(s.last()) == q(s[s.len() - 1]));
    }
}

/// Every element of a list occurs in the list joined.
proof fn lemma_member_occurs_in_join(s: Seq<Seq<char>>, sep: Seq<char>, k: int)
    requires
        0 <= k < s.len(),
    ensures
        has_substring(joined(s, sep), s[k]),
    decreases s.len(),
{
    if s.len() == 1 {
        assert(s[0].subrange(0, s[0].len() as int) =~= s[0]);
        assert(occurs_at(joined(s, sep), s[k], 0));
    } else {
        let a = joined(s.drop_last(), sep);
        let whole = joined(s, sep);
        assert(whole == a + sep + s.last());
        if k == s.len() - 1 {
            let at = (a.len() + sep.len()) as int;
            assert(whole.subrange(at, at + s[k].len()) =~= s[k]);
            assert(occurs_at(whole, s[k], at));
        } else {
            assert(s.drop_last()[k] == s[k]);
            lemma_member_occurs_in_join(s.drop_last(), sep, k);
            let i = choose|i: int| occurs_at(a, s[k], i);
            assert(whole.subrange(i, i + s[k].len()) =~= a.subrange(i, i + s[k].len()));
            assert(occurs_at(whole, s[k], i));
        }
    }
}

/// With `without` set, when no column left out of the selection happens to
/// occur inside the joined selection, a listing selects exactly the table's
/// entries (trimmed, in table order, with their prefixes) whose column was
/// not selected: the complement of the selection, joined and trimmed.
pub proof fn law_params_without_is_complement(table: Seq<char>, params: Seq<char>)
    requires
        params.len() > 0,
        selected_fields(split_on(params, ','), table).len() > 0,
        forall|k: int|
            0 <= k < split_on(table, ',').len() && !selected_fields(split_on(params, ','), table).contains(
                column_name(trimmed(#[trigger] split_on(table, ',')[k])),
            ) ==> !has_substring(
                joined(selected_fields(split_on(params, ','), table), ", "@),
                column_name(trimmed(split_on(table, ',')[k])),
            ),
    ensures
        params_select(table, params, true) == trimmed(
            joined(
                split_on(table, ',').map_values(|e: Seq<char>| trimmed(e)).filter(
                    |f: Seq<char>| !selected_fields(split_on(params, ','), table).contains(column_name(f)),
                ),
                ", "@,
            ),
        ),
{
    let sel = selected_fields(split_on(params, ','), table);
    let chosen = joined(sel, ", "@);
    let entries = split_on(table, ',').map_values(|e: Seq<char>| trimmed(e));
    let p = |f: Seq<char>| !has_substring(chosen, column_name(f));
    let q = |f: Seq<char>| !sel.contains(column_name(f));
    assert forall|i: int| 0 <= i < entries.len() implies p(entries[i]) == q(entries[i]) by {
        assert(entries[i] == trimmed(split_on(table, ',')[i]));
        if sel.contains(column_name(entries[i])) {
            let k = choose|k: int| 0 <= k < sel.len() && sel[k] == column_name(entries[i]);
            lemma_member_occurs_in_join(sel, ", "@, k);
        }
    }
    lemma_filter_agree(entries, p, q);
}

/// Selecting a table's columns from its own selection selects the same
/// columns again.
pub proof fn law_select_fields_idempotent(requested: Seq<Seq<char>>, table: Seq<char>)
    ensures
        selected_fields(selected_fields(requested, table), table) == selected_fields(requested, table),
{
    let names = column_names(table);
    let sel = selected_fields(requested, table);
    let p = |x: Seq<char>| sel.contains(x);
    let q = |x: Seq<char>| requested.contains(x);
    assert forall|i: int| 0 <= i < names.len() implies p(names[i]) == q(names[i]) by {
        if requested.contains(names[i]) {
            names.lemma_filter_contains(q, i);
        }
        if sel.contains(names[i]) {
            let k = choose|k: int| 0 <= k < sel.len() && sel[k] == names[i];
            names.lemma_filter_pred(q, k);
        }
    }
    lemma_filter_agree(names, p, q);
}

/// A text free of the separator splits into itself alone.
proof fn lemma_split_without_separator(t: Seq<char>, c: char)
    requires
        !t.contains(c),
    ensures
        split_on(t, c) == seq![t],
    decreases t.len(),
{
    if t.len() > 0 {
        assert(!t.drop_last().contains(c)) by {
            if t.drop_last().contains(c) {
                let k = choose|k: int| 0 <= k < t.drop_last().len() && t.drop_last()[k] == c;
                assert(t[k] == c);
            }
        }
        lemma_split_without_separator(t.drop_last(), c);
        assert(t.last() != c);
        assert(t.drop_last().push(t.last()) =~= t);
        let r = split_on(t.drop_last(), c);
        assert(split_on(t, c) == r.update(r.len() - 1, r.last().push(t.last())));
        assert(r.update(r.len() - 1, r.last().push(t.last())) =~= seq![t]);
    } else {
        assert(t =~= Seq::<char>::empty());
    }
}

/// Splitting `s`, a separator and a separator-free `t` adds `t` as the
/// last piece.
proof fn lemma_split_append_piece(s: Seq<char>, c: char, t: Seq<char>)
    requires
        !t.contains(c),
    ensures
        split_on(s + seq![c] + t, c) == split_on(s, c).push(t),
    decreases t.len(),
{
    let w = s + seq![c] + t;
    if t.len() == 0 {
        assert(w.drop_last() =~= s);
        assert(w.last() == c);
        assert(t =~= Seq::<char>::empty());
        assert(split_on(w, c) == split_on(w.drop_last(), c).push(Seq::<char>::empty()));
    } else {
        let t0 = t.drop_last();
        assert(!t0.contains(c)) by {
            if t0.contains(c) {
                let k = choose|k: int| 0 <= k < t0.len() && t0[k] == c;
                assert(t[k] == c);
            }
        }
        lemma_split_append_piece(s, c, t0);
        lemma_split_nonempty(s, c);
        assert(w.drop_last() =~= s + seq![c] + t0);
        assert(w.last() == t.last());
        assert(t.last() != c);
        assert(t0.push(t.last()) =~= t);
        let r = split_on(s, c).push(t0);
        assert(split_on(w, c) == r.update(r.len() - 1, r.last().push(w.last())));
        assert(r.last() == t0);
        assert(r.update(r.len() - 1, r.last().push(w.last())) =~= split_on(s, c).push(t));
    }
}

/// Joining separator-free pieces with a one-character separator and
/// splitting again gives the pieces back.
proof fn lemma_join_split_roundtrip(r: Seq<Seq<char>>, c: char)
    requires
        r.len() >= 1,
        forall|k: int| 0 <= k < r.len() ==> !(#[trigger] r[k]).contains(c),
    ensures
        split_on(joined(r, seq![c]), c) == r,
    decreases r.len(),
{
    if r.len() == 1 {
        lemma_split_without_separator(r[0], c);
        assert(seq![r[0]] =~= r);
    } else {
        let a = r.drop_last();
        assert forall|k: int| 0 <= k < a.len() implies !(#[trigger] a[k]).contains(c) by {
            assert(a[k] == r[k]);
        }
        lemma_join_split_roundtrip(a, c);
        assert(!r[r.len() - 1].contains(c));
        lemma_split_append_piece(joined(a, seq![c]), c, r.last());
        assert(a.push(r.last()) =~= r);
    }
}

/// A text is its own trim exactly when it is empty or starts and ends with
/// a character other than white space.
proof fn lemma_trimmed_fixed(s: Seq<char>)
    ensures
        trimmed(s) == s <==> (s.len() == 0 || (!is_ws(s[0]) && !is_ws(s.last()))),
{
    law_trimmed_edges(s);
    if s.len() > 0 && !is_ws(s[0]) && !is_ws(s.last()) {
        assert(trim_start(s) == s);
        assert(trim_end(s) == s);
    }
}

/// Two trimmed texts put together are trimmed.
proof fn lemma_trimmed_concat(a: Seq<char>, b: Seq<char>)
    requires
        trimmed(a) == a,
        trimmed(b) == b,
    ensures
        trimmed(a + b) == a + b,
{
    lemma_trimmed_fixed(a);
    lemma_trimmed_fixed(b);
    if a.len() == 0 {
        assert(a + b =~= b);
    } else if b.len() == 0 {
        assert(a + b =~= a);
    } else {
        let w = a + b;
        assert(w[0] == a[0]);
        assert(w.last() == b.last());
        lemma_trimmed_fixed(w);
    }
}

/// Prefixing the fields a second time adds nothing: for a trimmed prefix
/// free of commas, the prefixed list, joined with commas and prefixed again,
/// is itself.
pub proof fn law_prefixing_twice_adds_nothing(fields: Seq<char>, prefix: Seq<char>)
    requires
        trimmed(prefix) == prefix,
        !prefix.contains(','),
    ensures
        prefixed_fields(joined(prefixed_fields(fields, prefix), seq![',']), prefix) == prefixed_fields(
            fields,
            prefix,
        ),
{
    let r = prefixed_fields(fields, prefix);
    lemma_split_nonempty(fields, ',');
    assert forall|k: int| 0 <= k < r.len() implies {
        &&& !(#[trigger] r[k]).contains(',')
        &&& trimmed(r[k]) == r[k]
        &&& has_substring(r[k], prefix)
    } by {
        let piece = split_on(fields, ',')[k];
        let t = trimmed(piece);
        law_split_pieces_free_of_separator(fields, ',', k);
        let (a, b) = crate::text::lemma_trimmed_slice(piece);
        assert(!t.contains(',')) by {
            if t.contains(',') {
                let i = choose|i: int| 0 <= i < t.len() && t[i] == ',';
                assert(piece[a + i] == ',');
            }
        }
        law_trim_idempotent(piece);
        law_prefixed_fields_hold_prefix(fields, prefix, k);
        if has_substring(t, prefix) {
            assert(r[k] == t);
        } else {
            assert(r[k] == prefix + t);
            lemma_trimmed_concat(prefix, t);
            assert(!(prefix + t).contains(',')) by {
                if (prefix + t).contains(',') {
                    let i = choose|i: int| 0 <= i < (prefix + t).len() && (prefix + t)[i] == ',';
                    if i < prefix.len() {
                        assert(prefix[i] == ',');
                    } else {
                        assert(t[i - prefix.len()] == ',');
                    }
                }
            }
        }
    }
    lemma_join_split_roundtrip(r, ',');
    let again = prefixed_fields(joined(r, seq![',']), prefix);
    assert(again =~= r);
}

// ---------------------------------------------------------------------------
// Row objects
// ---------------------------------------------------------------------------

/// The keys of a row object are pairwise distinct.
pub open spec fn keys_distinct(entries: Seq<(Seq<char>, FieldValue)>) -> bool {
    forall|i: int, j: int| 0 <= i < j < entries.len() ==> entries[i].0 != entries[j].0
}

/// Appending a key that no entry holds keeps the keys distinct.
proof fn lemma_keys_distinct_append(a: Seq<(Seq<char>, FieldValue)>, b: Seq<(Seq<char>, FieldValue)>)
    requires
        keys_distinct(a),
        keys_distinct(b),
        forall|i: int, j: int| 0 <= i < a.len() && 0 <= j < b.len() ==> a[i].0 != b[j].0,
    ensures
        keys_distinct(a + b),
{
    let c = a + b;
    assert forall|i: int, j: int| 0 <= i < j < c.len() implies c[i].0 != c[j].0 by {
        if j < a.len() {
            assert(c[i] == a[i] && c[j] == a[j]);
        } else if i >= a.len() {
            assert(c[i] == b[i - a.len()] && c[j] == b[j - a.len()]);
        } else {
            assert(c[i] == a[i] && c[j] == b[j - a.len()]);
        }
    }
}

/// Whether a row object has an entry with key `key`.
pub open spec fn has_key(entries: Seq<(Seq<char>, FieldValue)>, key: Seq<char>) -> bool {
    exists|i: int| 0 <= i < entries.len() && entries[i].0 == key
}

/// An object made of entries without `key`, an optional entry for `key`,
/// and more entries without it, has `key` exactly when the optional entry
/// is there.
proof fn lemma_has_key_segment(
    a: Seq<(Seq<char>, FieldValue)>,
    seg: Seq<(Seq<char>, FieldValue)>,
    c: Seq<(Seq<char>, FieldValue)>,
    key: Seq<char>,
)
    requires
        forall|i: int| 0 <= i < a.len() ==> a[i].0 != key,
        forall|i: int| 0 <= i < c.len() ==> c[i].0 != key,
        seg.len() == 0 || (seg.len() == 1 && seg[0].0 == key),
    ensures
        has_key(a + seg + c, key) <==> seg.len() == 1,
{
    let e = a + seg + c;
    if seg.len() == 1 {
        assert(e[a.len() as int] == seg[0]);
    } else {
        assert forall|i: int| 0 <= i < e.len() implies e[i].0 != key by {
            if i < a.len() {
                assert(e[i] == a[i]);
            } else {
                assert(e[i] == c[i - a.len()]);
            }
        }
    }
}

/// A category's JSON object has a column's key exactly when the column
/// list mentions the column and the row's value for it is not `NULL`.
pub proof fn law_category_object_keys_follow_row(row: CategoryRow, fields: Seq<char>)
    ensures
        has_key(category_entries(category_of_row(row, fields)), "title"@) <==> picked(
            fields,
            "categories.title"@,
            row.title,
        ) is Some,
        has_key(category_entries(category_of_row(row, fields)), "description"@) <==> picked(
            fields,
            "categories.description"@,
            row.description,
        ) is Some,
{
    reveal_strlit("id");
    reveal_strlit("title");
    reveal_strlit("description");
    assert("id"@.len() == 2);
    assert("title"@.len() == 5);
    assert("description"@.len() == 11);
    let c = category_of_row(row, fields);
    let e0 = seq![("id"@, FieldValue::Int(c.id))];
    let e1 = text_entry("title"@, c.title);
    let e2 = text_entry("description"@, c.description);
    let none = Seq::<(Seq<char>, FieldValue)>::empty();
    lemma_has_key_segment(e0, e1, e2, "title"@);
    assert(e0 + e1 + e2 + none =~= e0 + e1 + e2);
    lemma_has_key_segment(e0 + e1, e2, none, "description"@);
}

/// A tag's JSON object has a column's key exactly when the column list
/// mentions the column and the row's value for it is not `NULL`.
pub proof fn law_tag_object_keys_follow_row(row: TagRow, fields: Seq<char>)
    ensures
        has_key(tag_entries(tag_of_row(row, fields)), "name"@) <==> picked(fields, "tags.name"@, row.name) is Some,
        has_key(tag_entries(tag_of_row(row, fields)), "description"@) <==> picked(
            fields,
            "tags.description"@,
            row.description,
        ) is Some,
        has_key(tag_entries(tag_of_row(row, fields)), "color"@) <==> picked(fields, "tags.color"@, row.color) is Some,
{
    reveal_strlit("id");
    reveal_strlit("name");
    reveal_strlit("description");
    reveal_strlit("color");
    assert("id"@.len() == 2);
    assert("name"@.len() == 4);
    assert("description"@.len() == 11);
    assert("color"@.len() == 5);
    let t = tag_of_row(row, fields);
    let e0 = seq![("id"@, FieldValue::Int(t.id))];
    let e1 = text_entry("name"@, t.name);
    let e2 = text_entry("description"@, t.description);
    let e3 = text_entry("color"@, t.color);
    let none = Seq::<(Seq<char>, FieldValue)>::empty();
    assert(e0 + e1 + e2 + e3 =~= e0 + e1 + (e2 + e3));
    lemma_has_key_segment(e0, e1, e2 + e3, "name"@);
    lemma_has_key_segment(e0 + e1, e2, e3, "description"@);
    assert(e0 + e1 + e2 + e3 + none =~= e0 + e1 + e2 + e3);
    lemma_has_key_segment(e0 + e1 + e2, e3, none, "color"@);
}

/// A note's JSON object has a column's key exactly when the column list
/// mentions the column and the row's value for it is not `NULL`.
pub proof fn law_note_object_keys_follow_row(row: NoteRow, fields: Seq<char>)
    ensures
        has_key(note_row_entries(row, fields), "title"@) <==> picked(fields, "notes.title"@, row.title) is Some,
        has_key(note_row_entries(row, fields), "details"@) <==> picked(fields, "notes.details"@, row.details) is Some,
        has_key(note_row_entries(row, fields), "done"@) <==> picked(fields, "notes.done"@, row.done) is Some,
        has_key(note_row_entries(row, fields), "rank"@) <==> picked(fields, "notes.rank"@, row.rank) is Some,
        has_key(note_row_entries(row, fields), "tags"@) <==> picked(fields, "notes.tags"@, row.tags) is Some,
{
    reveal_strlit("id");
    reveal_strlit("title");
    reveal_strlit("details");
    reveal_strlit("done");
    reveal_strlit("rank");
    reveal_strlit("tags");
    assert("id"@.len() == 2);
    assert("title"@.len() == 5);
    assert("details"@.len() == 7);
    assert("done"@[0] == 'd' && "done"@.len() == 4);
    assert("rank"@[0] == 'r' && "rank"@.len() == 4);
    assert("tags"@[0] == 't' && "tags"@.len() == 4);
    let e0 = seq![("id"@, FieldValue::Int(row.id))];
    let e1 = text_entry("title"@, picked(fields, "notes.title"@, row.title));
    let e2 = text_entry("details"@, picked(fields, "notes.details"@, row.details));
    let e3 = bool_entry("done"@, picked(fields, "notes.done"@, row.done));
    let e4 = int_entry("rank"@, picked(fields, "notes.rank"@, row.rank));
    let e5 = tags_entry("tags"@, tags_view(picked(fields, "notes.tags"@, row.tags)));
    let none = Seq::<(Seq<char>, FieldValue)>::empty();
    let all = e0 + e1 + e2 + e3 + e4 + e5;
    assert(all == note_row_entries(row, fields));
    assert(has_key(all, "title"@) <==> e1.len() == 1) by {
        assert(all =~= e0 + e1 + (e2 + e3 + e4 + e5));
        lemma_has_key_segment(e0, e1, e2 + e3 + e4 + e5, "title"@);
    }
    assert(has_key(all, "details"@) <==> e2.len() == 1) by {
        assert(all =~= e0 + e1 + e2 + (e3 + e4 + e5));
        lemma_has_key_segment(e0 + e1, e2, e3 + e4 + e5, "details"@);
    }
    assert(has_key(all, "done"@) <==> e3.len() == 1) by {
        assert(all =~= e0 + e1 + e2 + e3 + (e4 + e5));
        lemma_has_key_segment(e0 + e1 + e2, e3, e4 + e5, "done"@);
    }
    assert(has_key(all, "rank"@) <==> e4.len() == 1) by {
        lemma_has_key_segment(e0 + e1 + e2 + e3, e4, e5, "rank"@);
    }
    assert(has_key(all, "tags"@) <==> e5.len() == 1) by {
        assert(all + none =~= all);
        lemma_has_key_segment(e0 + e1 + e2 + e3 + e4, e5, none, "tags"@);
    }
}

/// The keys of a tag's JSON object are `id` first and then distinct
/// column names: no key appears twice.
pub proof fn law_tag_object_keys_distinct(t: Tag)
    ensures
        tag_entries(t)[0] == (("id"@, FieldValue::Int(t.id))),
        keys_distinct(tag_entries(t)),
{
    reveal_strlit("id");
    reveal_strlit("name");
    reveal_strlit("description");
    reveal_strlit("color");
    assert("id"@.len() == 2);
    assert("name"@.len() == 4);
    assert("description"@.len() == 11);
    assert("color"@.len() == 5);
    let e0 = seq![("id"@, FieldValue::Int(t.id))];
    let e1 = text_entry("name"@, t.name);
    let e2 = text_entry("description"@, t.description);
    let e3 = text_entry("color"@, t.color);
    lemma_keys_distinct_append(e0, e1);
    lemma_keys_distinct_append(e0 + e1, e2);
    lemma_keys_distinct_append(e0 + e1 + e2, e3);
}

/// The keys of a category's JSON object are `id` first and then distinct
/// column names: no key appears twice.
pub proof fn law_category_object_keys_distinct(c: Category)
    ensures
        category_entries(c)[0] == (("id"@, FieldValue::Int(c.id))),
        keys_distinct(category_entries(c)),
{
    reveal_strlit("id");
    reveal_strlit("title");
    reveal_strlit("description");
    assert("id"@.len() == 2);
    assert("title"@.len() == 5);
    assert("description"@.len() == 11);
    let e0 = seq![("id"@, FieldValue::Int(c.id))];
    let e1 = text_entry("title"@, c.title);
    let e2 = text_entry("description"@, c.description);
    lemma_keys_distinct_append(e0, e1);
    lemma_keys_distinct_append(e0 + e1, e2);
}

/// The keys of a note's JSON object are `id` first and then distinct
/// column names: no key appears twice.
pub proof fn law_note_object_keys_distinct(n: Note)
    ensures
        note_entries(n)[0] == (("id"@, FieldValue::Int(n.id))),
        keys_distinct(note_entries(n)),
{
    reveal_strlit("id");
    reveal_strlit("title");
    reveal_strlit("details");
    reveal_strlit("done");
    reveal_strlit("rank");
    reveal_strlit("tags");
    assert("id"@.len() == 2);
    assert("title"@.len() == 5);
    assert("details"@.len() == 7);
    assert("done"@[0] == 'd' && "done"@.len() == 4);
    assert("rank"@[0] == 'r' && "rank"@.len() == 4);
    assert("tags"@[0] == 't' && "tags"@.len() == 4);
    let e0 = seq![("id"@, FieldValue::Int(n.id))];
    let e1 = text_entry("title"@, n.title);
    let e2 = text_entry("details"@, n.details);
    let e3 = bool_entry("done"@, n.done);
    let e4 = int_entry("rank"@, n.rank);
    let e5 = tags_entry("tags"@, tags_view(n.tags));
    lemma_keys_distinct_append(e0, e1);
    lemma_keys_distinct_append(e0 + e1, e2);
    lemma_keys_distinct_append(e0 + e1 + e2, e3);
    lemma_keys_distinct_append(e0 + e1 + e2 + e3, e4);
    lemma_keys_distinct_append(e0 + e1 + e2 + e3 + e4, e5);
}

// ---------------------------------------------------------------------------
// Statements
// ---------------------------------------------------------------------------

/// The placeholders of a deletion are `$1` to `$n`, one per id.
pub proof fn law_placeholders_numbered(n: nat, k: int)
    requires
        0 <= k < n,
    ensures
        placeholders(n).len() == n,
        placeholders(n)[k] == placeholder((k + 1) as nat),
{
}

/// An update of a category binds one parameter more than it sets columns:
/// the id first, then assignment `k` takes parameter `$k+2`.
pub proof fn law_category_update_binds_each_assignment(body: CategoryUseUpdate)
    ensures
        category_update_params(body).len() == category_update_columns(body).len() + 1,
        assignments(category_update_columns(body)).len() == category_update_columns(body).len(),
        forall|k: int|
            0 <= k < category_update_columns(body).len() ==> #[trigger] assignments(
                category_update_columns(body),
            )[k] == category_update_columns(body)[k] + " = "@ + placeholder((k + 2) as nat),
{
}

/// An update of a note binds one parameter more than it sets columns:
/// the id first, then assignment `k` takes parameter `$k+2`.
pub proof fn law_note_update_binds_each_assignment(body: NoteUseUpdate)
    ensures
        note_update_params(body).len() == note_update_columns(body).len() + 1,
        assignments(note_update_columns(body)).len() == note_update_columns(body).len(),
        forall|k: int|
            0 <= k < note_update_columns(body).len() ==> #[trigger] assignments(
                note_update_columns(body),
            )[k] == note_update_columns(body)[k] + " = "@ + placeholder((k + 2) as nat),
{
}

// ---------------------------------------------------------------------------
// Migrations
// ---------------------------------------------------------------------------

/// Every statement a migration script yields is non-empty and holds no `;`.
pub proof fn law_sql_commands_clean(script: Seq<char>, k: int)
    requires
        0 <= k < sql_commands(script).len(),
    ensures
        sql_commands(script)[k].len() > 0,
        !sql_commands(script)[k].contains(';'),
{
    let all = split_on(script, ';').map_values(|c: Seq<char>| trimmed(c));
    let pred = |c: Seq<char>| c.len() > 0;
    let cmds = sql_commands(script);
    all.lemma_filter_pred(pred, k);
    assert(cmds.contains(cmds[k]));
    all.lemma_filter_contains_rev(pred, cmds[k]);
    let j = choose|j: int| 0 <= j < all.len() && all[j] == cmds[k];
    let piece = split_on(script, ';')[j];
    law_split_pieces_free_of_separator(script, ';', j);
    let (a, b) = crate::text::lemma_trimmed_slice(piece);
    if cmds[k].contains(';') {
        let i = choose|i: int| 0 <= i < cmds[k].len() && cmds[k][i] == ';';
        assert(piece[a + i] == ';');
    }
}

/// Every non-blank piece of a migration script between `;` separators, the
/// piece after the last `;` included, is executed as one of its statements;
/// a script without `;` and with some text is exactly one statement.
pub proof fn law_sql_commands_cover_script(script: Seq<char>)
    ensures
        forall|k: int|
            0 <= k < split_on(script, ';').len() && trimmed(#[trigger] split_on(script, ';')[k]).len() > 0
                ==> sql_commands(script).contains(trimmed(split_on(script, ';')[k])),
        !script.contains(';') && trimmed(script).len() > 0 ==> sql_commands(script) == seq![trimmed(script)],
        !script.contains(';') && trimmed(script).len() == 0 ==> sql_commands(script).len() == 0,
{
    let pieces = split_on(script, ';');
    let all = pieces.map_values(|c: Seq<char>| trimmed(c));
    let pred = |c: Seq<char>| c.len() > 0;
    assert forall|k: int|
        0 <= k < pieces.len() && trimmed(#[trigger] pieces[k]).len() > 0 implies sql_commands(script).contains(
        trimmed(pieces[k]),
    ) by {
        assert(all[k] == trimmed(pieces[k]));
        all.lemma_filter_contains(pred, k);
    }
    if !script.contains(';') {
        lemma_split_without_separator(script, ';');
        assert(all =~= seq![trimmed(script)]);
        reveal(Seq::filter);
        assert(seq![trimmed(script)].drop_last() =~= Seq::<Seq<char>>::empty());
        if trimmed(script).len() > 0 {
            assert(sql_commands(script) =~= seq![trimmed(script)]);
        } else if sql_commands(script).len() > 0 {
            let first = sql_commands(script)[0];
            all.lemma_filter_pred(pred, 0);
            assert(sql_commands(script).contains(first));
            all.lemma_filter_contains_rev(pred, first);
            assert(first == all[0]);
        }
    }
}

/// An update of a tag sets exactly the columns whose field the body holds,
/// each once; `$1` is the id, and assignment `k` reads `column = $k+2`
/// with parameter `$k+2` holding the body's value for that column.
pub proof fn law_tag_update_sets_present_fields(body: TagUseUpdate)
    ensures
        tag_update_columns(body).contains("name"@) <==> body.name is Some,
        tag_update_columns(body).contains("description"@) <==> body.description is Some,
        tag_update_columns(body).contains("color"@) <==> body.color is Some,
        tag_update_columns(body).no_duplicates(),
        tag_update_params(body).len() == tag_update_columns(body).len() + 1,
        tag_update_params(body)[0] == SqlParam::Int(body.id),
        forall|k: int|
            0 <= k < tag_update_columns(body).len() ==> {
                let c = #[trigger] tag_update_columns(body)[k];
                let p = tag_update_params(body)[k + 1];
                &&& assignments(tag_update_columns(body))[k] == c + " = "@ + placeholder((k + 2) as nat)
                &&& (c == "name"@ && p == SqlParam::OptText(body.name)) || (c == "description"@ && p
                    == SqlParam::OptText(body.description)) || (c == "color"@ && p == SqlParam::OptText(
                    body.color,
                ))
            },
{
    reveal_strlit("name");
    reveal_strlit("description");
    reveal_strlit("color");
    assert("name"@.len() == 4);
    assert("description"@.len() == 11);
    assert("color"@.len() == 5);
    let cols = tag_update_columns(body);
    let params = tag_update_params(body);
    let c1 = if body.name is Some { seq!["name"@] } else { Seq::<Seq<char>>::empty() };
    let c2 = if body.description is Some { seq!["description"@] } else { Seq::<Seq<char>>::empty() };
    let c3 = if body.color is Some { seq!["color"@] } else { Seq::<Seq<char>>::empty() };
    let p1 = if body.name is Some { seq![SqlParam::OptText(body.name)] } else { Seq::<SqlParam>::empty() };
    let p2 = if body.description is Some {
        seq![SqlParam::OptText(body.description)]
    } else {
        Seq::<SqlParam>::empty()
    };
    let p3 = if body.color is Some { seq![SqlParam::OptText(body.color)] } else { Seq::<SqlParam>::empty() };
    assert(cols == c1 + c2 + c3);
    assert(params == seq![SqlParam::Int(body.id)] + p1 + p2 + p3);
    assert forall|k: int| 0 <= k < cols.len() implies {
        let c = #[trigger] cols[k];
        let p = params[k + 1];
        (c == "name"@ && p == SqlParam::OptText(body.name)) || (c == "description"@ && p == SqlParam::OptText(
            body.description,
        )) || (c == "color"@ && p == SqlParam::OptText(body.color))
    } by {
        if k < c1.len() {
            assert(cols[k] == c1[k]);
            assert(params[k + 1] == p1[k]);
        } else if k < c1.len() + c2.len() {
            assert(cols[k] == c2[k - c1.len()]);
            assert(params[k + 1] == p2[k - c1.len()]);
        } else {
            assert(cols[k] == c3[k - c1.len() - c2.len()]);
            assert(params[k + 1] == p3[k - c1.len() - c2.len()]);
        }
    }
    if body.name is Some {
        assert(cols[0] == "name"@);
    }
    if body.description is Some {
        assert(cols[c1.len() as int] == "description"@);
    }
    if body.color is Some {
        assert(cols[(c1.len() + c2.len()) as int] == "color"@);
    }
}

/// An update of a category sets exactly the columns whose field the body
/// holds, each once; `$1` is the id, and assignment `k` reads
/// `column = $k+2` with parameter `$k+2` holding the body's value for that
/// column.
pub proof fn law_category_update_sets_present_fields(body: CategoryUseUpdate)
    ensures
        category_update_columns(body).contains("title"@) <==> body.title is Some,
        category_update_columns(body).contains("description"@) <==> body.description is Some,
        category_update_columns(body).no_duplicates(),
        category_update_params(body).len() == category_update_columns(body).len() + 1,
        category_update_params(body)[0] == SqlParam::Int(body.id),
        forall|k: int|
            0 <= k < category_update_columns(body).len() ==> {
                let c = #[trigger] category_update_columns(body)[k];
                let p = category_update_params(body)[k + 1];
                &&& assignments(category_update_columns(body))[k] == c + " = "@ + placeholder((k + 2) as nat)
                &&& (c == "title"@ && p == SqlParam::OptText(body.title)) || (c == "description"@ && p
                    == SqlParam::OptText(body.description))
            },
{
    reveal_strlit("title");
    reveal_strlit("description");
    assert("title"@.len() == 5);
    assert("description"@.len() == 11);
    let cols = category_update_columns(body);
    let params = category_update_params(body);
    let c1 = if body.title is Some { seq!["title"@] } else { Seq::<Seq<char>>::empty() };
    let c2 = if body.description is Some { seq!["description"@] } else { Seq::<Seq<char>>::empty() };
    let p1 = if body.title is Some { seq![SqlParam::OptText(body.title)] } else { Seq::<SqlParam>::empty() };
    let p2 = if body.description is Some {
        seq![SqlParam::OptText(body.description)]
    } else {
        Seq::<SqlParam>::empty()
    };
    assert(cols == c1 + c2);
    assert(params == seq![SqlParam::Int(body.id)] + p1 + p2);
    assert forall|k: int| 0 <= k < cols.len() implies {
        let c = #[trigger] cols[k];
        let p = params[k + 1];
        (c == "title"@ && p == SqlParam::OptText(body.title)) || (c == "description"@ && p == SqlParam::OptText(
            body.description,
        ))
    } by {
        if k < c1.len() {
            assert(cols[k] == c1[k]);
            assert(params[k + 1] == p1[k]);
        } else {
            assert(cols[k] == c2[k - c1.len()]);
            assert(params[k + 1] == p2[k - c1.len()]);
        }
    }
    if body.title is Some {
        assert(cols[0] == "title"@);
    }
    if body.description is Some {
        assert(cols[c1.len() as int] == "description"@);
    }
}

/// An update of a note sets exactly the columns whose field the body holds,
/// each once; `$1` is the id, and assignment `k` reads `column = $k+2` with
/// parameter `$k+2` holding the body's value for that column.
pub proof fn law_note_update_sets_present_fields(body: NoteUseUpdate)
    ensures
        note_update_columns(body).contains("title"@) <==> body.title is Some,
        note_update_columns(body).contains("details"@) <==> body.details is Some,
        note_update_columns(body).contains("done"@) <==> body.done is Some,
        note_update_columns(body).contains("rank"@) <==> body.rank is Some,
        note_update_columns(body).no_duplicates(),
        note_update_params(body).len() == note_update_columns(body).len() + 1,
        note_update_params(body)[0] == SqlParam::Int(body.id),
        forall|k: int|
            0 <= k < note_update_columns(body).len() ==> {
                let c = #[trigger] note_update_columns(body)[k];
                let p = note_update_params(body)[k + 1];
                &&& assignments(note_update_columns(body))[k] == c + " = "@ + placeholder((k + 2) as nat)
                &&& (c == "title"@ && p == SqlParam::OptText(body.title)) || (c == "details"@ && p
                    == SqlParam::OptText(body.details)) || (c == "done"@ && p == SqlParam::OptBool(body.done))
                    || (c == "rank"@ && p == SqlParam::OptInt(body.rank))
            },
{
    reveal_strlit("title");
    reveal_strlit("details");
    reveal_strlit("done");
    reveal_strlit("rank");
    assert("title"@.len() == 5);
    assert("details"@.len() == 7);
    assert("done"@[0] == 'd' && "done"@.len() == 4);
    assert("rank"@[0] == 'r' && "rank"@.len() == 4);
    let cols = note_update_columns(body);
    let params = note_update_params(body);
    let c1 = if body.title is Some { seq!["title"@] } else { Seq::<Seq<char>>::empty() };
    let c2 = if body.details is Some { seq!["details"@] } else { Seq::<Seq<char>>::empty() };
    let c3 = if body.done is Some { seq!["done"@] } else { Seq::<Seq<char>>::empty() };
    let c4 = if body.rank is Some { seq!["rank"@] } else { Seq::<Seq<char>>::empty() };
    let p1 = if body.title is Some { seq![SqlParam::OptText(body.title)] } else { Seq::<SqlParam>::empty() };
    let p2 = if body.details is Some { seq![SqlParam::OptText(body.details)] } else { Seq::<SqlParam>::empty() };
    let p3 = if body.done is Some { seq![SqlParam::OptBool(body.done)] } else { Seq::<SqlParam>::empty() };
    let p4 = if body.rank is Some { seq![SqlParam::OptInt(body.rank)] } else { Seq::<SqlParam>::empty() };
    assert(cols == c1 + c2 + c3 + c4);
    assert(params == seq![SqlParam::Int(body.id)] + p1 + p2 + p3 + p4);
    assert forall|k: int| 0 <= k < cols.len() implies {
        let c = #[trigger] cols[k];
        let p = params[k + 1];
        (c == "title"@ && p == SqlParam::OptText(body.title)) || (c == "details"@ && p == SqlParam::OptText(
            body.details,
        )) || (c == "done"@ && p == SqlParam::OptBool(body.done)) || (c == "rank"@ && p == SqlParam::OptInt(
            body.rank,
        ))
    } by {
        let l1 = c1.len() as int;
        let l2 = l1 + c2.len();
        let l3 = l2 + c3.len();
        if k < l1 {
            assert(cols[k] == c1[k]);
            assert(params[k + 1] == p1[k]);
        } else if k < l2 {
            assert(cols[k] == c2[k - l1]);
            assert(params[k + 1] == p2[k - l1]);
        } else if k < l3 {
            assert(cols[k] == c3[k - l2]);
            assert(params[k + 1] == p3[k - l2]);
        } else {
            assert(cols[k] == c4[k - l3]);
            assert(params[k + 1] == p4[k - l3]);
        }
    }
    if body.title is Some {
        assert(cols[0] == "title"@);
    }
    if body.details is Some {
        assert(cols[c1.len() as int] == "details"@);
    }
    if body.done is Some {
        assert(cols[(c1.len() + c2.len()) as int] == "done"@);
    }
    if body.rank is Some {
        assert(cols[(c1.len() + c2.len() + c3.len()) as int] == "rank"@);
    }
}

/// In an object made of entries without `key`, an optional entry for
/// `key`, and more entries without it, `key` holds exactly the optional
/// entry's value.
proof fn lemma_entry_segment(
    a: Seq<(Seq<char>, FieldValue)>,
    seg: Seq<(Seq<char>, FieldValue)>,
    c: Seq<(Seq<char>, FieldValue)>,
    key: Seq<char>,
)
    requires
        forall|i: int| 0 <= i < a.len() ==> a[i].0 != key,
        forall|i: int| 0 <= i < c.len() ==> c[i].0 != key,
        seg.len() == 0 || (seg.len() == 1 && seg[0].0 == key),
    ensures
        forall|v: FieldValue| #[trigger] (a + seg + c).contains((key, v)) <==> (seg.len() == 1 && seg[0].1 == v),
{
    let e = a + seg + c;
    assert forall|v: FieldValue| #[trigger] e.contains((key, v)) <==> (seg.len() == 1 && seg[0].1 == v) by {
        if seg.len() == 1 && seg[0].1 == v {
            assert(e[a.len() as int] == seg[0]);
        }
        if e.contains((key, v)) {
            let i = choose|i: int| 0 <= i < e.len() && e[i] == (key, v);
            if i < a.len() {
                assert(e[i] == a[i]);
            } else if i < a.len() + seg.len() {
                assert(e[i] == seg[i - a.len()]);
            } else {
                assert(e[i] == c[i - a.len() - seg.len()]);
            }
        }
    }
}

/// Each entry of a tag's JSON object holds the tag's own value for its
/// column: `id` the id, and `name`, `description` and `color` are there
/// exactly when the tag has them, with their text.
pub proof fn law_tag_object_values(t: Tag)
    ensures
        forall|v: FieldValue| #[trigger] tag_entries(t).contains(("id"@, v)) <==> v == FieldValue::Int(t.id),
        forall|v: FieldValue|
            #[trigger] tag_entries(t).contains(("name"@, v)) <==> (t.name is Some && v == FieldValue::Text(
                t.name->0@,
            )),
        forall|v: FieldValue|
            #[trigger] tag_entries(t).contains(("description"@, v)) <==> (t.description is Some && v
                == FieldValue::Text(t.description->0@)),
        forall|v: FieldValue|
            #[trigger] tag_entries(t).contains(("color"@, v)) <==> (t.color is Some && v == FieldValue::Text(
                t.color->0@,
            )),
{
    reveal_strlit("id");
    reveal_strlit("name");
    reveal_strlit("description");
    reveal_strlit("color");
    assert("id"@.len() == 2);
    assert("name"@.len() == 4);
    assert("description"@.len() == 11);
    assert("color"@.len() == 5);
    let e0 = seq![("id"@, FieldValue::Int(t.id))];
    let e1 = text_entry("name"@, t.name);
    let e2 = text_entry("description"@, t.description);
    let e3 = text_entry("color"@, t.color);
    let none = Seq::<(Seq<char>, FieldValue)>::empty();
    let all = e0 + e1 + e2 + e3;
    assert(all == tag_entries(t));
    assert(none + e0 + (e1 + e2 + e3) =~= all);
    lemma_entry_segment(none, e0, e1 + e2 + e3, "id"@);
    assert(e0 + e1 + (e2 + e3) =~= all);
    lemma_entry_segment(e0, e1, e2 + e3, "name"@);
    lemma_entry_segment(e0 + e1, e2, e3, "description"@);
    assert(all + none =~= all);
    lemma_entry_segment(e0 + e1 + e2, e3, none, "color"@);
}

/// Each entry of a category's JSON object holds the category's own value
/// for its column: `id` the id, and `title` and `description` are there
/// exactly when the category has them, with their text.
pub proof fn law_category_object_values(c: Category)
    ensures
        forall|v: FieldValue| #[trigger] category_entries(c).contains(("id"@, v)) <==> v == FieldValue::Int(c.id),
        forall|v: FieldValue|
            #[trigger] category_entries(c).contains(("title"@, v)) <==> (c.title is Some && v == FieldValue::Text(
                c.title->0@,
            )),
        forall|v: FieldValue|
            #[trigger] category_entries(c).contains(("description"@, v)) <==> (c.description is Some && v
                == FieldValue::Text(c.description->0@)),
{
    reveal_strlit("id");
    reveal_strlit("title");
    reveal_strlit("description");
    assert("id"@.len() == 2);
    assert("title"@.len() == 5);
    assert("description"@.len() == 11);
    let e0 = seq![("id"@, FieldValue::Int(c.id))];
    let e1 = text_entry("title"@, c.title);
    let e2 = text_entry("description"@, c.description);
    let none = Seq::<(Seq<char>, FieldValue)>::empty();
    let all = e0 + e1 + e2;
    assert(all == category_entries(c));
    assert(none + e0 + (e1 + e2) =~= all);
    lemma_entry_segment(none, e0, e1 + e2, "id"@);
    lemma_entry_segment(e0, e1, e2, "title"@);
    assert(all + none =~= all);
    lemma_entry_segment(e0 + e1, e2, none, "description"@);
}

/// Each entry of a note's JSON object holds the note's own value for its
/// column: `id` the id, and `title`, `details`, `done`, `rank` and `tags`
/// are there exactly when the note has them, with that value.
pub proof fn law_note_object_values(n: Note)
    ensures
        forall|v: FieldValue| #[trigger] note_entries(n).contains(("id"@, v)) <==> v == FieldValue::Int(n.id),
        forall|v: FieldValue|
            #[trigger] note_entries(n).contains(("title"@, v)) <==> (n.title is Some && v == FieldValue::Text(
                n.title->0@,
            )),
        forall|v: FieldValue|
            #[trigger] note_entries(n).contains(("details"@, v)) <==> (n.details is Some && v == FieldValue::Text(
                n.details->0@,
            )),
        forall|v: FieldValue|
            #[trigger] note_entries(n).contains(("done"@, v)) <==> (n.done is Some && v == FieldValue::Bool(
                n.done->0,
            )),
        forall|v: FieldValue|
            #[trigger] note_entries(n).contains(("rank"@, v)) <==> (n.rank is Some && v == FieldValue::Int(
                n.rank->0,
            )),
        forall|v: FieldValue|
            #[trigger] note_entries(n).contains(("tags"@, v)) <==> (n.tags is Some && v == FieldValue::Tags(
                n.tags->0@,
            )),
{
    reveal_strlit("id");
    reveal_strlit("title");
    reveal_strlit("details");
    reveal_strlit("done");
    reveal_strlit("rank");
    reveal_strlit("tags");
    assert("id"@.len() == 2);
    assert("title"@.len() == 5);
    assert("details"@.len() == 7);
    assert("done"@[0] == 'd' && "done"@.len() == 4);
    assert("rank"@[0] == 'r' && "rank"@.len() == 4);
    assert("tags"@[0] == 't' && "tags"@.len() == 4);
    let e0 = seq![("id"@, FieldValue::Int(n.id))];
    let e1 = text_entry("title"@, n.title);
    let e2 = text_entry("details"@, n.details);
    let e3 = bool_entry("done"@, n.done);
    let e4 = int_entry("rank"@, n.rank);
    let e5 = tags_entry("tags"@, tags_view(n.tags));
    let none = Seq::<(Seq<char>, FieldValue)>::empty();
    let all = e0 + e1 + e2 + e3 + e4 + e5;
    assert(all == note_entries(n));
    assert(none + e0 + (e1 + e2 + e3 + e4 + e5) =~= all);
    lemma_entry_segment(none, e0, e1 + e2 + e3 + e4 + e5, "id"@);
    assert(e0 + e1 + (e2 + e3 + e4 + e5) =~= all);
    lemma_entry_segment(e0, e1, e2 + e3 + e4 + e5, "title"@);
    assert(e0 + e1 + e2 + (e3 + e4 + e5) =~= all);
    lemma_entry_segment(e0 + e1, e2, e3 + e4 + e5, "details"@);
    assert(e0 + e1 + e2 + e3 + (e4 + e5) =~= all);
    lemma_entry_segment(e0 + e1 + e2, e3, e4 + e5, "done"@);
    lemma_entry_segment(e0 + e1 + e2 + e3, e4, e5, "rank"@);
    assert(all + none =~= all);
    lemma_entry_segment(e0 + e1 + e2 + e3 + e4, e5, none, "tags"@);
}

/// When some of the `:` separated names of `fields_search` are columns of
/// the search list, free-text search concatenates exactly those columns;
/// when none is, or nothing is asked for, it concatenates every entry of the
/// search list.
pub proof fn law_search_columns_follow_request(table: Seq<char>, fields_search: Seq<char>)
    ensures
        fields_search.len() > 0 && (exists|c: Seq<char>|
            column_names(table).contains(c) && split_on(fields_search, ':').contains(c)) ==> forall|c: Seq<char>|
            #[trigger] search_columns(table, fields_search).contains(c) <==> (column_names(table).contains(c)
                && split_on(fields_search, ':').contains(c)),
        !(fields_search.len() > 0 && (exists|c: Seq<char>|
            column_names(table).contains(c) && split_on(fields_search, ':').contains(c))) ==> search_columns(
            table,
            fields_search,
        ) == split_on(table, ',').map_values(|e: Seq<char>| trimmed(e)),
{
    let names = column_names(table);
    let requested = split_on(fields_search, ':');
    let pred = |x: Seq<char>| requested.contains(x);
    let chosen = selected_fields(requested, table);
    assert(chosen == names.filter(pred));
    if exists|c: Seq<char>| names.contains(c) && requested.contains(c) {
        let c = choose|c: Seq<char>| names.contains(c) && requested.contains(c);
        let k = choose|k: int| 0 <= k < names.len() && names[k] == c;
        names.lemma_filter_contains(pred, k);
        assert(chosen.len() > 0);
        assert forall|d: Seq<char>| #[trigger] chosen.contains(d) <==> (names.contains(d) && requested.contains(d)) by {
            if chosen.contains(d) {
                names.lemma_filter_contains_rev(pred, d);
                let j = choose|j: int| 0 <= j < chosen.len() && chosen[j] == d;
                names.lemma_filter_pred(pred, j);
            }
            if names.contains(d) && requested.contains(d) {
                let j = choose|j: int| 0 <= j < names.len() && names[j] == d;
                names.lemma_filter_contains(pred, j);
            }
        }
    } else if chosen.len() > 0 {
        let d = chosen[0];
        names.lemma_filter_pred(pred, 0);
        assert(chosen.contains(d));
        names.lemma_filter_contains_rev(pred, d);
    }
}

} // verus!
