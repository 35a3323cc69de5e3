//! The pieces of the migration runner that decide what to execute.
use vstd::prelude::*;
use crate::text::{cat, split, split_on, str_views, string_views, trim, trimmed};

verus! {

/// The statements of a SQL script: its `;` separated pieces, trimmed,
/// without the empty ones.
pub open spec fn sql_commands(script: Seq<char>) -> Seq<Seq<char>> {
    split_on(script, ';').map_values(|c: Seq<char>| trimmed(c)).filter(|c: Seq<char>| c.len() > 0)
}

/// The statements of a SQL script, in order. Every non-blank piece between
/// `;` separators, the one after the last `;` included, is among them.
pub fn split_sql_commands(script: &str) -> (r: Vec<String>)
    ensures
        string_views(r@) == sql_commands(script@),
        forall|k: int|
            0 <= k < split_on(script@, ';').len() && trimmed(#[trigger] split_on(script@, ';')[k]).len() > 0
                ==> string_views(r@).contains(trimmed(split_on(script@, ';')[k])),
{
    let pieces = split(script, ';');
    let ghost all = split_on(script@, ';').map_values(|c: Seq<char>| trimmed(c));
    let ghost pred = |c: Seq<char>| c.len() > 0;
    let mut out: Vec<String> = Vec::new();
    let n = pieces.len();
    for i in 0..n
        invariant
            n == pieces@.len(),
            str_views(pieces@) == split_on(script@, ';'),
            all == split_on(script@, ';').map_values(|c: Seq<char>| trimmed(c)),
            pred == (|c: Seq<char>| c.len() > 0),
            string_views(out@) == all.take(i as int).filter(pred),
    {
        proof {
            reveal(Seq::filter);
            assert(all.take(i + 1).drop_last() =~= all.take(i as int));
            assert(str_views(pieces@)[i as int] == pieces@[i as int]@);
        }
        let command = trim(pieces[i]);
        assert(all.take(i + 1).last() == command@);
        let ghost prev = out@;
        if !command.is_empty() {
            let c = String::from_str(command);
            out.push(c);
            assert(string_views(out@) =~= string_views(prev).push(c@));
        }
    }
    assert(all.take(n as int) =~= all);
    proof {
        crate::laws::law_sql_commands_cover_script(script@);
    }
    out
}

/// The file that holds the migration `name`.
pub fn migration_path(name: &str) -> (r: String)
    ensures
        r@ == "migrations/"@ + name@ + ".sql"@,
{
    let mut p = cat("migrations/", name);
    p.append(".sql");
    p
}

} // verus!
