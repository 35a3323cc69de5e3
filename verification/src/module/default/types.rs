use vstd::prelude::*;

verus! {

/// The query-string parameters that the listing endpoints accept.
#[derive(Debug, Default)]
pub struct QuerysParams {
    pub fields_search: Option<String>,
    pub conditionals: Option<String>,
    pub search: Option<String>,
    pub fields: Option<String>,
    pub without: Option<bool>,
    pub sort: Option<String>,
    pub limit: Option<u8>,
    pub pag: Option<u8>,
}

/// The text of an optional parameter, the empty text when it is absent.
pub open spec fn opt_text(o: Option<String>) -> Seq<char> {
    match o {
        Some(s) => s@,
        None => Seq::<char>::empty(),
    }
}

/// `o.as_deref().unwrap_or("")`.
pub fn opt_str(o: &Option<String>) -> (r: &str)
    ensures
        r@ == opt_text(*o),
{
    match o {
        Some(s) => s.as_str(),
        None => {
            proof {
                reveal_strlit("");
            }
            ""
        },
    }
}

} // verus!
