//! Verified string primitives: the pieces of `str` behaviour that the query
//! builders rely on (trimming, splitting, joining, searching, replacing and
//! decimal formatting), each specified over `Seq<char>`.
use vstd::prelude::*;

verus! {

// ---------------------------------------------------------------------------
// Characters
// ---------------------------------------------------------------------------

/// The Unicode `White_Space` property, which `char::is_whitespace` and
/// `str::trim` use.
pub open spec fn is_ws(c: char) -> bool {
    ||| ('\t' <= c && c <= '\r')
    ||| c == ' '
    ||| c == '\u{85}'
    ||| c == '\u{A0}'
    ||| c == '\u{1680}'
    ||| ('\u{2000}' <= c && c <= '\u{200A}')
    ||| c == '\u{2028}'
    ||| c == '\u{2029}'
    ||| c == '\u{202F}'
    ||| c == '\u{205F}'
    ||| c == '\u{3000}'
}

pub fn is_whitespace(c: char) -> (b: bool)
    ensures
        b == is_ws(c),
{
    ('\t' <= c && c <= '\r') || c == ' ' || c == '\u{85}' || c == '\u{A0}' || c == '\u{1680}'
        || ('\u{2000}' <= c && c <= '\u{200A}') || c == '\u{2028}' || c == '\u{2029}' || c
        == '\u{202F}' || c == '\u{205F}' || c == '\u{3000}'
}

/// The characters of `s`, in order.
pub fn chars_of(s: &str) -> (v: Vec<char>)
    ensures
        v@ == s@,
{
    let mut v: Vec<char> = Vec::new();
    for c in it: s.chars()
        invariant
            v@ == it.seq().take(it.index() as int),
            it.seq() == s@,
    {
        v.push(c);
    }
    v
}

/// Membership after a push.
pub proof fn lemma_contains_push<A>(s: Seq<A>, a: A, x: A)
    ensures
        s.push(a).contains(x) <==> (s.contains(x) || a == x),
{
    if s.contains(x) {
        let k = choose|k: int| 0 <= k < s.len() && s[k] == x;
        assert(s.push(a)[k] == x);
    }
    if a == x {
        assert(s.push(a)[s.len() as int] == x);
    }
    if s.push(a).contains(x) {
        let k = choose|k: int| 0 <= k < s.push(a).len() && s.push(a)[k] == x;
        if k < s.len() {
            assert(s[k] == x);
        }
    }
}

/// The views of a sequence of string slices.
pub open spec fn str_views(v: Seq<&str>) -> Seq<Seq<char>> {
    v.map_values(|p: &str| p@)
}

/// The views of a sequence of owned strings.
pub open spec fn string_views(v: Seq<String>) -> Seq<Seq<char>> {
    v.map_values(|p: String| p@)
}

// ---------------------------------------------------------------------------
// Trimming
// ---------------------------------------------------------------------------

pub open spec fn trim_start(s: Seq<char>) -> Seq<char>
    decreases s.len(),
{
    if s.len() > 0 && is_ws(s[0]) {
        trim_start(s.drop_first())
    } else {
        s
    }
}

pub open spec fn trim_end(s: Seq<char>) -> Seq<char>
    decreases s.len(),
{
    if s.len() > 0 && is_ws(s.last()) {
        trim_end(s.drop_last())
    } else {
        s
    }
}

/// What `str::trim` gives back: `s` without leading and trailing white space.
pub open spec fn trimmed(s: Seq<char>) -> Seq<char> {
    trim_end(trim_start(s))
}

proof fn lemma_trim_start_skip(s: Seq<char>, lo: int)
    requires
        0 <= lo <= s.len(),
        forall|k: int| 0 <= k < lo ==> is_ws(#[trigger] s[k]),
    ensures
        trim_start(s) == trim_start(s.skip(lo)),
    decreases lo,
{
    if lo > 0 {
        assert(s.skip(1) =~= s.drop_first());
        lemma_trim_start_skip(s.drop_first(), lo - 1);
        assert(s.drop_first().skip(lo - 1) =~= s.skip(lo));
    } else {
        assert(s.skip(0) =~= s);
    }
}

proof fn lemma_trim_end_take(s: Seq<char>, hi: int)
    requires
        0 <= hi <= s.len(),
        forall|k: int| hi <= k < s.len() ==> is_ws(#[trigger] s[k]),
    ensures
        trim_end(s) == trim_end(s.take(hi)),
    decreases s.len() - hi,
{
    if hi < s.len() {
        lemma_trim_end_take(s.drop_last(), hi);
        assert(s.drop_last().take(hi) =~= s.take(hi));
    } else {
        assert(s.take(hi) =~= s);
    }
}

/// What `trim_start` leaves is a suffix of the text.
pub proof fn lemma_trim_start_suffix(s: Seq<char>) -> (a: int)
    ensures
        0 <= a <= s.len(),
        trim_start(s) == s.skip(a),
    decreases s.len(),
{
    if s.len() > 0 && is_ws(s[0]) {
        let a = lemma_trim_start_suffix(s.drop_first());
        assert(s.drop_first().skip(a) =~= s.skip(a + 1));
        a + 1
    } else {
        assert(s.skip(0) =~= s);
        0
    }
}

/// What `trim_end` leaves is a prefix of the text.
pub proof fn lemma_trim_end_prefix(s: Seq<char>) -> (b: int)
    ensures
        0 <= b <= s.len(),
        trim_end(s) == s.take(b),
    decreases s.len(),
{
    if s.len() > 0 && is_ws(s.last()) {
        let b = lemma_trim_end_prefix(s.drop_last());
        assert(s.drop_last().take(b) =~= s.take(b));
        b
    } else {
        assert(s.take(s.len() as int) =~= s);
        s.len() as int
    }
}

/// Trimming keeps a contiguous slice of the text.
pub proof fn lemma_trimmed_slice(s: Seq<char>) -> (r: (int, int))
    ensures
        0 <= r.0 <= r.1 <= s.len(),
        trimmed(s) == s.subrange(r.0, r.1),
{
    let a = lemma_trim_start_suffix(s);
    let b = lemma_trim_end_prefix(s.skip(a));
    assert(s.skip(a).take(b) =~= s.subrange(a, a + b));
    (a, a + b)
}

/// A slice of a text occurs in it.
pub proof fn lemma_slice_occurs(s: Seq<char>, a: int, b: int)
    requires
        0 <= a <= b <= s.len(),
    ensures
        has_substring(s, s.subrange(a, b)),
{
    assert(occurs_at(s, s.subrange(a, b), a));
}

/// `str::trim`.
pub fn trim<'a>(s: &'a str) -> (r: &'a str)
    ensures
        r@ == trimmed(s@),
{
    let v = chars_of(s);
    let n = v.len();
    let mut lo: usize = 0;
    while lo < n && is_whitespace(v[lo])
        invariant
            0 <= lo <= n,
            n == v@.len(),
            forall|k: int| 0 <= k < lo ==> is_ws(#[trigger] v@[k]),
        decreases n - lo,
    {
        lo = lo + 1;
    }
    proof {
        lemma_trim_start_skip(v@, lo as int);
        if lo < n {
            assert(trim_start(v@.skip(lo as int)) == v@.skip(lo as int));
        } else {
            assert(v@.skip(lo as int).len() == 0);
        }
    }
    let mut hi: usize = n;
    while hi > lo && is_whitespace(v[hi - 1])
        invariant
            lo <= hi <= n,
            n == v@.len(),
            forall|k: int| hi <= k < n ==> is_ws(#[trigger] v@[k]),
        decreases hi,
    {
        hi = hi - 1;
    }
    proof {
        let t = v@.skip(lo as int);
        assert forall|k: int| hi - lo <= k < t.len() implies is_ws(#[trigger] t[k]) by {
            assert(t[k] == v@[lo + k]);
        }
        lemma_trim_end_take(t, hi - lo);
        let u = t.take(hi - lo);
        if hi > lo {
            assert(u.last() == v@[hi - 1]);
            assert(trim_end(u) == u);
        } else {
            assert(u.len() == 0);
        }
        assert(u =~= v@.subrange(lo as int, hi as int));
    }
    s.substring_char(lo, hi)
}


// ---------------------------------------------------------------------------
// Splitting
// ---------------------------------------------------------------------------

/// What `str::split` with a single-character separator yields: the pieces
/// between occurrences of `sep`, always at least one.
pub open spec fn split_on(s: Seq<char>, sep: char) -> Seq<Seq<char>>
    decreases s.len(),
{
    if s.len() == 0 {
        seq![Seq::<char>::empty()]
    } else {
        let r = split_on(s.drop_last(), sep);
        if s.last() == sep {
            r.push(Seq::<char>::empty())
        } else {
            r.update(r.len() - 1, r.last().push(s.last()))
        }
    }
}

pub proof fn lemma_split_nonempty(s: Seq<char>, sep: char)
    ensures
        split_on(s, sep).len() >= 1,
    decreases s.len(),
{
    if s.len() > 0 {
        lemma_split_nonempty(s.drop_last(), sep);
    }
}

/// Each piece of a split is a slice of the text, and the last piece runs to
/// the text's end.
pub proof fn lemma_split_piece_slice(s: Seq<char>, sep: char, k: int) -> (r: (int, int))
    requires
        0 <= k < split_on(s, sep).len(),
    ensures
        0 <= r.0 <= r.1 <= s.len(),
        split_on(s, sep)[k] == s.subrange(r.0, r.1),
        k == split_on(s, sep).len() - 1 ==> r.1 == s.len(),
    decreases s.len(),
{
    if s.len() == 0 {
        assert(s.subrange(0, 0) =~= Seq::<char>::empty());
        (0, 0)
    } else {
        let t = s.drop_last();
        let prev = split_on(t, sep);
        lemma_split_nonempty(t, sep);
        let n = s.len() as int;
        if s.last() == sep {
            if k == prev.len() {
                assert(s.subrange(n, n) =~= Seq::<char>::empty());
                (n, n)
            } else {
                let (a, b) = lemma_split_piece_slice(t, sep, k);
                assert(t.subrange(a, b) =~= s.subrange(a, b));
                (a, b)
            }
        } else {
            let (a, b) = lemma_split_piece_slice(t, sep, k);
            if k == prev.len() - 1 {
                assert(t.subrange(a, b).push(s.last()) =~= s.subrange(a, n));
                (a, n)
            } else {
                assert(t.subrange(a, b) =~= s.subrange(a, b));
                (a, b)
            }
        }
    }
}

/// A trimmed piece of a split occurs in the text that was split.
pub proof fn lemma_trimmed_piece_occurs(s: Seq<char>, sep: char, k: int)
    requires
        0 <= k < split_on(s, sep).len(),
    ensures
        has_substring(s, trimmed(split_on(s, sep)[k])),
{
    let (a, b) = lemma_split_piece_slice(s, sep, k);
    let piece = s.subrange(a, b);
    let (c, d) = lemma_trimmed_slice(piece);
    assert(piece.subrange(c, d) =~= s.subrange(a + c, a + d));
    lemma_slice_occurs(s, a + c, a + d);
}

/// A string holding the separator splits into at least two pieces.
pub proof fn lemma_split_contains(s: Seq<char>, sep: char)
    requires
        s.contains(sep),
    ensures
        split_on(s, sep).len() >= 2,
    decreases s.len(),
{
    lemma_split_nonempty(s, sep);
    if s.len() > 0 {
        lemma_split_nonempty(s.drop_last(), sep);
        if s.last() != sep {
            let k = choose|k: int| 0 <= k < s.len() && s[k] == sep;
            assert(s.drop_last()[k] == sep);
            lemma_split_contains(s.drop_last(), sep);
        }
    }
}

/// `s.split(sep).collect::<Vec<&str>>()`.
pub fn split<'a>(s: &'a str, sep: char) -> (r: Vec<&'a str>)
    ensures
        str_views(r@) == split_on(s@, sep),
{
    let v = chars_of(s);
    let n = v.len();
    let mut out: Vec<&'a str> = Vec::new();
    let mut start: usize = 0;
    let mut i: usize = 0;
    assert(v@.take(0) =~= Seq::<char>::empty());
    while i < n
        invariant
            0 <= start <= i <= n,
            n == v@.len(),
            v@ == s@,
            split_on(v@.take(i as int), sep) == str_views(out@).push(v@.subrange(start as int, i as int)),
        decreases n - i,
    {
        proof {
            let t = v@.take(i + 1);
            assert(t.drop_last() =~= v@.take(i as int));
            assert(t.last() == v@[i as int]);
            lemma_split_nonempty(v@.take(i as int), sep);
        }
        let ghost prev = out@;
        if v[i] == sep {
            let piece = s.substring_char(start, i);
            out.push(piece);
            assert(str_views(out@) =~= str_views(prev).push(piece@));
            start = i + 1;
            assert(v@.subrange(start as int, i + 1) =~= Seq::<char>::empty());
        } else {
            assert(v@.subrange(start as int, i + 1) =~= v@.subrange(start as int, i as int).push(v@[i as int]));
        }
        i = i + 1;
    }
    let ghost prev = out@;
    let last = s.substring_char(start, n);
    out.push(last);
    proof {
        assert(v@.take(n as int) =~= v@);
        assert(str_views(out@) =~= str_views(prev).push(last@));
    }
    out
}


/// Every string of `v`, trimmed.
pub fn trim_each<'a>(v: &Vec<&'a str>) -> (r: Vec<&'a str>)
    ensures
        str_views(r@) == str_views(v@).map_values(|e: Seq<char>| trimmed(e)),
{
    let n = v.len();
    let ghost want = str_views(v@).map_values(|e: Seq<char>| trimmed(e));
    let mut out: Vec<&'a str> = Vec::new();
    for i in 0..n
        invariant
            n == v@.len(),
            want == str_views(v@).map_values(|e: Seq<char>| trimmed(e)),
            str_views(out@) == want.take(i as int),
    {
        let t = trim(v[i]);
        let ghost prev = out@;
        out.push(t);
        assert(str_views(out@) =~= str_views(prev).push(t@));
        assert(str_views(out@) =~= want.take(i + 1));
    }
    assert(want.take(n as int) =~= want);
    out
}

/// Whether `s` is non-empty and begins with `c`.
pub fn starts_with_char(s: &str, c: char) -> (b: bool)
    ensures
        b == (s@.len() > 0 && s@[0] == c),
{
    let v = chars_of(s);
    v.len() > 0 && v[0] == c
}

/// Whether `s` is non-empty and ends with `c`.
pub fn ends_with_char(s: &str, c: char) -> (b: bool)
    ensures
        b == (s@.len() > 0 && s@.last() == c),
{
    let v = chars_of(s);
    v.len() > 0 && v[v.len() - 1] == c
}

// ---------------------------------------------------------------------------
// Joining
// ---------------------------------------------------------------------------

/// What `join(sep)` on a slice of strings gives back.
pub open spec fn joined(parts: Seq<Seq<char>>, sep: Seq<char>) -> Seq<char>
    decreases parts.len(),
{
    if parts.len() == 0 {
        Seq::<char>::empty()
    } else if parts.len() == 1 {
        parts[0]
    } else {
        joined(parts.drop_last(), sep) + sep + parts.last()
    }
}

/// `parts.join(sep)` for a vector of string slices.
pub fn join_strs(parts: &Vec<&str>, sep: &str) -> (r: String)
    ensures
        r@ == joined(str_views(parts@), sep@),
{
    let mut res = String::new();
    let n = parts.len();
    let ghost views = str_views(parts@);
    for i in 0..n
        invariant
            n == parts@.len(),
            views == str_views(parts@),
            res@ == joined(views.take(i as int), sep@),
    {
        proof {
            assert(views.take(i + 1).drop_last() =~= views.take(i as int));
            assert(views.take(i + 1).last() == parts@[i as int]@);
        }
        if i > 0 {
            res.append(sep);
        }
        res.append(parts[i]);
    }
    assert(views.take(n as int) =~= views);
    res
}

/// `parts.join(sep)` for a vector of owned strings.
pub fn join_strings(parts: &Vec<String>, sep: &str) -> (r: String)
    ensures
        r@ == joined(string_views(parts@), sep@),
{
    let mut res = String::new();
    let n = parts.len();
    let ghost views = string_views(parts@);
    for i in 0..n
        invariant
            n == parts@.len(),
            views == string_views(parts@),
            res@ == joined(views.take(i as int), sep@),
    {
        proof {
            assert(views.take(i + 1).drop_last() =~= views.take(i as int));
            assert(views.take(i + 1).last() == parts@[i as int]@);
        }
        if i > 0 {
            res.append(sep);
        }
        res.append(parts[i].as_str());
    }
    assert(views.take(n as int) =~= views);
    res
}

// ---------------------------------------------------------------------------
// Searching
// ---------------------------------------------------------------------------

/// `needle` stands in `hay` from position `i` on.
pub open spec fn occurs_at(hay: Seq<char>, needle: Seq<char>, i: int) -> bool {
    0 <= i && i + needle.len() <= hay.len() && hay.subrange(i, i + needle.len()) == needle
}

/// What `str::contains` with a string pattern tells.
pub open spec fn has_substring(hay: Seq<char>, needle: Seq<char>) -> bool {
    exists|i: int| occurs_at(hay, needle, i)
}

/// Whether `needle` stands in `hay` from position `i` on.
pub fn matches_at(hay: &Vec<char>, needle: &Vec<char>, i: usize) -> (b: bool)
    ensures
        b == occurs_at(hay@, needle@, i as int),
{
    let m = needle.len();
    if i > hay.len() || m > hay.len() - i {
        return false;
    }
    for j in 0..m
        invariant
            m == needle@.len(),
            i + m <= hay@.len(),
            hay@.len() == hay.len(),
            forall|k: int| 0 <= k < j ==> hay@[i + k] == needle@[k],
    {
        if hay[i + j] != needle[j] {
            assert(hay@.subrange(i as int, i + m)[j as int] != needle@[j as int]);
            return false;
        }
    }
    assert(hay@.subrange(i as int, i + m) =~= needle@);
    true
}

/// The first position at or after `from` where `needle` stands in `hay`, if any.
pub fn find_from(hay: &Vec<char>, needle: &Vec<char>, from: usize) -> (r: Option<usize>)
    ensures
        match r {
            Some(i) => from <= i && occurs_at(hay@, needle@, i as int) && forall|k: int|
                from <= k < i ==> !#[trigger] occurs_at(hay@, needle@, k),
            None => forall|k: int| from <= k ==> !#[trigger] occurs_at(hay@, needle@, k),
        },
{
    let n = hay.len();
    if from > n {
        return None;
    }
    let mut i = from;
    loop
        invariant
            from <= i <= n,
            n == hay@.len(),
            forall|k: int| from <= k < i ==> !#[trigger] occurs_at(hay@, needle@, k),
        decreases n - i,
    {
        if matches_at(hay, needle, i) {
            return Some(i);
        }
        if i == n {
            return None;
        }
        i = i + 1;
    }
}

/// `hay.contains(needle)`.
pub fn contains_str(hay: &str, needle: &str) -> (b: bool)
    ensures
        b == has_substring(hay@, needle@),
{
    let h = chars_of(hay);
    let p = chars_of(needle);
    match find_from(&h, &p, 0) {
        Some(_) => true,
        None => false,
    }
}

/// `hay.contains(c)`.
pub fn contains_char(hay: &str, c: char) -> (b: bool)
    ensures
        b == hay@.contains(c),
{
    let h = chars_of(hay);
    let n = h.len();
    for i in 0..n
        invariant
            n == h@.len(),
            h@ == hay@,
            forall|k: int| 0 <= k < i ==> h@[k] != c,
    {
        if h[i] == c {
            return true;
        }
    }
    false
}

/// Whether two strings hold the same characters.
pub fn str_eq(a: &str, b: &str) -> (r: bool)
    ensures
        r == (a@ == b@),
{
    let x = chars_of(a);
    let y = chars_of(b);
    if x.len() != y.len() {
        return false;
    }
    let n = x.len();
    for i in 0..n
        invariant
            n == x@.len(),
            n == y@.len(),
            x@ == a@,
            y@ == b@,
            forall|k: int| 0 <= k < i ==> x@[k] == y@[k],
    {
        if x[i] != y[i] {
            assert(x@[i as int] != y@[i as int]);
            return false;
        }
    }
    assert(x@ =~= y@);
    true
}

// ---------------------------------------------------------------------------
// Replacing
// ---------------------------------------------------------------------------

/// What `str::replace` gives back for a non-empty pattern: every
/// non-overlapping occurrence of `p`, taken from the left, replaced by `r`.
pub open spec fn replaced(s: Seq<char>, p: Seq<char>, r: Seq<char>) -> Seq<char>
    recommends
        p.len() > 0,
    decreases s.len(),
{
    if p.len() == 0 || s.len() < p.len() {
        s
    } else if s.take(p.len() as int) == p {
        r + replaced(s.skip(p.len() as int), p, r)
    } else {
        seq![s[0]] + replaced(s.drop_first(), p, r)
    }
}

proof fn lemma_replaced_no_match(s: Seq<char>, p: Seq<char>, r: Seq<char>, i: int, j: int)
    requires
        p.len() > 0,
        0 <= i <= j <= s.len(),
        forall|k: int| i <= k < j ==> !#[trigger] occurs_at(s, p, k),
    ensures
        replaced(s.skip(i), p, r) == s.subrange(i, j) + replaced(s.skip(j), p, r),
    decreases j - i,
{
    if i < j {
        lemma_replaced_no_match(s, p, r, i + 1, j);
        let t = s.skip(i);
        assert(t.drop_first() =~= s.skip(i + 1));
        if t.len() >= p.len() {
            assert(t.take(p.len() as int) =~= s.subrange(i, i + p.len()));
            assert(!occurs_at(s, p, i));
        }
        assert(s.subrange(i, j) =~= seq![s[i]] + s.subrange(i + 1, j));
    } else {
        assert(s.subrange(i, j) =~= Seq::<char>::empty());
    }
}

/// A text in which the pattern never occurs is left as it is.
pub proof fn lemma_replaced_no_match_from_start(s: Seq<char>, p: Seq<char>, r: Seq<char>)
    requires
        p.len() > 0,
        forall|k: int| 0 <= k < s.len() ==> !#[trigger] occurs_at(s, p, k),
    ensures
        replaced(s, p, r) == s,
{
    lemma_replaced_no_match(s, p, r, 0, s.len() as int);
    assert(s.skip(0) =~= s);
    assert(s.subrange(0, s.len() as int) =~= s);
    assert(s.skip(s.len() as int) =~= Seq::<char>::empty());
}

/// `s.replace(from, to)` for a non-empty pattern.
pub fn replace(s: &str, from: &str, to: &str) -> (res: String)
    requires
        from@.len() > 0,
    ensures
        res@ == replaced(s@, from@, to@),
{
    let h = chars_of(s);
    let p = chars_of(from);
    let n = h.len();
    let m = p.len();
    let mut res = String::new();
    let mut seg: usize = 0;
    assert(h@.skip(0) =~= h@);
    loop
        invariant
            0 <= seg <= n,
            n == h@.len(),
            m == p@.len(),
            m > 0,
            h@ == s@,
            p@ == from@,
            res@ + replaced(h@.skip(seg as int), p@, to@) == replaced(h@, p@, to@),
        decreases n - seg,
    {
        match find_from(&h, &p, seg) {
            Some(i) => {
                proof {
                    lemma_replaced_no_match(h@, p@, to@, seg as int, i as int);
                    let t = h@.skip(i as int);
                    assert(t.take(m as int) =~= h@.subrange(i as int, i + m));
                    assert(t.skip(m as int) =~= h@.skip(i + m));
                }
                let piece = s.substring_char(seg, i);
                res.append(piece);
                res.append(to);
                seg = i + m;
                proof {
                    assert(res@ + replaced(h@.skip(seg as int), p@, to@) =~= replaced(h@, p@, to@));
                }
            },
            None => {
                proof {
                    lemma_replaced_no_match(h@, p@, to@, seg as int, n as int);
                    assert(h@.skip(n as int).len() == 0);
                    assert(h@.subrange(seg as int, n as int) =~= h@.skip(seg as int));
                }
                let piece = s.substring_char(seg, n);
                res.append(piece);
                return res;
            },
        }
    }
}


// ---------------------------------------------------------------------------
// Case mapping
// ---------------------------------------------------------------------------

/// What `str::to_lowercase` gives back for a string: its Unicode lowercase
/// mapping, character by character, as the standard library's case tables
/// define it.
pub uninterp spec fn str_lowercase(s: Seq<char>) -> Seq<char>;

/// Trusted: `str::to_lowercase`. Its result is claimed to be a function of
/// the string alone, named `str_lowercase`; nothing else is said of it.
#[verifier::external_body]
pub(crate) fn to_lowercase(s: &str) -> (r: String)
    ensures
        r@ == str_lowercase(s@),
{
    s.to_lowercase()
}

// ---------------------------------------------------------------------------
// Decimal formatting
// ---------------------------------------------------------------------------

pub open spec fn digit_char(d: int) -> char {
    if d == 0 {
        '0'
    } else if d == 1 {
        '1'
    } else if d == 2 {
        '2'
    } else if d == 3 {
        '3'
    } else if d == 4 {
        '4'
    } else if d == 5 {
        '5'
    } else if d == 6 {
        '6'
    } else if d == 7 {
        '7'
    } else if d == 8 {
        '8'
    } else {
        '9'
    }
}

/// The decimal digits of `n`, as `Display` writes them.
pub open spec fn decimal(n: nat) -> Seq<char>
    decreases n,
{
    if n < 10 {
        seq![digit_char(n as int)]
    } else {
        decimal(n / 10) + seq![digit_char((n % 10) as int)]
    }
}

/// A signed integer as `Display` writes it.
pub open spec fn signed_decimal(n: int) -> Seq<char> {
    if n < 0 {
        seq!['-'] + decimal((-n) as nat)
    } else {
        decimal(n as nat)
    }
}

fn digit_str(d: u64) -> (r: &'static str)
    requires
        d < 10,
    ensures
        r@ == seq![digit_char(d as int)],
{
    proof {
        reveal_strlit("0");
        reveal_strlit("1");
        reveal_strlit("2");
        reveal_strlit("3");
        reveal_strlit("4");
        reveal_strlit("5");
        reveal_strlit("6");
        reveal_strlit("7");
        reveal_strlit("8");
        reveal_strlit("9");
    }
    if d == 0 {
        "0"
    } else if d == 1 {
        "1"
    } else if d == 2 {
        "2"
    } else if d == 3 {
        "3"
    } else if d == 4 {
        "4"
    } else if d == 5 {
        "5"
    } else if d == 6 {
        "6"
    } else if d == 7 {
        "7"
    } else if d == 8 {
        "8"
    } else {
        "9"
    }
}

/// Appends the decimal digits of `n` to `out`.
fn push_decimal(out: &mut String, n: u64)
    ensures
        final(out)@ == old(out)@ + decimal(n as nat),
    decreases n,
{
    if n < 10 {
        out.append(digit_str(n));
    } else {
        push_decimal(out, n / 10);
        out.append(digit_str(n % 10));
        assert(out@ =~= old(out)@ + decimal(n as nat));
    }
}

/// `n.to_string()` for an unsigned integer.
pub fn u64_to_string(n: u64) -> (s: String)
    ensures
        s@ == decimal(n as nat),
{
    let mut s = String::new();
    push_decimal(&mut s, n);
    s
}

/// `n.to_string()` for a signed integer.
pub fn i64_to_string(n: i64) -> (s: String)
    ensures
        s@ == signed_decimal(n as int),
{
    let mut s = String::new();
    if n < 0 {
        proof {
            reveal_strlit("-");
        }
        s.append("-");
        let m: u64 = if n == i64::MIN {
            9223372036854775808u64
        } else {
            (-n) as u64
        };
        push_decimal(&mut s, m);
    } else {
        push_decimal(&mut s, n as u64);
    }
    s
}

/// `a` followed by `b`.
pub fn cat(a: &str, b: &str) -> (s: String)
    ensures
        s@ == a@ + b@,
{
    let mut s = String::new();
    s.append(a);
    s.append(b);
    s
}

} // verus!
