//! Character-level text utilities: case folding, whitespace, substring
//! matching under a case mode, trimming, and small vector helpers.
//!
//! All specifications speak about `Seq<char>`, the view of both `&str` and
//! `Vec<char>`, so offsets are always character offsets.

use vstd::prelude::*;

verus! {

/// The case folding of one character. Named rather than written out: the full
/// mapping is the Unicode lowercase table.
pub uninterp spec fn fold_char(c: char) -> char;

/// Whether one character counts as whitespace for trimming.
pub uninterp spec fn is_space(c: char) -> bool;

/// Relies on `char::to_lowercase`: its result depends on the character alone.
/// The first character of the mapping is taken; a character with no mapping
/// stays itself. Within ASCII the documented mapping covers exactly the
/// uppercase letters (65 to 90), each moved down to its lowercase form.
#[verifier::external_body]
pub fn lower_char(c: char) -> (r: char)
    ensures
        r == fold_char(c),
        (65 <= c as u32 && c as u32 <= 90) ==> r as u32 == c as u32 + 32,
        ((c as u32) < 128 && !(65 <= c as u32 && c as u32 <= 90)) ==> r == c,
{
    c.to_lowercase().next().unwrap_or(c)
}

/// Relies on `char::is_whitespace`: whether the character has the Unicode
/// `White_Space` property, a function of the character alone. Within ASCII
/// that property holds exactly of the space (32) and of the control
/// characters tab through carriage return (9 to 13).
#[verifier::external_body]
pub fn space_char(c: char) -> (r: bool)
    ensures
        r == is_space(c),
        (c as u32) < 128 ==> r == (c as u32 == 32 || (9 <= c as u32 && c as u32 <= 13)),
{
    c.is_whitespace()
}

/// Two characters are considered equal under the given case mode.
pub open spec fn chars_match(a: char, b: char, case_sensitive: bool) -> bool {
    if case_sensitive {
        a == b
    } else {
        fold_char(a) == fold_char(b)
    }
}

/// A text as it is compared under the case mode: folded characterwise when the
/// comparison is case-insensitive, unchanged otherwise.
pub open spec fn canon(s: Seq<char>, case_sensitive: bool) -> Seq<char> {
    if case_sensitive {
        s
    } else {
        s.map_values(|c: char| fold_char(c))
    }
}

/// The query occurs in `text` at position `i` under the case mode.
pub open spec fn match_at(text: Seq<char>, query: Seq<char>, case_sensitive: bool, i: int) -> bool {
    &&& 0 <= i
    &&& i + query.len() <= text.len()
    &&& forall|j: int|
        0 <= j < query.len() ==> chars_match(text[i + j], query[j], case_sensitive)
}

/// A match means the matched slice and the query are the same text under the
/// case mode.
pub proof fn lemma_match_at_canon(
    text: Seq<char>,
    query: Seq<char>,
    case_sensitive: bool,
    i: int,
)
    requires
        match_at(text, query, case_sensitive, i),
    ensures
        canon(text.subrange(i, i + query.len() as int), case_sensitive) == canon(
            query,
            case_sensitive,
        ),
{
    let s = text.subrange(i, i + query.len() as int);
    assert(canon(s, case_sensitive) =~= canon(query, case_sensitive));
}

/// Decides `match_at` for a position already inside the text.
pub fn match_chars_at(
    text: &Vec<char>,
    query: &Vec<char>,
    case_sensitive: bool,
    i: usize,
) -> (r: bool)
    requires
        i <= text@.len(),
    ensures
        r == match_at(text@, query@, case_sensitive, i as int),
{
    let n = text.len();
    let m = query.len();
    if m > n - i {
        return false;
    }
    let mut j: usize = 0;
    while j < m
        invariant
            i + m <= n,
            j <= m,
            n == text@.len(),
            m == query@.len(),
            forall|k: int| 0 <= k < j ==> chars_match(text@[i + k], query@[k], case_sensitive),
        decreases m - j,
    {
        let a = text[i + j];
        let b = query[j];
        let ok = if case_sensitive {
            a == b
        } else {
            lower_char(a) == lower_char(b)
        };
        if !ok {
            assert(!chars_match(text@[i + j as int], query@[j as int], case_sensitive));
            return false;
        }
        j += 1;
    }
    true
}

/// The least position at or after `from` where the query occurs, if any.
pub open spec fn find_from(text: Seq<char>, query: Seq<char>, case_sensitive: bool, from: int) -> Option<
    int,
>
    decreases text.len() - from,
    when 0 <= from && query.len() > 0
{
    if from + query.len() > text.len() {
        None
    } else if match_at(text, query, case_sensitive, from) {
        Some(from)
    } else {
        find_from(text, query, case_sensitive, from + 1)
    }
}

/// What `find_from` returns: the first match at or after `from`, or the fact
/// that there is none.
pub proof fn lemma_find_from(text: Seq<char>, query: Seq<char>, case_sensitive: bool, from: int)
    requires
        0 <= from,
        query.len() > 0,
    ensures
        match find_from(text, query, case_sensitive, from) {
            Some(i) => from <= i && match_at(text, query, case_sensitive, i) && forall|j: int|
                from <= j < i ==> !match_at(text, query, case_sensitive, j),
            None => forall|j: int| from <= j ==> !match_at(text, query, case_sensitive, j),
        },
    decreases text.len() - from,
{
    if from + query.len() > text.len() {
    } else if match_at(text, query, case_sensitive, from) {
    } else {
        lemma_find_from(text, query, case_sensitive, from + 1);
    }
}

/// Finds the least match position at or after `from`.
pub fn find_match_from(
    text: &Vec<char>,
    query: &Vec<char>,
    case_sensitive: bool,
    from: usize,
) -> (r: Option<usize>)
    requires
        query@.len() > 0,
        from <= text@.len(),
    ensures
        find_from(text@, query@, case_sensitive, from as int) == (match r {
            Some(i) => Some(i as int),
            None => None::<int>,
        }),
        r matches Some(i) ==> from <= i && i + query@.len() <= text@.len(),
{
    let n = text.len();
    let m = query.len();
    let mut pos = from;
    while m <= n - pos && pos <= n
        invariant
            from <= pos <= n,
            m == query@.len(),
            m > 0,
            n == text@.len(),
            find_from(text@, query@, case_sensitive, from as int) == find_from(
                text@,
                query@,
                case_sensitive,
                pos as int,
            ),
        decreases n - pos,
    {
        if match_chars_at(text, query, case_sensitive, pos) {
            assert(find_from(text@, query@, case_sensitive, pos as int) == Some(pos as int));
            return Some(pos);
        }
        assert(find_from(text@, query@, case_sensitive, pos as int) == find_from(
            text@,
            query@,
            case_sensitive,
            pos + 1,
        ));
        pos += 1;
    }
    assert(pos + m > n);
    assert(find_from(text@, query@, case_sensitive, pos as int) is None);
    None
}

/// A text with leading whitespace removed.
pub open spec fn trim_start_spec(s: Seq<char>) -> Seq<char>
    decreases s.len(),
{
    if s.len() > 0 && is_space(s[0]) {
        trim_start_spec(s.drop_first())
    } else {
        s
    }
}

/// A text with trailing whitespace removed.
pub open spec fn trim_end_spec(s: Seq<char>) -> Seq<char>
    decreases s.len(),
{
    if s.len() > 0 && is_space(s.last()) {
        trim_end_spec(s.drop_last())
    } else {
        s
    }
}

/// A text with both leading and trailing whitespace removed.
pub open spec fn trim_spec(s: Seq<char>) -> Seq<char> {
    trim_end_spec(trim_start_spec(s))
}

/// Copies the characters of `v` in positions `a..b`.
pub fn copy_range(v: &Vec<char>, a: usize, b: usize) -> (r: Vec<char>)
    requires
        a <= b,
        b <= v@.len(),
    ensures
        r@ == v@.subrange(a as int, b as int),
{
    let mut r: Vec<char> = Vec::new();
    let mut i = a;
    while i < b
        invariant
            a <= i <= b,
            b <= v@.len(),
            r@ == v@.subrange(a as int, i as int),
        decreases b - i,
    {
        r.push(v[i]);
        assert(r@ =~= v@.subrange(a as int, i + 1));
        i += 1;
    }
    r
}

/// Copies a whole character vector.
pub fn copy_chars(v: &Vec<char>) -> (r: Vec<char>)
    ensures
        r@ == v@,
{
    let r = copy_range(v, 0, v.len());
    assert(v@.subrange(0, v@.len() as int) =~= v@);
    r
}

/// Appends the characters of `src` to `dst`.
pub fn append_chars(dst: &mut Vec<char>, src: &Vec<char>)
    ensures
        final(dst)@ == old(dst)@ + src@,
{
    let n = src.len();
    let mut i: usize = 0;
    while i < n
        invariant
            i <= n,
            n == src@.len(),
            dst@ == old(dst)@ + src@.subrange(0, i as int),
        decreases n - i,
    {
        dst.push(src[i]);
        assert(dst@ =~= old(dst)@ + src@.subrange(0, i + 1));
        i += 1;
    }
    assert(old(dst)@ + src@.subrange(0, n as int) =~= old(dst)@ + src@);
}

/// Whether two character vectors hold the same text.
pub fn chars_eq(a: &Vec<char>, b: &Vec<char>) -> (r: bool)
    ensures
        r == (a@ == b@),
{
    let n = a.len();
    if n != b.len() {
        assert(a@ != b@) by {
            assert(a@.len() != b@.len());
        }
        return false;
    }
    let mut i: usize = 0;
    while i < n
        invariant
            i <= n,
            n == a@.len(),
            n == b@.len(),
            forall|k: int| 0 <= k < i ==> a@[k] == b@[k],
        decreases n - i,
    {
        if a[i] != b[i] {
            return false;
        }
        i += 1;
    }
    assert(a@ =~= b@);
    true
}

/// Removes leading and trailing whitespace.
pub fn trim_chars(v: &Vec<char>) -> (r: Vec<char>)
    ensures
        r@ == trim_spec(v@),
{
    let n = v.len();
    assert(v@.subrange(0, n as int) =~= v@);
    let mut a: usize = 0;
    while a < n && space_char(v[a])
        invariant
            a <= n,
            n == v@.len(),
            trim_start_spec(v@) == trim_start_spec(v@.subrange(a as int, n as int)),
        decreases n - a,
    {
        assert(v@.subrange(a as int, n as int).drop_first() =~= v@.subrange(a + 1, n as int));
        a += 1;
    }
    assert(trim_start_spec(v@) == v@.subrange(a as int, n as int));
    let mut b: usize = n;
    while b > a && space_char(v[b - 1])
        invariant
            a <= b <= n,
            n == v@.len(),
            trim_start_spec(v@) == v@.subrange(a as int, n as int),
            trim_end_spec(v@.subrange(a as int, n as int)) == trim_end_spec(
                v@.subrange(a as int, b as int),
            ),
        decreases b,
    {
        assert(v@.subrange(a as int, b as int).drop_last() =~= v@.subrange(a as int, b - 1));
        b -= 1;
    }
    assert(trim_end_spec(v@.subrange(a as int, b as int)) == v@.subrange(a as int, b as int));
    copy_range(v, a, b)
}

} // verus!
