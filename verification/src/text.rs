//! Text handling on sequences of characters: whitespace, trimming, splitting,
//! searching and decimal numbers, each stated as a spec function and
//! implemented by a verified loop.

use vstd::prelude::*;
use vstd::slice::{slice_subrange, slice_to_vec};

verus! {

// ---------------------------------------------------------------------------
// Characters
// ---------------------------------------------------------------------------

/// The Unicode `White_Space` property, as `char::is_whitespace` decides it.
pub open spec fn is_ws(c: char) -> bool {
    let u = c as u32;
    ||| u == 0x20
    ||| (0x09 <= u && u <= 0x0d)
    ||| u == 0x85
    ||| u == 0xa0
    ||| u == 0x1680
    ||| (0x2000 <= u && u <= 0x200a)
    ||| u == 0x2028
    ||| u == 0x2029
    ||| u == 0x202f
    ||| u == 0x205f
    ||| u == 0x3000
}

pub fn is_whitespace(c: char) -> (r: bool)
    ensures
        r == is_ws(c),
{
    let u = c as u32;
    u == 0x20 || (0x09 <= u && u <= 0x0d) || u == 0x85 || u == 0xa0 || u == 0x1680 || (0x2000
        <= u && u <= 0x200a) || u == 0x2028 || u == 0x2029 || u == 0x202f || u == 0x205f || u
        == 0x3000
}

pub open spec fn is_ascii_digit(c: char) -> bool {
    '0' <= c && c <= '9'
}

pub open spec fn is_ascii_upper(c: char) -> bool {
    'A' <= c && c <= 'Z'
}

/// The ASCII lowercase of a character; other characters are unchanged.
pub open spec fn ascii_lower(c: char) -> char {
    if is_ascii_upper(c) {
        ((c as u32) + 32) as char
    } else {
        c
    }
}

// ---------------------------------------------------------------------------
// Conversions between `str`, `String` and character vectors
// ---------------------------------------------------------------------------

/// The characters of a string slice.
pub fn chars_of(s: &str) -> (r: Vec<char>)
    ensures
        r@ == s@,
{
    let mut r: Vec<char> = Vec::new();
    for c in it: s.chars()
        invariant
            r@ == it.seq().take(it.index() as int),
            it.seq() == s@,
    {
        r.push(c);
    }
    r
}

/// Appends one character to a `String` (`String::push`).
#[verifier::external_body]
pub(crate) fn push_char(s: &mut String, c: char)
    ensures
        final(s)@ == old(s)@.push(c),
{
    s.push(c);
}

/// Equality of two string slices, character by character.
pub fn str_eq(a: &str, b: &str) -> (r: bool)
    ensures
        r == (a@ == b@),
{
    let x = chars_of(a);
    let y = chars_of(b);
    if x.len() != y.len() {
        return false;
    }
    let n = x.len();
    let mut i: usize = 0;
    while i < n
        invariant
            n == x@.len(),
            n == y@.len(),
            x@ == a@,
            y@ == b@,
            i <= n,
            forall|k: int| 0 <= k < i ==> x@[k] == y@[k],
        decreases n - i,
    {
        if x[i] != y[i] {
            return false;
        }
        i = i + 1;
    }
    assert(x@ =~= y@);
    true
}

/// The string made of the given characters.
pub fn string_of(v: &[char]) -> (r: String)
    ensures
        r@ == v@,
{
    let mut r = String::new();
    let n = v.len();
    let mut i: usize = 0;
    while i < n
        invariant
            n == v@.len(),
            i <= n,
            r@ == v@.subrange(0, i as int),
        decreases n - i,
    {
        push_char(&mut r, v[i]);
        i = i + 1;
        assert(r@ =~= v@.subrange(0, i as int));
    }
    assert(v@.subrange(0, n as int) =~= v@);
    r
}

/// A copy of the characters `v[from..to]`.
pub fn slice_of(v: &[char], from: usize, to: usize) -> (r: Vec<char>)
    requires
        from <= to <= v@.len(),
    ensures
        r@ == v@.subrange(from as int, to as int),
{
    slice_to_vec(slice_subrange(v, from, to))
}

/// A string from a string slice.
pub fn owned(s: &str) -> (r: String)
    ensures
        r@ == s@,
{
    let c = chars_of(s);
    string_of(c.as_slice())
}

/// Concatenation of two character sequences into a `String`.
pub fn concat2(a: &str, b: &str) -> (r: String)
    ensures
        r@ == a@ + b@,
{
    let mut r = owned(a);
    r.append(b);
    r
}

// ---------------------------------------------------------------------------
// Trimming
// ---------------------------------------------------------------------------

pub open spec fn trim_start_spec(s: Seq<char>) -> Seq<char>
    decreases s.len(),
{
    if s.len() > 0 && is_ws(s[0]) {
        trim_start_spec(s.drop_first())
    } else {
        s
    }
}

pub open spec fn trim_end_spec(s: Seq<char>) -> Seq<char>
    decreases s.len(),
{
    if s.len() > 0 && is_ws(s.last()) {
        trim_end_spec(s.drop_last())
    } else {
        s
    }
}

/// `str::trim`: the sequence without leading and trailing whitespace.
pub open spec fn trim_spec(s: Seq<char>) -> Seq<char> {
    trim_end_spec(trim_start_spec(s))
}

/// The index of the first character of `v[from..]` that is not whitespace,
/// or `v.len()`.
pub fn skip_ws(v: &[char], from: usize) -> (r: usize)
    requires
        from <= v@.len(),
    ensures
        from <= r <= v@.len(),
        trim_start_spec(v@.subrange(from as int, v@.len() as int)) == v@.subrange(
            r as int,
            v@.len() as int,
        ),
        r < v@.len() ==> !is_ws(v@[r as int]),
        forall|k: int| from <= k < r ==> is_ws(#[trigger] v@[k]),
{
    let n = v.len();
    let mut i = from;
    while i < n && is_whitespace(v[i])
        invariant
            n == v@.len(),
            from <= i <= n,
            trim_start_spec(v@.subrange(from as int, n as int)) == trim_start_spec(
                v@.subrange(i as int, n as int),
            ),
            forall|k: int| from <= k < i ==> is_ws(#[trigger] v@[k]),
        decreases n - i,
    {
        assert(v@.subrange(i as int, n as int).drop_first() =~= v@.subrange(i + 1, n as int));
        i = i + 1;
    }
    i
}

/// `str::trim` on characters.
pub fn trim(v: &[char]) -> (r: Vec<char>)
    ensures
        r@ == trim_spec(v@),
{
    let n = v.len();
    let i = skip_ws(v, 0);
    assert(v@.subrange(0, n as int) =~= v@);
    let mut j = n;
    while j > i && is_whitespace(v[j - 1])
        invariant
            n == v@.len(),
            i <= j <= n,
            trim_end_spec(v@.subrange(i as int, n as int)) == trim_end_spec(
                v@.subrange(i as int, j as int),
            ),
        decreases j,
    {
        assert(v@.subrange(i as int, j as int).drop_last() =~= v@.subrange(i as int, j - 1));
        j = j - 1;
    }
    slice_of(v, i, j)
}

/// `str::trim` on a string slice.
pub fn trim_str(s: &str) -> (r: String)
    ensures
        r@ == trim_spec(s@),
{
    let c = chars_of(s);
    let t = trim(c.as_slice());
    string_of(t.as_slice())
}


// ---------------------------------------------------------------------------
// Searching for a character and splitting on it
// ---------------------------------------------------------------------------

/// The index of the first `c` in `s`, or `s.len()` when there is none.
pub open spec fn find_char_spec(s: Seq<char>, c: char) -> nat
    decreases s.len(),
{
    if s.len() == 0 {
        0
    } else if s[0] == c {
        0
    } else {
        1 + find_char_spec(s.drop_first(), c)
    }
}

pub proof fn lemma_find_char(s: Seq<char>, c: char, i: int)
    requires
        0 <= i <= s.len(),
        forall|j: int| 0 <= j < i ==> s[j] != c,
        i < s.len() ==> s[i] == c,
    ensures
        find_char_spec(s, c) == i,
    decreases i,
{
    if i > 0 {
        lemma_find_char(s.drop_first(), c, i - 1);
    }
}

pub proof fn lemma_find_char_bound(s: Seq<char>, c: char)
    ensures
        find_char_spec(s, c) <= s.len(),
        find_char_spec(s, c) < s.len() ==> s[find_char_spec(s, c) as int] == c,
        forall|j: int| 0 <= j < find_char_spec(s, c) ==> s[j] != c,
    decreases s.len(),
{
    if s.len() > 0 && s[0] != c {
        lemma_find_char_bound(s.drop_first(), c);
        assert forall|j: int| 0 <= j < find_char_spec(s, c) implies s[j] != c by {
            if j > 0 {
                assert(s[j] == s.drop_first()[j - 1]);
            }
        }
    }
}

/// The index of the first `c` in `v[from..]`, or `v.len()`.
pub fn find_char(v: &[char], from: usize, c: char) -> (r: usize)
    requires
        from <= v@.len(),
    ensures
        from <= r <= v@.len(),
        r == from + find_char_spec(v@.subrange(from as int, v@.len() as int), c),
        r < v@.len() ==> v@[r as int] == c,
        forall|k: int| from <= k < r ==> v@[k] != c,
{
    let n = v.len();
    let mut i = from;
    while i < n && v[i] != c
        invariant
            n == v@.len(),
            from <= i <= n,
            forall|k: int| from <= k < i ==> v@[k] != c,
        decreases n - i,
    {
        i = i + 1;
    }
    proof {
        lemma_find_char(v@.subrange(from as int, n as int), c, i - from);
    }
    i
}

/// `str::split(c)`: the pieces between occurrences of `c`; there is always
/// at least one piece.
pub open spec fn split_char_spec(s: Seq<char>, c: char) -> Seq<Seq<char>>
    decreases s.len(),
{
    let i = find_char_spec(s, c);
    if i >= s.len() {
        seq![s]
    } else {
        proof {
            lemma_find_char_bound(s, c);
        }
        seq![s.subrange(0, i as int)] + split_char_spec(s.subrange(i as int + 1, s.len() as int), c)
    }
}

/// The views of a vector of character vectors.
pub open spec fn views(v: Seq<Vec<char>>) -> Seq<Seq<char>> {
    v.map_values(|x: Vec<char>| x@)
}

/// `str::split(c)` on characters.
pub fn split_char(v: &[char], c: char) -> (r: Vec<Vec<char>>)
    ensures
        views(r@) == split_char_spec(v@, c),
{
    let n = v.len();
    let mut r: Vec<Vec<char>> = Vec::new();
    let mut p: usize = 0;
    assert(v@.subrange(0, n as int) =~= v@);
    loop
        invariant
            n == v@.len(),
            p <= n,
            views(r@) + split_char_spec(v@.subrange(p as int, n as int), c) == split_char_spec(
                v@,
                c,
            ),
        decreases n - p,
    {
        let i = find_char(v, p, c);
        let piece = slice_of(v, p, i);
        let ghost rest = v@.subrange(p as int, n as int);
        if i == n {
            r.push(piece);
            assert(views(r@) =~= views(r@.drop_last()) + seq![rest]);
            assert(views(r@) =~= split_char_spec(v@, c));
            return r;
        }
        r.push(piece);
        proof {
            assert(rest.subrange(0, i - p) =~= v@.subrange(p as int, i as int));
            assert(rest.subrange(i - p + 1, rest.len() as int) =~= v@.subrange(i + 1, n as int));
            assert(views(r@) =~= views(r@.drop_last()) + seq![v@.subrange(p as int, i as int)]);
            assert(views(r@) + split_char_spec(v@.subrange(i + 1, n as int), c) =~= views(
                r@.drop_last(),
            ) + split_char_spec(rest, c));
        }
        p = i + 1;
    }
}

// ---------------------------------------------------------------------------
// Lines
// ---------------------------------------------------------------------------

/// A line without the `'\r'` of a `"\r\n"` ending.
pub open spec fn strip_cr(l: Seq<char>) -> Seq<char> {
    if l.len() > 0 && l.last() == '\r' {
        l.drop_last()
    } else {
        l
    }
}

/// `str::lines`: the text split at `'\n'`, a `'\r'` before the `'\n'`
/// removed, and no final empty line after a trailing `'\n'`.
pub open spec fn lines_spec(s: Seq<char>) -> Seq<Seq<char>>
    decreases s.len(),
{
    if s.len() == 0 {
        seq![]
    } else {
        let i = find_char_spec(s, '\n');
        if i >= s.len() {
            seq![s]
        } else {
            proof {
                lemma_find_char_bound(s, '\n');
            }
            seq![strip_cr(s.subrange(0, i as int))] + lines_spec(
                s.subrange(i as int + 1, s.len() as int),
            )
        }
    }
}

/// `str::lines` on characters.
pub fn lines(v: &[char]) -> (r: Vec<Vec<char>>)
    ensures
        views(r@) == lines_spec(v@),
{
    let n = v.len();
    let mut r: Vec<Vec<char>> = Vec::new();
    let mut p: usize = 0;
    assert(v@.subrange(0, n as int) =~= v@);
    while p < n
        invariant
            n == v@.len(),
            p <= n,
            views(r@) + lines_spec(v@.subrange(p as int, n as int)) == lines_spec(v@),
        decreases n - p,
    {
        let i = find_char(v, p, '\n');
        let ghost rest = v@.subrange(p as int, n as int);
        let mut end = i;
        if end > p && v[end - 1] == '\r' && i < n {
            end = end - 1;
        }
        let piece = slice_of(v, p, end);
        r.push(piece);
        proof {
            assert(rest.subrange(0, i - p) =~= v@.subrange(p as int, i as int));
            if i < n {
                assert(strip_cr(v@.subrange(p as int, i as int)) =~= v@.subrange(
                    p as int,
                    end as int,
                ));
                assert(rest.subrange(i - p + 1, rest.len() as int) =~= v@.subrange(
                    i + 1,
                    n as int,
                ));
            } else {
                assert(rest =~= v@.subrange(p as int, end as int));
                assert(v@.subrange(n as int, n as int) =~= Seq::<char>::empty());
            }
            assert(views(r@) =~= views(r@.drop_last()) + seq![v@.subrange(p as int, end as int)]);
        }
        if i == n {
            p = n;
        } else {
            p = i + 1;
        }
    }
    assert(lines_spec(v@.subrange(n as int, n as int)) =~= Seq::<Seq<char>>::empty());
    assert(views(r@) =~= views(r@) + Seq::<Seq<char>>::empty());
    r
}

// ---------------------------------------------------------------------------
// Splitting on whitespace
// ---------------------------------------------------------------------------

/// The index of the first whitespace character in `s`, or `s.len()`.
pub open spec fn find_ws_spec(s: Seq<char>) -> nat
    decreases s.len(),
{
    if s.len() == 0 {
        0
    } else if is_ws(s[0]) {
        0
    } else {
        1 + find_ws_spec(s.drop_first())
    }
}

pub proof fn lemma_find_ws(s: Seq<char>, i: int)
    requires
        0 <= i <= s.len(),
        forall|j: int| 0 <= j < i ==> !is_ws(s[j]),
        i < s.len() ==> is_ws(s[i]),
    ensures
        find_ws_spec(s) == i,
    decreases i,
{
    if i > 0 {
        lemma_find_ws(s.drop_first(), i - 1);
    }
}

pub proof fn lemma_find_ws_bound(s: Seq<char>)
    ensures
        find_ws_spec(s) <= s.len(),
    decreases s.len(),
{
    if s.len() > 0 && !is_ws(s[0]) {
        lemma_find_ws_bound(s.drop_first());
    }
}

/// `str::split_whitespace`: the maximal runs of non-whitespace characters.
pub open spec fn split_ws_spec(s: Seq<char>) -> Seq<Seq<char>>
    decreases s.len(),
{
    if s.len() == 0 {
        seq![]
    } else if is_ws(s[0]) {
        split_ws_spec(s.drop_first())
    } else {
        let i = find_ws_spec(s);
        proof {
            lemma_find_ws_bound(s);
        }
        seq![s.subrange(0, i as int)] + split_ws_spec(s.subrange(i as int, s.len() as int))
    }
}

pub proof fn lemma_split_ws_skip(v: Seq<char>, from: int, to: int)
    requires
        0 <= from <= to <= v.len(),
        forall|k: int| from <= k < to ==> is_ws(#[trigger] v[k]),
    ensures
        split_ws_spec(v.subrange(from, v.len() as int)) == split_ws_spec(
            v.subrange(to, v.len() as int),
        ),
    decreases to - from,
{
    if from < to {
        assert(v.subrange(from, v.len() as int).drop_first() =~= v.subrange(
            from + 1,
            v.len() as int,
        ));
        lemma_split_ws_skip(v, from + 1, to);
    }
}

/// `str::split_whitespace` on characters.
pub fn split_ws(v: &[char]) -> (r: Vec<Vec<char>>)
    ensures
        views(r@) == split_ws_spec(v@),
{
    let n = v.len();
    let mut r: Vec<Vec<char>> = Vec::new();
    let mut p: usize = 0;
    assert(v@.subrange(0, n as int) =~= v@);
    while p < n
        invariant
            n == v@.len(),
            p <= n,
            views(r@) + split_ws_spec(v@.subrange(p as int, n as int)) == split_ws_spec(v@),
        decreases n - p,
    {
        let q = skip_ws(v, p);
        proof {
            lemma_split_ws_skip(v@, p as int, q as int);
        }
        if q == n {
            p = n;
        } else {
            let mut e = q;
            while e < n && !is_whitespace(v[e])
                invariant
                    n == v@.len(),
                    q <= e <= n,
                    forall|k: int| q <= k < e ==> !is_ws(#[trigger] v@[k]),
                decreases n - e,
            {
                e = e + 1;
            }
            let ghost rest = v@.subrange(q as int, n as int);
            proof {
                lemma_find_ws(rest, e - q);
                assert(rest.subrange(0, e - q) =~= v@.subrange(q as int, e as int));
                assert(rest.subrange(e - q, rest.len() as int) =~= v@.subrange(e as int, n as int));
            }
            let piece = slice_of(v, q, e);
            r.push(piece);
            assert(views(r@) =~= views(r@.drop_last()) + seq![v@.subrange(q as int, e as int)]);
            p = e;
        }
    }
    assert(split_ws_spec(v@.subrange(n as int, n as int)) =~= Seq::<Seq<char>>::empty());
    assert(views(r@) =~= views(r@) + Seq::<Seq<char>>::empty());
    r
}


// ---------------------------------------------------------------------------
// Prefixes and substrings
// ---------------------------------------------------------------------------

pub open spec fn starts_with_spec(s: Seq<char>, p: Seq<char>) -> bool {
    p.len() <= s.len() && s.subrange(0, p.len() as int) == p
}

/// Whether `p` occurs in `v` at position `at`.
pub fn matches_at(v: &[char], at: usize, p: &[char]) -> (r: bool)
    requires
        at <= v@.len(),
    ensures
        r == starts_with_spec(v@.subrange(at as int, v@.len() as int), p@),
{
    let n = v.len();
    let m = p.len();
    if m > n - at {
        return false;
    }
    let mut k: usize = 0;
    while k < m
        invariant
            n == v@.len(),
            m == p@.len(),
            at + m <= n,
            k <= m,
            forall|j: int| 0 <= j < k ==> v@[at + j] == p@[j],
        decreases m - k,
    {
        if v[at + k] != p[k] {
            assert(v@.subrange(at as int, n as int).subrange(0, m as int)[k as int] != p@[k as int]);
            return false;
        }
        k = k + 1;
    }
    assert(v@.subrange(at as int, n as int).subrange(0, m as int) =~= p@);
    true
}

/// `str::starts_with` on characters.
pub fn starts_with(v: &[char], p: &[char]) -> (r: bool)
    ensures
        r == starts_with_spec(v@, p@),
{
    assert(v@.subrange(0, v@.len() as int) =~= v@);
    matches_at(v, 0, p)
}

/// `str::strip_prefix`: the rest of `s` after the prefix `p`.
pub open spec fn strip_prefix_spec(s: Seq<char>, p: Seq<char>) -> Option<Seq<char>> {
    if starts_with_spec(s, p) {
        Some(s.subrange(p.len() as int, s.len() as int))
    } else {
        None
    }
}

/// `str::strip_prefix` on characters.
pub fn strip_prefix(v: &[char], p: &[char]) -> (r: Option<Vec<char>>)
    ensures
        match r {
            Some(x) => strip_prefix_spec(v@, p@) == Some(x@),
            None => strip_prefix_spec(v@, p@) is None,
        },
{
    if starts_with(v, p) {
        Some(slice_of(v, p.len(), v.len()))
    } else {
        None
    }
}

/// `str::find` with a string pattern: the index of the first occurrence of `p` in `s`.
pub open spec fn find_sub_spec(s: Seq<char>, p: Seq<char>) -> Option<nat>
    decreases s.len(),
{
    if starts_with_spec(s, p) {
        Some(0)
    } else if s.len() == 0 {
        None
    } else {
        match find_sub_spec(s.drop_first(), p) {
            Some(k) => Some(k + 1),
            None => None,
        }
    }
}

/// `str::contains` with a string pattern.
pub open spec fn contains_spec(s: Seq<char>, p: Seq<char>) -> bool {
    find_sub_spec(s, p) is Some
}

/// A text contains every piece found at some position of it.
pub proof fn lemma_contains_at(s: Seq<char>, p: Seq<char>, i: int)
    requires
        0 <= i,
        i + p.len() <= s.len(),
        s.subrange(i, i + p.len()) == p,
    ensures
        contains_spec(s, p),
    decreases i,
{
    if !starts_with_spec(s, p) {
        if i == 0 {
            assert(s.subrange(0, p.len() as int) == p);
        } else {
            assert(s.drop_first().subrange(i - 1, i - 1 + p.len()) =~= s.subrange(i, i + p.len()));
            lemma_contains_at(s.drop_first(), p, i - 1);
        }
    }
}

/// `str::find` on characters.
pub fn find_sub(v: &[char], p: &[char]) -> (r: Option<usize>)
    ensures
        match r {
            Some(i) => find_sub_spec(v@, p@) == Some(i as nat),
            None => find_sub_spec(v@, p@) is None,
        },
{
    let n = v.len();
    let mut i: usize = 0;
    assert(v@.subrange(0, n as int) =~= v@);
    loop
        invariant
            n == v@.len(),
            i <= n,
            find_sub_spec(v@, p@) == (match find_sub_spec(v@.subrange(i as int, n as int), p@) {
                Some(k) => Some((k + i) as nat),
                None => None,
            }),
        decreases n - i,
    {
        if matches_at(v, i, p) {
            return Some(i);
        }
        if i == n {
            return None;
        }
        assert(v@.subrange(i as int, n as int).drop_first() =~= v@.subrange(i + 1, n as int));
        i = i + 1;
    }
}

pub proof fn lemma_find_sub_fits(s: Seq<char>, p: Seq<char>)
    ensures
        match find_sub_spec(s, p) {
            Some(i) => i + p.len() <= s.len() && s.subrange(i as int, (i + p.len()) as int) == p,
            None => true,
        },
    decreases s.len(),
{
    if starts_with_spec(s, p) {
    } else if s.len() > 0 {
        lemma_find_sub_fits(s.drop_first(), p);
        match find_sub_spec(s.drop_first(), p) {
            Some(k) => {
                assert(s.subrange((k + 1) as int, (k + 1 + p.len()) as int) =~= s.drop_first().subrange(k as int, (k + p.len()) as int));
            },
            None => {},
        }
    }
}

/// `str::contains` on characters.
pub fn contains(v: &[char], p: &[char]) -> (r: bool)
    ensures
        r == contains_spec(v@, p@),
{
    find_sub(v, p).is_some()
}

/// Whether the character `c` occurs in `v`.
pub fn has_char(v: &[char], c: char) -> (r: bool)
    ensures
        r == v@.contains(c),
{
    let i = find_char(v, 0, c);
    if i < v.len() {
        true
    } else {
        assert forall|k: int| 0 <= k < v@.len() implies v@[k] != c by {}
        false
    }
}

/// `str::trim_end_matches(c)`: the sequence without trailing `c`s.
pub open spec fn trim_end_char_spec(s: Seq<char>, c: char) -> Seq<char>
    decreases s.len(),
{
    if s.len() > 0 && s.last() == c {
        trim_end_char_spec(s.drop_last(), c)
    } else {
        s
    }
}

/// `str::trim_end_matches(c)` on characters.
pub fn trim_end_char(v: &[char], c: char) -> (r: Vec<char>)
    ensures
        r@ == trim_end_char_spec(v@, c),
{
    let mut j = v.len();
    assert(v@.subrange(0, j as int) =~= v@);
    while j > 0 && v[j - 1] == c
        invariant
            j <= v@.len(),
            trim_end_char_spec(v@, c) == trim_end_char_spec(v@.subrange(0, j as int), c),
        decreases j,
    {
        assert(v@.subrange(0, j as int).drop_last() =~= v@.subrange(0, j - 1));
        j = j - 1;
    }
    slice_of(v, 0, j)
}

/// `str::replace(c, r)` with a character pattern: each `c` replaced by `r`.
pub open spec fn replace_char_spec(s: Seq<char>, c: char, r: Seq<char>) -> Seq<char>
    decreases s.len(),
{
    if s.len() == 0 {
        seq![]
    } else {
        replace_char_spec(s.drop_last(), c, r) + if s.last() == c {
            r
        } else {
            seq![s.last()]
        }
    }
}

/// `str::replace(c, r)` on characters.
pub fn replace_char(v: &[char], c: char, rep: &[char]) -> (r: Vec<char>)
    ensures
        r@ == replace_char_spec(v@, c, rep@),
{
    let n = v.len();
    let mut r: Vec<char> = Vec::new();
    let mut i: usize = 0;
    assert(v@.subrange(0, 0) =~= Seq::<char>::empty());
    while i < n
        invariant
            n == v@.len(),
            i <= n,
            r@ == replace_char_spec(v@.subrange(0, i as int), c, rep@),
        decreases n - i,
    {
        let ghost before = r@;
        if v[i] == c {
            let mut k: usize = 0;
            while k < rep.len()
                invariant
                    k <= rep@.len(),
                    r@ == before + rep@.subrange(0, k as int),
                decreases rep@.len() - k,
            {
                r.push(rep[k]);
                k = k + 1;
                assert(r@ =~= before + rep@.subrange(0, k as int));
            }
            assert(rep@.subrange(0, rep@.len() as int) =~= rep@);
        } else {
            r.push(v[i]);
        }
        assert(v@.subrange(0, i + 1).drop_last() =~= v@.subrange(0, i as int));
        i = i + 1;
    }
    assert(v@.subrange(0, n as int) =~= v@);
    r
}

/// `str::eq_ignore_ascii_case`.
pub open spec fn eq_ignore_ascii_case_spec(a: Seq<char>, b: Seq<char>) -> bool {
    a.len() == b.len() && forall|i: int| 0 <= i < a.len() ==> ascii_lower(a[i]) == ascii_lower(b[i])
}

pub fn lower_ascii_char(c: char) -> (r: char)
    ensures
        r == ascii_lower(c),
{
    if 'A' <= c && c <= 'Z' {
        let u = (c as u8) + 32;
        u as char
    } else {
        c
    }
}

pub fn eq_ignore_ascii_case(a: &[char], b: &[char]) -> (r: bool)
    ensures
        r == eq_ignore_ascii_case_spec(a@, b@),
{
    if a.len() != b.len() {
        return false;
    }
    let n = a.len();
    let mut i: usize = 0;
    while i < n
        invariant
            n == a@.len(),
            n == b@.len(),
            i <= n,
            forall|j: int| 0 <= j < i ==> ascii_lower(a@[j]) == ascii_lower(b@[j]),
        decreases n - i,
    {
        if lower_ascii_char(a[i]) != lower_ascii_char(b[i]) {
            return false;
        }
        i = i + 1;
    }
    true
}

/// The full Unicode lowercase mapping of a text, as `str::to_lowercase`
/// computes it.
pub uninterp spec fn unicode_lowercase(s: Seq<char>) -> Seq<char>;

/// Whether every character is ASCII.
pub open spec fn all_ascii(s: Seq<char>) -> bool {
    forall|i: int| 0 <= i < s.len() ==> (s[i] as u32) < 128
}

/// `str::to_lowercase` of std. Claimed: the result is what
/// [`unicode_lowercase`] names, and for ASCII text it is the text with each
/// ASCII capital made small (std documents the lowercase of an ASCII letter
/// as its ASCII lowercase, and other ASCII characters as themselves).
#[verifier::external_body]
pub(crate) fn to_lowercase(s: &str) -> (r: String)
    ensures
        r@ == unicode_lowercase(s@),
        all_ascii(s@) ==> r@ == s@.map_values(|c: char| ascii_lower(c)),
{
    s.to_lowercase()
}


// ---------------------------------------------------------------------------
// Decimal numbers
// ---------------------------------------------------------------------------

pub open spec fn all_digits(d: Seq<char>) -> bool {
    forall|i: int| 0 <= i < d.len() ==> is_ascii_digit(#[trigger] d[i])
}

/// The value of a sequence of decimal digits.
pub open spec fn digits_value(d: Seq<char>) -> int
    decreases d.len(),
{
    if d.len() == 0 {
        0
    } else {
        10 * digits_value(d.drop_last()) + (d.last() as int - '0' as int)
    }
}

/// `FromStr` for an unsigned integer type whose largest value is `max`:
/// an optional `'+'`, then at least one decimal digit, and a value that fits.
pub open spec fn parse_uint_spec(s: Seq<char>, max: int) -> Option<int> {
    let d = if s.len() > 0 && s[0] == '+' {
        s.drop_first()
    } else {
        s
    };
    if d.len() > 0 && all_digits(d) && digits_value(d) <= max {
        Some(digits_value(d))
    } else {
        None
    }
}

pub proof fn lemma_digits_value_grows(d: Seq<char>, j: int, k: int)
    requires
        0 <= j <= k <= d.len(),
        all_digits(d),
    ensures
        0 <= digits_value(d.subrange(0, j)) <= digits_value(d.subrange(0, k)),
    decreases k,
{
    if j < k {
        lemma_digits_value_grows(d, j, k - 1);
        assert(d.subrange(0, k).drop_last() =~= d.subrange(0, k - 1));
        assert(is_ascii_digit(d[k - 1]));
    } else if k > 0 {
        lemma_digits_value_grows(d, k - 1, k - 1);
        assert(d.subrange(0, k).drop_last() =~= d.subrange(0, k - 1));
        assert(is_ascii_digit(d[k - 1]));
    }
}

/// Parses an unsigned decimal number no larger than `max`.
pub fn parse_uint(v: &[char], max: u64) -> (r: Option<u64>)
    requires
        max >= 9,
    ensures
        match r {
            Some(x) => parse_uint_spec(v@, max as int) == Some(x as int),
            None => parse_uint_spec(v@, max as int) is None,
        },
{
    let n = v.len();
    let start: usize = if n > 0 && v[0] == '+' {
        1
    } else {
        0
    };
    let ghost d = if v@.len() > 0 && v@[0] == '+' {
        v@.drop_first()
    } else {
        v@
    };
    assert(d =~= v@.subrange(start as int, n as int));
    if start == n {
        return None;
    }
    let mut acc: u64 = 0;
    let mut over = false;
    let mut k: usize = start;
    while k < n
        invariant
            n == v@.len(),
            start <= k <= n,
            d == v@.subrange(start as int, n as int),
            d == (if v@.len() > 0 && v@[0] == '+' { v@.drop_first() } else { v@ }),
            max >= 9,
            all_digits(d.subrange(0, k - start)),
            !over ==> acc == digits_value(d.subrange(0, k - start)) && acc <= max,
            over ==> digits_value(d.subrange(0, k - start)) > max,
        decreases n - k,
    {
        let c = v[k];
        if !('0' <= c && c <= '9') {
            assert(d[k - start] == c);
            return None;
        }
        let dig = (c as u32 - '0' as u32) as u64;
        proof {
            assert(d.subrange(0, k + 1 - start).drop_last() =~= d.subrange(0, k - start));
            assert(d.subrange(0, k + 1 - start).last() == c);
            assert(all_digits(d.subrange(0, k + 1 - start)));
            lemma_digits_value_grows(d.subrange(0, k + 1 - start), k - start, k + 1 - start);
            assert(d.subrange(0, k + 1 - start).subrange(0, k - start) =~= d.subrange(0, k - start));
            assert(d.subrange(0, k + 1 - start).subrange(0, k + 1 - start) =~= d.subrange(0, k + 1 - start));
        }
        if !over {
            if acc > (max - dig) / 10 {
                over = true;
            } else {
                acc = acc * 10 + dig;
            }
        }
        k = k + 1;
    }
    assert(d.subrange(0, n - start) =~= d);
    if over {
        None
    } else {
        Some(acc)
    }
}

/// The decimal digit character for `d < 10`.
pub open spec fn digit_char(d: nat) -> char {
    (48 + d) as char
}

/// The decimal text of a natural number, as `to_string` writes it.
pub open spec fn decimal_spec(n: nat) -> Seq<char>
    decreases n,
{
    if n < 10 {
        seq![digit_char(n)]
    } else {
        decimal_spec(n / 10).push(digit_char(n % 10))
    }
}

fn push_decimal(n: u64, out: &mut Vec<char>)
    ensures
        final(out)@ == old(out)@ + decimal_spec(n as nat),
    decreases n,
{
    if n >= 10 {
        push_decimal(n / 10, out);
    }
    let d = (n % 10) as u8;
    let c = (48u8 + d) as char;
    assert(c == digit_char((n % 10) as nat)) by {
        assert((48u8 + d) as char == (48 + d) as char);
    }
    out.push(c);
}

/// The decimal text of `n` (`u64::to_string`).
pub fn decimal(n: u64) -> (r: String)
    ensures
        r@ == decimal_spec(n as nat),
{
    let mut v: Vec<char> = Vec::new();
    push_decimal(n, &mut v);
    assert(v@ =~= decimal_spec(n as nat));
    string_of(v.as_slice())
}

} // verus!
