//! Character-level text utilities shared by all heuristics.
//!
//! Lines are handled as vectors of `char`; the specification level works
//! on `Seq<char>`. Character classification (case, digits, whitespace)
//! uses ASCII semantics: characters outside ASCII are kept intact but are
//! never letters, digits or whitespace to these predicates.

use vstd::prelude::*;
use vstd::string::StrSliceExecFns;

verus! {

// ---------------------------------------------------------------------
// Character classes (ASCII semantics)
// ---------------------------------------------------------------------

pub open spec fn is_ws_char(c: char) -> bool {
    c == ' ' || c == '\t' || c == '\n' || c == '\r' || c == '\u{b}' || c == '\u{c}'
}

pub open spec fn is_digit_char(c: char) -> bool {
    '0' <= c && c <= '9'
}

pub open spec fn is_upper_char(c: char) -> bool {
    'A' <= c && c <= 'Z'
}

pub open spec fn is_lower_char(c: char) -> bool {
    'a' <= c && c <= 'z'
}

pub open spec fn is_alpha_char(c: char) -> bool {
    is_upper_char(c) || is_lower_char(c)
}

/// ASCII lower-casing of one character.
pub open spec fn lower_char(c: char) -> char {
    if is_upper_char(c) {
        ((c as u8) + 32) as char
    } else {
        c
    }
}

pub fn ch_is_ws(c: char) -> (r: bool)
    ensures
        r == is_ws_char(c),
{
    c == ' ' || c == '\t' || c == '\n' || c == '\r' || c == '\u{b}' || c == '\u{c}'
}

pub fn ch_is_digit(c: char) -> (r: bool)
    ensures
        r == is_digit_char(c),
{
    '0' <= c && c <= '9'
}

pub fn ch_is_upper(c: char) -> (r: bool)
    ensures
        r == is_upper_char(c),
{
    'A' <= c && c <= 'Z'
}

pub fn ch_is_lower(c: char) -> (r: bool)
    ensures
        r == is_lower_char(c),
{
    'a' <= c && c <= 'z'
}

pub fn ch_is_alpha(c: char) -> (r: bool)
    ensures
        r == is_alpha_char(c),
{
    ch_is_upper(c) || ch_is_lower(c)
}

pub fn ch_lower(c: char) -> (r: char)
    ensures
        r == lower_char(c),
{
    if 'A' <= c && c <= 'Z' {
        ((c as u8) + 32) as char
    } else {
        c
    }
}

// ---------------------------------------------------------------------
// Conversions between strings and character vectors
// ---------------------------------------------------------------------

pub fn chars_of(s: &str) -> (v: Vec<char>)
    ensures
        v@ == s@,
{
    let n = s.unicode_len();
    let mut v: Vec<char> = Vec::new();
    let mut i: usize = 0;
    while i < n
        invariant
            n == s@.len(),
            i <= n,
            v@ == s@.take(i as int),
        decreases n - i,
    {
        v.push(s.get_char(i));
        i += 1;
        proof {
            assert(s@.take(i as int) =~= s@.take(i - 1).push(s@[i - 1]));
        }
    }
    proof {
        assert(s@.take(n as int) =~= s@);
    }
    v
}

/// Relies on `String`'s `FromIterator<char>` implementation: collecting
/// characters yields the string made of exactly those characters.
#[verifier::external_body]
pub fn string_from_chars(v: &Vec<char>) -> (s: String)
    ensures
        s@ == v@,
{
    v.iter().collect()
}

pub fn vec_eq_vec(a: &Vec<char>, b: &Vec<char>) -> (r: bool)
    ensures
        r == (a@ == b@),
{
    if a.len() != b.len() {
        return false;
    }
    let mut i: usize = 0;
    while i < a.len()
        invariant
            a@.len() == b@.len(),
            i <= a@.len(),
            forall|k: int| 0 <= k < i ==> a@[k] == b@[k],
        decreases a@.len() - i,
    {
        if a[i] != b[i] {
            return false;
        }
        i += 1;
    }
    proof {
        assert(a@ =~= b@);
    }
    true
}

pub fn str_eq(a: &str, b: &str) -> (r: bool)
    ensures
        r == (a@ == b@),
{
    let av = chars_of(a);
    let bv = chars_of(b);
    vec_eq_vec(&av, &bv)
}

pub fn vec_eq_str(v: &Vec<char>, s: &str) -> (r: bool)
    ensures
        r == (v@ == s@),
{
    let w = chars_of(s);
    vec_eq_vec(v, &w)
}

/// Copy of the characters of `v` in positions `a..b`.
pub fn sub_vec(v: &Vec<char>, a: usize, b: usize) -> (r: Vec<char>)
    requires
        a <= b <= v@.len(),
    ensures
        r@ == v@.subrange(a as int, b as int),
{
    let mut r: Vec<char> = Vec::new();
    let mut i: usize = a;
    while i < b
        invariant
            a <= i <= b <= v@.len(),
            r@ == v@.subrange(a as int, i as int),
        decreases b - i,
    {
        r.push(v[i]);
        i += 1;
        proof {
            assert(v@.subrange(a as int, i as int) =~= v@.subrange(a as int, i - 1).push(
                v@[i - 1],
            ));
        }
    }
    r
}

// ---------------------------------------------------------------------
// Lower-casing a whole line
// ---------------------------------------------------------------------

pub open spec fn lower_seq(s: Seq<char>) -> Seq<char> {
    s.map_values(|c: char| lower_char(c))
}

pub fn to_lower_vec(v: &Vec<char>) -> (r: Vec<char>)
    ensures
        r@ == lower_seq(v@),
{
    let mut r: Vec<char> = Vec::new();
    let mut i: usize = 0;
    while i < v.len()
        invariant
            i <= v@.len(),
            r@ == lower_seq(v@.take(i as int)),
        decreases v@.len() - i,
    {
        r.push(ch_lower(v[i]));
        i += 1;
        proof {
            assert(lower_seq(v@.take(i as int)) =~= lower_seq(v@.take(i - 1)).push(
                lower_char(v@[i - 1]),
            ));
        }
    }
    proof {
        assert(v@.take(v@.len() as int) =~= v@);
    }
    r
}

// ---------------------------------------------------------------------
// Trimming
// ---------------------------------------------------------------------

/// Index of the first non-whitespace character at or after `i`
/// (`s.len()` if there is none).
pub open spec fn first_non_ws(s: Seq<char>, i: int) -> int
    decreases s.len() - i when 0 <= i <= s.len()
{
    if i >= s.len() {
        i
    } else if is_ws_char(s[i]) {
        first_non_ws(s, i + 1)
    } else {
        i
    }
}

/// One past the last non-whitespace character strictly before `i`
/// (0 if there is none).
pub open spec fn last_non_ws_end(s: Seq<char>, i: int) -> int
    decreases i when 0 <= i <= s.len()
{
    if i <= 0 {
        0
    } else if is_ws_char(s[i - 1]) {
        last_non_ws_end(s, i - 1)
    } else {
        i
    }
}

/// The line with leading and trailing whitespace removed.
pub open spec fn trim_seq(s: Seq<char>) -> Seq<char> {
    let a = first_non_ws(s, 0);
    let b = last_non_ws_end(s, s.len() as int);
    if a < b {
        s.subrange(a, b)
    } else {
        Seq::empty()
    }
}

pub fn trim_vec(v: &Vec<char>) -> (r: Vec<char>)
    ensures
        r@ == trim_seq(v@),
{
    let mut a: usize = 0;
    while a < v.len() && ch_is_ws(v[a])
        invariant
            0 <= a <= v@.len(),
            first_non_ws(v@, 0) == first_non_ws(v@, a as int),
        decreases v@.len() - a,
    {
        a += 1;
    }
    let mut b: usize = v.len();
    while b > 0 && ch_is_ws(v[b - 1])
        invariant
            0 <= b <= v@.len(),
            last_non_ws_end(v@, v@.len() as int) == last_non_ws_end(v@, b as int),
        decreases b,
    {
        b -= 1;
    }
    if a < b {
        sub_vec(v, a, b)
    } else {
        Vec::new()
    }
}

// ---------------------------------------------------------------------
// Substring search, prefixes, suffixes
// ---------------------------------------------------------------------

/// The pattern `p` occurs in `s` starting at position `i`.
pub open spec fn matches_at(s: Seq<char>, p: Seq<char>, i: int) -> bool {
    0 <= i && i + p.len() <= s.len() && s.subrange(i, i + p.len() as int) == p
}

/// The pattern `p` occurs somewhere in `s`.
pub open spec fn contains_seq(s: Seq<char>, p: Seq<char>) -> bool {
    exists|i: int| matches_at(s, p, i)
}

pub open spec fn starts_with_seq(s: Seq<char>, p: Seq<char>) -> bool {
    matches_at(s, p, 0)
}

pub open spec fn ends_with_seq(s: Seq<char>, p: Seq<char>) -> bool {
    matches_at(s, p, s.len() - p.len())
}

pub fn matches_at_exec(s: &Vec<char>, p: &Vec<char>, i: usize) -> (r: bool)
    requires
        i + p@.len() <= s@.len(),
    ensures
        r == matches_at(s@, p@, i as int),
{
    let n = s.len();
    let mut j: usize = 0;
    while j < p.len()
        invariant
            n == s@.len(),
            i + p@.len() <= n,
            j <= p@.len(),
            forall|k: int| 0 <= k < j ==> s@[i + k] == p@[k],
        decreases p@.len() - j,
    {
        if s[i + j] != p[j] {
            proof {
                assert(s@.subrange(i as int, i + p@.len() as int)[j as int] == s@[i + j]);
            }
            return false;
        }
        j += 1;
    }
    proof {
        assert(s@.subrange(i as int, i + p@.len() as int) =~= p@);
    }
    true
}

pub fn contains_vec(s: &Vec<char>, p: &Vec<char>) -> (r: bool)
    ensures
        r == contains_seq(s@, p@),
{
    if p.len() > s.len() {
        proof {
            assert(forall|i: int| !matches_at(s@, p@, i));
        }
        return false;
    }
    let m = s.len() - p.len();
    let mut i: usize = 0;
    loop
        invariant
            p@.len() <= s@.len(),
            m == s@.len() - p@.len(),
            0 <= i <= m,
            forall|k: int| 0 <= k < i ==> !matches_at(s@, p@, k),
        decreases m - i,
    {
        if matches_at_exec(s, p, i) {
            return true;
        }
        if i == m {
            proof {
                assert(forall|k: int| k > m ==> !matches_at(s@, p@, k));
            }
            return false;
        }
        i += 1;
    }
}

pub fn contains_str(s: &Vec<char>, p: &str) -> (r: bool)
    ensures
        r == contains_seq(s@, p@),
{
    let pv = chars_of(p);
    contains_vec(s, &pv)
}

pub fn starts_with_str(s: &Vec<char>, p: &str) -> (r: bool)
    ensures
        r == starts_with_seq(s@, p@),
{
    let pv = chars_of(p);
    if pv.len() > s.len() {
        return false;
    }
    matches_at_exec(s, &pv, 0)
}

pub fn ends_with_str(s: &Vec<char>, p: &str) -> (r: bool)
    ensures
        r == ends_with_seq(s@, p@),
{
    let pv = chars_of(p);
    if pv.len() > s.len() {
        return false;
    }
    matches_at_exec(s, &pv, s.len() - pv.len())
}

// ---------------------------------------------------------------------
// Counting characters
// ---------------------------------------------------------------------

pub open spec fn count_chars(s: Seq<char>, p: spec_fn(char) -> bool) -> nat
    decreases s.len(),
{
    if s.len() == 0 {
        0
    } else {
        count_chars(s.drop_last(), p) + (if p(s.last()) {
            1nat
        } else {
            0nat
        })
    }
}

pub open spec fn count_digit_chars(s: Seq<char>) -> nat {
    count_chars(s, |c: char| is_digit_char(c))
}

pub open spec fn count_nonalpha_chars(s: Seq<char>) -> nat {
    count_chars(s, |c: char| !is_alpha_char(c))
}

pub proof fn lemma_count_chars_push(s: Seq<char>, x: char, p: spec_fn(char) -> bool)
    ensures
        count_chars(s.push(x), p) == count_chars(s, p) + (if p(x) {
            1nat
        } else {
            0nat
        }),
{
    assert(s.push(x).drop_last() =~= s);
    assert(s.push(x).last() == x);
}

pub fn count_digits_vec(v: &Vec<char>) -> (r: usize)
    ensures
        r == count_digit_chars(v@),
{
    let mut r: usize = 0;
    let mut i: usize = 0;
    while i < v.len()
        invariant
            i <= v@.len(),
            r == count_digit_chars(v@.take(i as int)),
            r <= i,
        decreases v@.len() - i,
    {
        proof {
            assert(v@.take(i + 1) =~= v@.take(i as int).push(v@[i as int]));
            lemma_count_chars_push(v@.take(i as int), v@[i as int], |c: char| is_digit_char(c));
        }
        if ch_is_digit(v[i]) {
            r += 1;
        }
        i += 1;
    }
    proof {
        assert(v@.take(v@.len() as int) =~= v@);
    }
    r
}

pub fn count_nonalpha_vec(v: &Vec<char>) -> (r: usize)
    ensures
        r == count_nonalpha_chars(v@),
{
    let mut r: usize = 0;
    let mut i: usize = 0;
    while i < v.len()
        invariant
            i <= v@.len(),
            r == count_nonalpha_chars(v@.take(i as int)),
            r <= i,
        decreases v@.len() - i,
    {
        proof {
            assert(v@.take(i + 1) =~= v@.take(i as int).push(v@[i as int]));
            lemma_count_chars_push(v@.take(i as int), v@[i as int], |c: char| !is_alpha_char(c));
        }
        if !ch_is_alpha(v[i]) {
            r += 1;
        }
        i += 1;
    }
    proof {
        assert(v@.take(v@.len() as int) =~= v@);
    }
    r
}

pub open spec fn count_seqs(ws: Seq<Seq<char>>, p: spec_fn(Seq<char>) -> bool) -> nat
    decreases ws.len(),
{
    if ws.len() == 0 {
        0
    } else {
        count_seqs(ws.drop_last(), p) + (if p(ws.last()) {
            1nat
        } else {
            0nat
        })
    }
}

pub proof fn lemma_count_seqs_push(ws: Seq<Seq<char>>, x: Seq<char>, p: spec_fn(Seq<char>) -> bool)
    ensures
        count_seqs(ws.push(x), p) == count_seqs(ws, p) + (if p(x) {
            1nat
        } else {
            0nat
        }),
{
    assert(ws.push(x).drop_last() =~= ws);
    assert(ws.push(x).last() == x);
}

/// No ASCII lower-case letter occurs in `s` (the all-caps test).
pub open spec fn no_lower_seq(s: Seq<char>) -> bool {
    forall|i: int| 0 <= i < s.len() ==> !is_lower_char(s[i])
}

pub fn has_no_lower(v: &Vec<char>) -> (r: bool)
    ensures
        r == no_lower_seq(v@),
{
    let mut i: usize = 0;
    while i < v.len()
        invariant
            i <= v@.len(),
            forall|k: int| 0 <= k < i ==> !is_lower_char(v@[k]),
        decreases v@.len() - i,
    {
        if ch_is_lower(v[i]) {
            return false;
        }
        i += 1;
    }
    true
}

// ---------------------------------------------------------------------
// Splitting a line into whitespace-separated words
// ---------------------------------------------------------------------

/// Index of the first whitespace character at or after `i`
/// (`s.len()` if there is none).
pub open spec fn next_ws(s: Seq<char>, i: int) -> int
    decreases s.len() - i when 0 <= i <= s.len()
{
    if i >= s.len() {
        i
    } else if is_ws_char(s[i]) {
        i
    } else {
        next_ws(s, i + 1)
    }
}

pub proof fn lemma_next_ws(s: Seq<char>, i: int)
    requires
        0 <= i <= s.len(),
    ensures
        i <= next_ws(s, i) <= s.len(),
        next_ws(s, i) < s.len() ==> is_ws_char(s[next_ws(s, i)]),
        forall|j: int| i <= j < next_ws(s, i) ==> !is_ws_char(s[j]),
    decreases s.len() - i,
{
    if i < s.len() && !is_ws_char(s[i]) {
        lemma_next_ws(s, i + 1);
    }
}

/// The whitespace-separated words of `s` from position `i` on.
pub open spec fn words_from(s: Seq<char>, i: int) -> Seq<Seq<char>>
    decreases s.len() - i when 0 <= i <= s.len() via words_from_decreases
{
    if i >= s.len() {
        Seq::empty()
    } else if is_ws_char(s[i]) {
        words_from(s, i + 1)
    } else {
        seq![s.subrange(i, next_ws(s, i))] + words_from(s, next_ws(s, i))
    }
}

#[via_fn]
proof fn words_from_decreases(s: Seq<char>, i: int) {
    if 0 <= i <= s.len() {
        lemma_next_ws(s, i);
        if i < s.len() && !is_ws_char(s[i]) {
            assert(next_ws(s, i) >= i + 1);
        }
    }
}

/// The whitespace-separated words of `s`.
pub open spec fn words(s: Seq<char>) -> Seq<Seq<char>> {
    words_from(s, 0)
}

pub open spec fn word_count(s: Seq<char>) -> nat {
    words(s).len()
}

pub open spec fn views_of(ws: Seq<Vec<char>>) -> Seq<Seq<char>> {
    ws.map_values(|w: Vec<char>| w@)
}

pub fn split_words(v: &Vec<char>) -> (r: Vec<Vec<char>>)
    ensures
        views_of(r@) == words(v@),
{
    let n = v.len();
    let mut r: Vec<Vec<char>> = Vec::new();
    let mut i: usize = 0;
    proof {
        assert(views_of(r@) + words_from(v@, 0) =~= words(v@));
    }
    while i < n
        invariant
            n == v@.len(),
            0 <= i <= n,
            views_of(r@) + words_from(v@, i as int) == words(v@),
        decreases n - i,
    {
        if ch_is_ws(v[i]) {
            i += 1;
        } else {
            let start = i;
            let mut j = i;
            while j < n && !ch_is_ws(v[j])
                invariant
                    n == v@.len(),
                    start <= j <= n,
                    next_ws(v@, start as int) == next_ws(v@, j as int),
                decreases n - j,
            {
                j += 1;
            }
            proof {
                assert(next_ws(v@, start as int) == j as int);
            }
            let w = sub_vec(v, start, j);
            let ghost old_r = r@;
            r.push(w);
            proof {
                assert(views_of(r@) =~= views_of(old_r).push(w@));
                assert(views_of(old_r).push(w@) + words_from(v@, j as int) =~= views_of(old_r)
                    + (seq![w@] + words_from(v@, j as int)));
            }
            i = j;
        }
    }
    proof {
        assert(views_of(r@) + words_from(v@, n as int) =~= views_of(r@));
    }
    r
}

// ---------------------------------------------------------------------
// Joining words with single spaces (whitespace collapsing)
// ---------------------------------------------------------------------

pub open spec fn join_words(ws: Seq<Seq<char>>) -> Seq<char>
    decreases ws.len(),
{
    if ws.len() == 0 {
        Seq::empty()
    } else if ws.len() == 1 {
        ws[0]
    } else {
        join_words(ws.drop_last()) + seq![' '] + ws.last()
    }
}

/// `s` with every maximal whitespace run replaced by one space and
/// leading/trailing whitespace removed.
pub open spec fn collapse_ws(s: Seq<char>) -> Seq<char> {
    join_words(words(s))
}

pub fn join_words_exec(ws: &Vec<Vec<char>>) -> (r: Vec<char>)
    ensures
        r@ == join_words(views_of(ws@)),
{
    let mut r: Vec<char> = Vec::new();
    let mut i: usize = 0;
    while i < ws.len()
        invariant
            i <= ws@.len(),
            r@ == join_words(views_of(ws@).take(i as int)),
        decreases ws@.len() - i,
    {
        if i > 0 {
            r.push(' ');
        }
        let w = &ws[i];
        let mut k: usize = 0;
        let ghost base = r@;
        while k < w.len()
            invariant
                k <= w@.len(),
                r@ == base + w@.take(k as int),
            decreases w@.len() - k,
        {
            r.push(w[k]);
            k += 1;
            proof {
                assert(base + w@.take(k as int) =~= (base + w@.take(k - 1)).push(w@[k - 1]));
            }
        }
        proof {
            assert(base + w@.take(w@.len() as int) =~= base + w@);
            let vws = views_of(ws@);
            assert(vws.take(i + 1).drop_last() =~= vws.take(i as int));
            assert(vws.take(i + 1).last() == vws[i as int]);
            if i == 0 {
                assert(join_words(vws.take(1)) == vws[0]);
                assert(Seq::<char>::empty() + vws[0] =~= vws[0]);
            }
        }
        i += 1;
    }
    proof {
        assert(views_of(ws@).take(ws@.len() as int) =~= views_of(ws@));
    }
    r
}

// ---------------------------------------------------------------------
// Splitting text on a delimiter pattern
// ---------------------------------------------------------------------

/// Position of the first occurrence of `p` at or after `i` in `s`,
/// or -1 if there is none.
pub open spec fn find_from(s: Seq<char>, p: Seq<char>, i: int) -> int
    decreases s.len() - i when 0 <= i && p.len() >= 1
{
    if i + p.len() > s.len() {
        -1
    } else if matches_at(s, p, i) {
        i
    } else {
        find_from(s, p, i + 1)
    }
}

pub proof fn lemma_find_from(s: Seq<char>, p: Seq<char>, i: int)
    requires
        0 <= i,
        p.len() >= 1,
    ensures
        find_from(s, p, i) == -1 || find_from(s, p, i) >= i,
        find_from(s, p, i) >= 0 ==> matches_at(s, p, find_from(s, p, i)) && find_from(s, p, i)
            + p.len() <= s.len(),
        forall|k: int| i <= k < find_from(s, p, i) ==> !matches_at(s, p, k),
        find_from(s, p, i) == -1 ==> forall|k: int| i <= k ==> !matches_at(s, p, k),
    decreases s.len() - i,
{
    if i + p.len() > s.len() {
    } else if matches_at(s, p, i) {
    } else {
        lemma_find_from(s, p, i + 1);
    }
}

/// The pieces of `s` between consecutive occurrences of the delimiter
/// `p` (leftmost-first, non-overlapping). Always at least one piece.
pub open spec fn split_by(s: Seq<char>, p: Seq<char>) -> Seq<Seq<char>>
    decreases s.len() when p.len() >= 1 via split_by_decreases
{
    let j = find_from(s, p, 0);
    if j < 0 {
        seq![s]
    } else {
        seq![s.subrange(0, j)] + split_by(s.skip(j + p.len() as int), p)
    }
}

#[via_fn]
proof fn split_by_decreases(s: Seq<char>, p: Seq<char>) {
    if p.len() >= 1 {
        lemma_find_from(s, p, 0);
    }
}

fn find_in(v: &Vec<char>, p: &Vec<char>) -> (r: Option<usize>)
    requires
        p@.len() >= 1,
    ensures
        match r {
            Some(j) => j == find_from(v@, p@, 0),
            None => find_from(v@, p@, 0) == -1,
        },
{
    proof {
        lemma_find_from(v@, p@, 0);
    }
    if p.len() > v.len() {
        return None;
    }
    let m = v.len() - p.len();
    let mut i: usize = 0;
    loop
        invariant
            p@.len() >= 1,
            p@.len() <= v@.len(),
            m == v@.len() - p@.len(),
            0 <= i <= m,
            forall|k: int| 0 <= k < i ==> !matches_at(v@, p@, k),
        decreases m - i,
    {
        if matches_at_exec(v, p, i) {
            proof {
                lemma_find_from(v@, p@, 0);
            }
            return Some(i);
        }
        if i == m {
            proof {
                lemma_find_from(v@, p@, 0);
                assert(forall|k: int| k > m ==> !matches_at(v@, p@, k));
            }
            return None;
        }
        i += 1;
    }
}

fn clone_chars(v: &Vec<char>) -> (r: Vec<char>)
    ensures
        r@ == v@,
{
    let mut r: Vec<char> = Vec::new();
    let mut i: usize = 0;
    while i < v.len()
        invariant
            i <= v@.len(),
            r@ == v@.take(i as int),
        decreases v@.len() - i,
    {
        r.push(v[i]);
        i += 1;
        proof {
            assert(v@.take(i as int) =~= v@.take(i - 1).push(v@[i - 1]));
        }
    }
    proof {
        assert(v@.take(v@.len() as int) =~= v@);
    }
    r
}

pub fn split_by_pat(v: &Vec<char>, p: &Vec<char>) -> (r: Vec<Vec<char>>)
    requires
        p@.len() >= 1,
    ensures
        views_of(r@) == split_by(v@, p@),
    decreases v@.len(),
{
    proof {
        lemma_find_from(v@, p@, 0);
    }
    match find_in(v, p) {
        None => {
            let mut r: Vec<Vec<char>> = Vec::new();
            r.push(clone_chars(v));
            proof {
                assert(views_of(r@) =~= seq![v@]);
            }
            r
        },
        Some(j) => {
            let n = v.len();
            proof {
                lemma_find_from(v@, p@, 0);
                assert(j + p@.len() <= v@.len());
            }
            let head = sub_vec(v, 0, j);
            let tail = sub_vec(v, j + p.len(), n);
            proof {
                assert(tail@ =~= v@.skip(j + p@.len() as int));
            }
            let rest = split_by_pat(&tail, p);
            let mut r: Vec<Vec<char>> = Vec::new();
            r.push(head);
            let mut k: usize = 0;
            while k < rest.len()
                invariant
                    p@.len() >= 1,
                    k <= rest@.len(),
                    views_of(r@) == seq![v@.subrange(0, find_from(v@, p@, 0))] + views_of(
                        rest@,
                    ).take(k as int),
                decreases rest@.len() - k,
            {
                r.push(clone_chars(&rest[k]));
                k += 1;
                proof {
                    assert(views_of(rest@).take(k as int) =~= views_of(rest@).take(k - 1).push(
                        views_of(rest@)[k - 1],
                    ));
                    assert(seq![v@.subrange(0, find_from(v@, p@, 0))] + views_of(rest@).take(
                        k as int,
                    ) =~= (seq![v@.subrange(0, find_from(v@, p@, 0))] + views_of(rest@).take(k - 1)).push(
                        views_of(rest@)[k - 1],
                    ));
                }
            }
            proof {
                assert(views_of(rest@).take(rest@.len() as int) =~= views_of(rest@));
            }
            r
        },
    }
}

pub fn split_by_str(v: &Vec<char>, p: &str) -> (r: Vec<Vec<char>>)
    requires
        p@.len() >= 1,
    ensures
        views_of(r@) == split_by(v@, p@),
{
    let pv = chars_of(p);
    split_by_pat(v, &pv)
}

} // verus!
