//! The structural heading classifier: pattern rules over the shape of a
//! single line, plus the context heuristics that gate ambiguous rules.

use vstd::prelude::*;
use crate::model::{Heading, HeadingModel, Level};
use crate::exclude::{is_excluded_vec, spec_is_excluded};
use crate::text::{
    chars_of, contains_seq, contains_str, count_chars, count_seqs, ends_with_seq, ends_with_str,
    first_non_ws, is_alpha_char, is_digit_char, is_lower_char, is_upper_char, is_ws_char,
    lemma_count_chars_push, lemma_count_seqs_push, lower_seq, no_lower_seq,
    split_words, starts_with_seq, starts_with_str, to_lower_vec, trim_seq, trim_vec, vec_eq_str,
    views_of, word_count, words, ch_is_ws, ch_is_digit, ch_is_upper, ch_is_lower, has_no_lower,
    string_from_chars,
};

verus! {

// ---------------------------------------------------------------------
// Scanning runs of characters
// ---------------------------------------------------------------------

/// Index of the first character at or after `i` that does not satisfy
/// `p` (`s.len()` if all do).
pub open spec fn scan_while(s: Seq<char>, i: int, p: spec_fn(char) -> bool) -> int
    decreases s.len() - i when 0 <= i <= s.len()
{
    if i >= s.len() {
        i
    } else if p(s[i]) {
        scan_while(s, i + 1, p)
    } else {
        i
    }
}

pub open spec fn is_dot_digit_char(c: char) -> bool {
    is_digit_char(c) || c == '.'
}

pub open spec fn is_roman_char(c: char) -> bool {
    c == 'I' || c == 'V' || c == 'X' || c == 'L' || c == 'C' || c == 'D' || c == 'M'
}

/// End of the run of digits and dots starting at `i`.
pub open spec fn dot_digit_end(s: Seq<char>, i: int) -> int {
    scan_while(s, i, |c: char| is_dot_digit_char(c))
}

/// End of the run of roman-numeral letters starting at `i`.
pub open spec fn roman_end(s: Seq<char>, i: int) -> int {
    scan_while(s, i, |c: char| is_roman_char(c))
}

fn scan_dot_digit(v: &Vec<char>, i: usize) -> (r: usize)
    requires
        i <= v@.len(),
    ensures
        r == dot_digit_end(v@, i as int),
        i <= r <= v@.len(),
{
    let mut j = i;
    while j < v.len() && (ch_is_digit(v[j]) || v[j] == '.')
        invariant
            i <= j <= v@.len(),
            dot_digit_end(v@, i as int) == dot_digit_end(v@, j as int),
        decreases v@.len() - j,
    {
        j += 1;
    }
    j
}

fn scan_roman(v: &Vec<char>, i: usize) -> (r: usize)
    requires
        i <= v@.len(),
    ensures
        r == roman_end(v@, i as int),
        i <= r <= v@.len(),
{
    let mut j = i;
    while j < v.len() && (v[j] == 'I' || v[j] == 'V' || v[j] == 'X' || v[j] == 'L' || v[j] == 'C'
        || v[j] == 'D' || v[j] == 'M')
        invariant
            i <= j <= v@.len(),
            roman_end(v@, i as int) == roman_end(v@, j as int),
        decreases v@.len() - j,
    {
        j += 1;
    }
    j
}

fn skip_ws_exec(v: &Vec<char>, i: usize) -> (r: usize)
    requires
        i <= v@.len(),
    ensures
        r == first_non_ws(v@, i as int),
        i <= r <= v@.len(),
{
    let mut j = i;
    while j < v.len() && ch_is_ws(v[j])
        invariant
            i <= j <= v@.len(),
            first_non_ws(v@, i as int) == first_non_ws(v@, j as int),
        decreases v@.len() - j,
    {
        j += 1;
    }
    j
}

// ---------------------------------------------------------------------
// Numbered headings
// ---------------------------------------------------------------------

/// A numbering token: digits and dots, starting with a digit, with no
/// two consecutive dots (the shapes "7", "7.", "7.2", "7.2.").
pub open spec fn is_numlike(t: Seq<char>) -> bool {
    &&& t.len() > 0
    &&& is_digit_char(t[0])
    &&& forall|i: int| 0 <= i < t.len() ==> is_dot_digit_char(t[i])
    &&& forall|i: int| 0 <= i < t.len() - 1 ==> !(#[trigger] t[i] == '.' && t[i + 1] == '.')
}

fn numlike_prefix(v: &Vec<char>, e: usize) -> (r: bool)
    requires
        e <= v@.len(),
    ensures
        r == is_numlike(v@.take(e as int)),
{
    if e == 0 {
        return false;
    }
    if !ch_is_digit(v[0]) {
        return false;
    }
    let mut i: usize = 0;
    while i < e
        invariant
            0 < e <= v@.len(),
            i <= e,
            is_digit_char(v@[0]),
            forall|k: int| 0 <= k < i ==> is_dot_digit_char(v@[k]),
            forall|k: int| 0 <= k < i - 1 ==> !(#[trigger] v@[k] == '.' && v@[k + 1] == '.'),
        decreases e - i,
    {
        if !(ch_is_digit(v[i]) || v[i] == '.') {
            proof {
                assert(v@.take(e as int)[i as int] == v@[i as int]);
            }
            return false;
        }
        if i > 0 && v[i - 1] == '.' && v[i] == '.' {
            proof {
                assert(v@.take(e as int)[i - 1] == v@[i - 1]);
                assert(v@.take(e as int)[i as int] == v@[i as int]);
            }
            return false;
        }
        i += 1;
    }
    proof {
        assert(forall|k: int| 0 <= k < e ==> v@.take(e as int)[k] == v@[k]);
    }
    true
}

/// A decimal numbering prefix: a digits-and-dots token, an optional
/// closing `.` or `)`, then whitespace and further content.
pub open spec fn numbered_alt_decimal(t: Seq<char>) -> bool {
    let m = dot_digit_end(t, 0);
    if m <= 0 {
        false
    } else if m < t.len() && t[m] == ')' {
        &&& is_numlike(t.take(m))
        &&& m + 1 < t.len() && is_ws_char(t[m + 1])
        &&& t.len() >= m + 3
    } else {
        &&& (is_numlike(t.take(m)) || (t[m - 1] == '.' && is_numlike(t.take(m - 1))))
        &&& m < t.len() && is_ws_char(t[m])
        &&& t.len() >= m + 2
    }
}

/// An alphabetic enumerator: one or two letters, a `.` or `)`, then
/// whitespace and further content.
pub open spec fn numbered_alt_alpha(t: Seq<char>) -> bool {
    ||| (t.len() >= 4 && is_alpha_char(t[0]) && (t[1] == '.' || t[1] == ')') && is_ws_char(t[2]))
    ||| (t.len() >= 5 && is_alpha_char(t[0]) && is_alpha_char(t[1]) && (t[2] == '.' || t[2] == ')')
        && is_ws_char(t[3]))
}

/// A roman-numeral enumerator: upper-case roman letters, an optional
/// `.` or `)`, then whitespace and further content.
pub open spec fn numbered_alt_roman(t: Seq<char>) -> bool {
    let r = roman_end(t, 0);
    r > 0 && ((r < t.len() && is_ws_char(t[r]) && t.len() >= r + 2) || (r < t.len() && (t[r] == '.'
        || t[r] == ')') && r + 1 < t.len() && is_ws_char(t[r + 1]) && t.len() >= r + 3))
}

/// The line begins with a numbering pattern followed by content.
pub open spec fn spec_numbered_heading(t: Seq<char>) -> bool {
    numbered_alt_decimal(t) || numbered_alt_alpha(t) || numbered_alt_roman(t)
}

pub fn matches_numbered_heading(v: &Vec<char>) -> (r: bool)
    ensures
        r == spec_numbered_heading(v@),
{
    let n = v.len();
    let decimal = {
        let m = scan_dot_digit(v, 0);
        if m == 0 {
            false
        } else if m < n && v[m] == ')' {
            numlike_prefix(v, m) && n - m >= 3 && ch_is_ws(v[m + 1])
        } else {
            (numlike_prefix(v, m) || (v[m - 1] == '.' && numlike_prefix(v, m - 1))) && n - m >= 2
                && ch_is_ws(v[m])
        }
    };
    if decimal {
        return true;
    }
    let alpha = (n >= 4 && ch_is_alpha_local(v[0]) && (v[1] == '.' || v[1] == ')') && ch_is_ws(
        v[2],
    )) || (n >= 5 && ch_is_alpha_local(v[0]) && ch_is_alpha_local(v[1]) && (v[2] == '.' || v[2]
        == ')') && ch_is_ws(v[3]));
    if alpha {
        return true;
    }
    let r = scan_roman(v, 0);
    r > 0 && ((n - r >= 2 && ch_is_ws(v[r])) || (n - r >= 3 && (v[r] == '.' || v[r] == ')')
        && ch_is_ws(v[r + 1])))
}

fn ch_is_alpha_local(c: char) -> (r: bool)
    ensures
        r == is_alpha_char(c),
{
    ('A' <= c && c <= 'Z') || ('a' <= c && c <= 'z')
}

// ---------------------------------------------------------------------
// Section / chapter / part and appendix headings
// ---------------------------------------------------------------------

/// The line starts with the word `w`, whitespace, and an upper-case
/// letter or digit.
pub open spec fn word_enum_heading(t: Seq<char>, w: Seq<char>) -> bool {
    &&& starts_with_seq(t, w)
    &&& w.len() < t.len() && is_ws_char(t[w.len() as int])
    &&& {
        let k = first_non_ws(t, w.len() as int);
        k < t.len() && (is_upper_char(t[k]) || is_digit_char(t[k]))
    }
}

pub open spec fn spec_section_heading(t: Seq<char>) -> bool {
    word_enum_heading(t, "Chapter"@) || word_enum_heading(t, "Section"@) || word_enum_heading(
        t,
        "Part"@,
    )
}

pub open spec fn spec_appendix_heading(t: Seq<char>) -> bool {
    word_enum_heading(t, "Appendix"@)
}

fn word_enum_exec(v: &Vec<char>, w: &str) -> (r: bool)
    ensures
        r == word_enum_heading(v@, w@),
{
    let wv = chars_of(w);
    if !starts_with_str(v, w) {
        return false;
    }
    if !(wv.len() < v.len() && ch_is_ws(v[wv.len()])) {
        return false;
    }
    let k = skip_ws_exec(v, wv.len());
    k < v.len() && (ch_is_upper(v[k]) || ch_is_digit(v[k]))
}

pub fn matches_section_heading(v: &Vec<char>) -> (r: bool)
    ensures
        r == spec_section_heading(v@),
{
    word_enum_exec(v, "Chapter") || word_enum_exec(v, "Section") || word_enum_exec(v, "Part")
}

pub fn matches_appendix_heading(v: &Vec<char>) -> (r: bool)
    ensures
        r == spec_appendix_heading(v@),
{
    word_enum_exec(v, "Appendix")
}

// ---------------------------------------------------------------------
// Level of a numbered heading
// ---------------------------------------------------------------------

pub open spec fn count_dot_chars(s: Seq<char>) -> nat {
    count_chars(s, |c: char| c == '.')
}

/// Level derived from the numbering depth of the first word: no dot is
/// a top-level heading; one dot is top-level when the token ends with
/// the dot ("7.") and second-level otherwise ("7.2"); two dots are
/// third-level; deeper numbering is fourth-level.
pub open spec fn spec_numbered_level(line: Seq<char>) -> Level {
    let ws = words(line);
    let tok: Seq<char> = if ws.len() > 0 {
        ws[0]
    } else {
        Seq::empty()
    };
    let d = count_dot_chars(tok);
    if d == 0 {
        Level::H1
    } else if d == 1 {
        if tok.len() > 0 && tok.last() == '.' {
            Level::H1
        } else {
            Level::H2
        }
    } else if d == 2 {
        Level::H3
    } else {
        Level::H4
    }
}

fn count_dots_vec(v: &Vec<char>) -> (r: usize)
    ensures
        r == count_dot_chars(v@),
{
    let mut r: usize = 0;
    let mut i: usize = 0;
    while i < v.len()
        invariant
            i <= v@.len(),
            r == count_dot_chars(v@.take(i as int)),
            r <= i,
        decreases v@.len() - i,
    {
        proof {
            assert(v@.take(i + 1) =~= v@.take(i as int).push(v@[i as int]));
            lemma_count_chars_push(v@.take(i as int), v@[i as int], |c: char| c == '.');
        }
        if v[i] == '.' {
            r += 1;
        }
        i += 1;
    }
    proof {
        assert(v@.take(v@.len() as int) =~= v@);
    }
    r
}

pub fn determine_numbered_level_vec(line: &Vec<char>) -> (r: Level)
    ensures
        r == spec_numbered_level(line@),
{
    let ws = split_words(line);
    if ws.len() == 0 {
        proof {
            assert(count_dot_chars(Seq::<char>::empty()) == 0) by {
                reveal_with_fuel(count_chars, 1);
            }
        }
        return Level::H1;
    }
    let tok = &ws[0];
    proof {
        assert(views_of(ws@)[0] == tok@);
    }
    let d = count_dots_vec(tok);
    if d == 0 {
        Level::H1
    } else if d == 1 {
        if tok.len() > 0 && tok[tok.len() - 1] == '.' {
            Level::H1
        } else {
            Level::H2
        }
    } else if d == 2 {
        Level::H3
    } else {
        Level::H4
    }
}

/// Level of a line already known to carry a numbering pattern.
pub fn determine_numbered_level(line: &str) -> (r: Level)
    ensures
        r == spec_numbered_level(line@),
{
    let v = chars_of(line);
    determine_numbered_level_vec(&v)
}

// ---------------------------------------------------------------------
// Context heuristics
// ---------------------------------------------------------------------

/// The lines just before and after index `i` are blank or absent.
pub open spec fn spec_is_isolated(i: int, lines: Seq<Seq<char>>) -> bool {
    let blank_before = i <= 0 || i - 1 >= lines.len() || trim_seq(lines[i - 1]).len() == 0;
    let blank_after = lines.len() == 0 || i >= lines.len() - 1 || trim_seq(lines[i + 1]).len()
        == 0;
    blank_before && blank_after
}

pub fn is_line_isolated(line_index: usize, all_lines: &Vec<Vec<char>>) -> (r: bool)
    ensures
        r == spec_is_isolated(line_index as int, views_of(all_lines@)),
{
    let n = all_lines.len();
    let blank_before = if line_index == 0 {
        true
    } else if line_index - 1 >= n {
        true
    } else {
        let t = trim_vec(&all_lines[line_index - 1]);
        t.len() == 0
    };
    let blank_after = if n == 0 || line_index >= n - 1 {
        true
    } else {
        let t = trim_vec(&all_lines[line_index + 1]);
        t.len() == 0
    };
    blank_before && blank_after
}

/// The next line exists and looks like running body text: longer than
/// 20 characters once trimmed and starting with a lower-case letter.
pub open spec fn spec_has_following_content(i: int, lines: Seq<Seq<char>>) -> bool {
    &&& 0 <= i && i + 1 < lines.len()
    &&& {
        let t = trim_seq(lines[i + 1]);
        t.len() > 20 && is_lower_char(t[0])
    }
}

pub fn has_following_content(line_index: usize, all_lines: &Vec<Vec<char>>) -> (r: bool)
    ensures
        r == spec_has_following_content(line_index as int, views_of(all_lines@)),
{
    let n = all_lines.len();
    if n == 0 || line_index >= n - 1 {
        return false;
    }
    let t = trim_vec(&all_lines[line_index + 1]);
    t.len() > 20 && ch_is_lower(t[0])
}

/// A word counts as meaningful when it is longer than 3 characters and
/// is not one of the capitalized stop words.
pub open spec fn is_meaningful_word(w: Seq<char>) -> bool {
    &&& w.len() > 3
    &&& w != "The"@
    &&& w != "And"@
    &&& w != "For"@
    &&& w != "With"@
    &&& w != "From"@
    &&& w != "That"@
    &&& w != "This"@
    &&& w != "Into"@
    &&& w != "Upon"@
}

pub open spec fn count_meaningful(ws: Seq<Seq<char>>) -> nat {
    count_seqs(ws, |w: Seq<char>| is_meaningful_word(w))
}

/// At least half of the words are meaningful.
pub open spec fn spec_has_meaningful_words(ws: Seq<Seq<char>>) -> bool {
    count_meaningful(ws) >= ws.len() / 2
}

pub fn has_meaningful_words(ws: &Vec<Vec<char>>) -> (r: bool)
    ensures
        r == spec_has_meaningful_words(views_of(ws@)),
{
    let mut count: usize = 0;
    let mut i: usize = 0;
    while i < ws.len()
        invariant
            i <= ws@.len(),
            count == count_meaningful(views_of(ws@).take(i as int)),
            count <= i,
        decreases ws@.len() - i,
    {
        proof {
            assert(views_of(ws@).take(i + 1) =~= views_of(ws@).take(i as int).push(
                views_of(ws@)[i as int],
            ));
            lemma_count_seqs_push(
                views_of(ws@).take(i as int),
                views_of(ws@)[i as int],
                |w: Seq<char>| is_meaningful_word(w),
            );
        }
        let w = &ws[i];
        if w.len() > 3 && !vec_eq_str(w, "The") && !vec_eq_str(w, "And") && !vec_eq_str(w, "For")
            && !vec_eq_str(w, "With") && !vec_eq_str(w, "From") && !vec_eq_str(w, "That")
            && !vec_eq_str(w, "This") && !vec_eq_str(w, "Into") && !vec_eq_str(w, "Upon") {
            count += 1;
        }
        i += 1;
    }
    proof {
        assert(views_of(ws@).take(ws@.len() as int) =~= views_of(ws@));
    }
    count >= ws.len() / 2
}

/// A word starting with an ASCII upper-case letter.
pub open spec fn is_capitalized_word(w: Seq<char>) -> bool {
    w.len() > 0 && is_upper_char(w[0])
}

pub open spec fn count_capitalized(ws: Seq<Seq<char>>) -> nat {
    count_seqs(ws, |w: Seq<char>| is_capitalized_word(w))
}

pub fn count_capitalized_words(ws: &Vec<Vec<char>>) -> (r: usize)
    ensures
        r == count_capitalized(views_of(ws@)),
{
    let mut count: usize = 0;
    let mut i: usize = 0;
    while i < ws.len()
        invariant
            i <= ws@.len(),
            count == count_capitalized(views_of(ws@).take(i as int)),
            count <= i,
        decreases ws@.len() - i,
    {
        proof {
            assert(views_of(ws@).take(i + 1) =~= views_of(ws@).take(i as int).push(
                views_of(ws@)[i as int],
            ));
            lemma_count_seqs_push(
                views_of(ws@).take(i as int),
                views_of(ws@)[i as int],
                |w: Seq<char>| is_capitalized_word(w),
            );
        }
        let w = &ws[i];
        if w.len() > 0 && ch_is_upper(w[0]) {
            count += 1;
        }
        i += 1;
    }
    proof {
        assert(views_of(ws@).take(ws@.len() as int) =~= views_of(ws@));
    }
    count
}

// ---------------------------------------------------------------------
// Level of a title-case heading, from its keywords
// ---------------------------------------------------------------------

/// Top-level when it carries a major-section keyword; otherwise it is a
/// subsection (subsection keywords and the default agree on that rank).
pub open spec fn spec_level_by_content(t: Seq<char>) -> Level {
    let low = lower_seq(t);
    if contains_seq(low, "introduction"@) || contains_seq(low, "overview"@) || contains_seq(
        low,
        "summary"@,
    ) || contains_seq(low, "conclusion"@) || contains_seq(low, "background"@) || contains_seq(
        low,
        "methodology"@,
    ) || contains_seq(low, "results"@) || contains_seq(low, "discussion"@) || contains_seq(
        low,
        "abstract"@,
    ) || contains_seq(low, "executive summary"@) {
        Level::H1
    } else {
        Level::H2
    }
}

pub fn level_by_content_vec(t: &Vec<char>) -> (r: Level)
    ensures
        r == spec_level_by_content(t@),
{
    let low = to_lower_vec(t);
    if contains_str(&low, "introduction") || contains_str(&low, "overview") || contains_str(
        &low,
        "summary",
    ) || contains_str(&low, "conclusion") || contains_str(&low, "background") || contains_str(
        &low,
        "methodology",
    ) || contains_str(&low, "results") || contains_str(&low, "discussion") || contains_str(
        &low,
        "abstract",
    ) || contains_str(&low, "executive summary") {
        Level::H1
    } else {
        Level::H2
    }
}

pub fn determine_heading_level_by_content(line: &str) -> (r: Level)
    ensures
        r == spec_level_by_content(line@),
{
    let v = chars_of(line);
    level_by_content_vec(&v)
}

// ---------------------------------------------------------------------
// Cleaning the text of a heading
// ---------------------------------------------------------------------

/// Start of the run of digits ending just before `i`.
pub open spec fn digit_run_start(s: Seq<char>, i: int) -> int
    decreases i when 0 <= i <= s.len()
{
    if i <= 0 {
        0
    } else if is_digit_char(s[i - 1]) {
        digit_run_start(s, i - 1)
    } else {
        i
    }
}

/// Start of the run of dots ending just before `i`.
pub open spec fn dot_run_start(s: Seq<char>, i: int) -> int
    decreases i when 0 <= i <= s.len()
{
    if i <= 0 {
        0
    } else if s[i - 1] == '.' {
        dot_run_start(s, i - 1)
    } else {
        i
    }
}

/// One trailing `:` removed, with a fresh trim.
pub open spec fn strip_trailing_colon(t: Seq<char>) -> Seq<char> {
    if t.len() > 0 && t.last() == ':' {
        trim_seq(t.take(t.len() - 1))
    } else {
        t
    }
}

/// A trailing run of one to three digits, preceded by whitespace, is
/// removed together with that whitespace (a page-number suffix).
pub open spec fn strip_page_suffix(t: Seq<char>) -> Seq<char> {
    let ds = digit_run_start(t, t.len() as int);
    let d = t.len() - ds;
    if 1 <= d <= 3 && ds > 0 && is_ws_char(t[ds - 1]) {
        t.take(crate::text::last_non_ws_end(t, ds))
    } else {
        t
    }
}

/// A trailing dotted leader (three or more dots, optionally followed by
/// whitespace and digits) is removed together with the whitespace
/// before it.
pub open spec fn strip_dotted_leader(t: Seq<char>) -> Seq<char> {
    let ds = digit_run_start(t, t.len() as int);
    let w1 = crate::text::last_non_ws_end(t, ds);
    let dots = dot_run_start(t, w1);
    if w1 - dots >= 3 {
        t.take(crate::text::last_non_ws_end(t, dots))
    } else {
        t
    }
}

/// The cleaned form of a heading line: trimmed, one trailing colon
/// removed, a page-number suffix removed, a dotted leader removed, and
/// internal whitespace collapsed to single spaces.
pub open spec fn spec_clean_heading(s: Seq<char>) -> Seq<char> {
    crate::text::collapse_ws(
        strip_dotted_leader(strip_page_suffix(strip_trailing_colon(trim_seq(s)))),
    )
}

fn scan_digits_back(v: &Vec<char>, i: usize) -> (r: usize)
    requires
        i <= v@.len(),
    ensures
        r == digit_run_start(v@, i as int),
        r <= i,
{
    let mut j = i;
    while j > 0 && ch_is_digit(v[j - 1])
        invariant
            j <= i <= v@.len(),
            digit_run_start(v@, i as int) == digit_run_start(v@, j as int),
        decreases j,
    {
        j -= 1;
    }
    j
}

fn scan_dots_back(v: &Vec<char>, i: usize) -> (r: usize)
    requires
        i <= v@.len(),
    ensures
        r == dot_run_start(v@, i as int),
        r <= i,
{
    let mut j = i;
    while j > 0 && v[j - 1] == '.'
        invariant
            j <= i <= v@.len(),
            dot_run_start(v@, i as int) == dot_run_start(v@, j as int),
        decreases j,
    {
        j -= 1;
    }
    j
}

fn scan_ws_back(v: &Vec<char>, i: usize) -> (r: usize)
    requires
        i <= v@.len(),
    ensures
        r == crate::text::last_non_ws_end(v@, i as int),
        r <= i,
{
    let mut j = i;
    while j > 0 && ch_is_ws(v[j - 1])
        invariant
            j <= i <= v@.len(),
            crate::text::last_non_ws_end(v@, i as int) == crate::text::last_non_ws_end(
                v@,
                j as int,
            ),
        decreases j,
    {
        j -= 1;
    }
    j
}

pub fn clean_heading_vec(v: &Vec<char>) -> (r: Vec<char>)
    ensures
        r@ == spec_clean_heading(v@),
{
    let t0 = trim_vec(v);
    let t1 = if t0.len() > 0 && t0[t0.len() - 1] == ':' {
        let cut = crate::text::sub_vec(&t0, 0, t0.len() - 1);
        proof {
            assert(cut@ =~= t0@.take(t0@.len() - 1));
        }
        trim_vec(&cut)
    } else {
        t0
    };
    let t2 = {
        let ds = scan_digits_back(&t1, t1.len());
        let d = t1.len() - ds;
        if 1 <= d && d <= 3 && ds > 0 && ch_is_ws(t1[ds - 1]) {
            let w = scan_ws_back(&t1, ds);
            let cut = crate::text::sub_vec(&t1, 0, w);
            proof {
                assert(cut@ =~= t1@.take(crate::text::last_non_ws_end(t1@, ds as int)));
            }
            cut
        } else {
            t1
        }
    };
    let t3 = {
        let ds = scan_digits_back(&t2, t2.len());
        let w1 = scan_ws_back(&t2, ds);
        let dots = scan_dots_back(&t2, w1);
        if w1 - dots >= 3 {
            let w2 = scan_ws_back(&t2, dots);
            let cut = crate::text::sub_vec(&t2, 0, w2);
            proof {
                assert(cut@ =~= t2@.take(crate::text::last_non_ws_end(t2@, dots as int)));
            }
            cut
        } else {
            t2
        }
    };
    let ws = split_words(&t3);
    crate::text::join_words_exec(&ws)
}

/// The cleaned text that a heading line contributes to the outline.
pub fn clean_heading_text(text: &str) -> (r: String)
    ensures
        r@ == spec_clean_heading(text@),
{
    let v = chars_of(text);
    let c = clean_heading_vec(&v);
    string_from_chars(&c)
}

// ---------------------------------------------------------------------
// The structural classifier
// ---------------------------------------------------------------------

pub open spec fn opt_heading_model(o: Option<Heading>) -> Option<HeadingModel> {
    match o {
        Some(h) => Some(h@),
        None => None,
    }
}

/// The colon-terminated rule: a single trailing colon, two to ten
/// words, eight to eighty characters, and heading context.
pub open spec fn spec_colon_rule(t: Seq<char>, i: int, lines: Seq<Seq<char>>) -> bool {
    &&& ends_with_seq(t, ":"@)
    &&& !ends_with_seq(t, "::"@)
    &&& 2 <= word_count(t) <= 10
    &&& 8 <= t.len() <= 80
    &&& (spec_is_isolated(i, lines) || spec_has_following_content(i, lines))
}

/// The title-case rule: two to eight words, nearly all capitalized, ten
/// to eighty characters, isolated, and meaningful words.
pub open spec fn spec_title_case_rule(t: Seq<char>, i: int, lines: Seq<Seq<char>>) -> bool {
    let ws = words(t);
    let cap = count_capitalized(ws);
    &&& 2 <= ws.len() <= 8
    &&& cap as int >= ws.len() as int - 1
    &&& cap >= 2
    &&& 10 <= t.len() <= 80
    &&& spec_is_isolated(i, lines)
    &&& spec_has_meaningful_words(ws)
}

/// The all-caps rule: no lower-case letter, longer than five
/// characters, two to eight words, and isolated.
pub open spec fn spec_all_caps_rule(t: Seq<char>, i: int, lines: Seq<Seq<char>>) -> bool {
    &&& no_lower_seq(t)
    &&& t.len() > 5
    &&& 2 <= word_count(t) <= 8
    &&& spec_is_isolated(i, lines)
}

/// What the structural classifier decides for one line: the rules in
/// priority order, after the length gate and the exclusion filter.
pub open spec fn spec_analyze(line: Seq<char>, i: int, lines: Seq<Seq<char>>, page: int) -> Option<
    HeadingModel,
> {
    let t = trim_seq(line);
    if t.len() < 3 || t.len() > 150 {
        None
    } else if spec_is_excluded(t) {
        None
    } else if spec_numbered_heading(t) {
        Some(
            HeadingModel {
                level: spec_numbered_level(t),
                text: spec_clean_heading(t),
                page: page,
            },
        )
    } else if spec_section_heading(t) {
        Some(HeadingModel { level: Level::H1, text: spec_clean_heading(t), page: page })
    } else if spec_appendix_heading(t) {
        Some(HeadingModel { level: Level::H1, text: spec_clean_heading(t), page: page })
    } else if spec_all_caps_rule(t, i, lines) {
        Some(HeadingModel { level: Level::H1, text: spec_clean_heading(t), page: page })
    } else if spec_colon_rule(t, i, lines) {
        Some(HeadingModel { level: Level::H2, text: spec_clean_heading(t), page: page })
    } else if spec_title_case_rule(t, i, lines) {
        Some(
            HeadingModel {
                level: spec_level_by_content(t),
                text: spec_clean_heading(t),
                page: page,
            },
        )
    } else {
        None
    }
}

pub fn analyze_potential_heading_vec(
    line: &Vec<char>,
    line_index: usize,
    all_lines: &Vec<Vec<char>>,
    page: usize,
) -> (r: Option<Heading>)
    ensures
        opt_heading_model(r) == spec_analyze(
            line@,
            line_index as int,
            views_of(all_lines@),
            page as int,
        ),
{
    let t = trim_vec(line);
    if t.len() < 3 || t.len() > 150 {
        return None;
    }
    if is_excluded_vec(&t) {
        return None;
    }
    if matches_numbered_heading(&t) {
        let level = determine_numbered_level_vec(&t);
        let cleaned = clean_heading_vec(&t);
        return Some(Heading { level, text: string_from_chars(&cleaned), page });
    }
    if matches_section_heading(&t) {
        let cleaned = clean_heading_vec(&t);
        return Some(Heading { level: Level::H1, text: string_from_chars(&cleaned), page });
    }
    if matches_appendix_heading(&t) {
        let cleaned = clean_heading_vec(&t);
        return Some(Heading { level: Level::H1, text: string_from_chars(&cleaned), page });
    }
    let ws = split_words(&t);
    if has_no_lower(&t) && t.len() > 5 && 2 <= ws.len() && ws.len() <= 8 && is_line_isolated(
        line_index,
        all_lines,
    ) {
        let cleaned = clean_heading_vec(&t);
        return Some(Heading { level: Level::H1, text: string_from_chars(&cleaned), page });
    }
    if ends_with_str(&t, ":") && !ends_with_str(&t, "::") && 2 <= ws.len() && ws.len() <= 10 && 8
        <= t.len() && t.len() <= 80 && (is_line_isolated(line_index, all_lines)
        || has_following_content(line_index, all_lines)) {
        let cleaned = clean_heading_vec(&t);
        return Some(Heading { level: Level::H2, text: string_from_chars(&cleaned), page });
    }
    if 2 <= ws.len() && ws.len() <= 8 {
        let cap = count_capitalized_words(&ws);
        if cap >= ws.len() - 1 && cap >= 2 && 10 <= t.len() && t.len() <= 80 && is_line_isolated(
            line_index,
            all_lines,
        ) && has_meaningful_words(&ws) {
            let level = level_by_content_vec(&t);
            let cleaned = clean_heading_vec(&t);
            return Some(Heading { level, text: string_from_chars(&cleaned), page });
        }
    }
    None
}

pub open spec fn str_views(ls: Seq<String>) -> Seq<Seq<char>> {
    ls.map_values(|l: String| l@)
}

/// Classify one line of a page, given all of the page's lines for the
/// isolation context.
pub fn analyze_potential_heading(
    line: &str,
    line_index: usize,
    all_lines: &Vec<String>,
    page: usize,
) -> (r: Option<Heading>)
    ensures
        opt_heading_model(r) == spec_analyze(
            line@,
            line_index as int,
            str_views(all_lines@),
            page as int,
        ),
{
    let lv = chars_of(line);
    let mut lines: Vec<Vec<char>> = Vec::new();
    let mut i: usize = 0;
    while i < all_lines.len()
        invariant
            i <= all_lines@.len(),
            views_of(lines@) == str_views(all_lines@).take(i as int),
        decreases all_lines@.len() - i,
    {
        let nl = chars_of(all_lines[i].as_str());
        let ghost old_lines = lines@;
        lines.push(nl);
        i += 1;
        proof {
            assert(views_of(lines@) =~= views_of(old_lines).push(nl@));
            assert(str_views(all_lines@).take(i as int) =~= str_views(all_lines@).take(
                i - 1,
            ).push(all_lines@[i - 1]@));
        }
    }
    proof {
        assert(str_views(all_lines@).take(all_lines@.len() as int) =~= str_views(all_lines@));
    }
    analyze_potential_heading_vec(&lv, line_index, &lines, page)
}

} // verus!
