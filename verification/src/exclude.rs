//! The exclusion filter: lines that are structurally incapable of being
//! a heading.

use vstd::prelude::*;
use crate::text::{
    chars_of, contains_seq, contains_str, count_digit_chars, count_digits_vec,
    count_nonalpha_chars, count_nonalpha_vec, ends_with_seq, ends_with_str, is_lower_char,
    lower_seq, starts_with_seq, starts_with_str, to_lower_vec, trim_seq, trim_vec,
};

verus! {

/// The line, lower-cased, contains a URL, e-mail or copyright marker or
/// one of the front/back-matter markers.
pub open spec fn has_generic_exclusion(low: Seq<char>) -> bool {
    ||| contains_seq(low, "www."@)
    ||| contains_seq(low, "http"@)
    ||| contains_seq(low, "@"@)
    ||| contains_seq(low, "\u{a9}"@)
    ||| contains_seq(low, "copyright"@)
    ||| contains_seq(low, "table of contents"@)
    ||| contains_seq(low, "index"@)
    ||| contains_seq(low, "references"@)
    ||| contains_seq(low, "bibliography"@)
    ||| contains_seq(low, "acknowledgments"@)
    ||| contains_seq(low, "acknowledgements"@)
    ||| contains_seq(low, "preface"@)
    ||| contains_seq(low, "foreword"@)
}

/// The line, lower-cased, contains a prose-continuation phrase.
pub open spec fn has_prose_phrase(low: Seq<char>) -> bool {
    ||| contains_seq(low, "the following"@)
    ||| contains_seq(low, "as mentioned"@)
    ||| contains_seq(low, "according to"@)
    ||| contains_seq(low, "it should be noted"@)
    ||| contains_seq(low, "please refer"@)
    ||| contains_seq(low, "see section"@)
    ||| contains_seq(low, "as shown in"@)
    ||| contains_seq(low, "this chapter"@)
    ||| contains_seq(low, "in this document"@)
    ||| contains_seq(low, "the purpose of"@)
    ||| contains_seq(low, "it is important"@)
}

/// The line ends with a dangling comma, conjunction or preposition.
pub open spec fn has_dangling_end(line: Seq<char>) -> bool {
    ||| ends_with_seq(line, ","@)
    ||| ends_with_seq(line, "and"@)
    ||| ends_with_seq(line, "or"@)
    ||| ends_with_seq(line, "the"@)
    ||| ends_with_seq(line, "of"@)
    ||| ends_with_seq(line, "in"@)
    ||| ends_with_seq(line, "to"@)
    ||| ends_with_seq(line, "for"@)
    ||| ends_with_seq(line, "with"@)
}

/// A line is excluded when any of the structural reasons below holds:
/// a generic marker; more than 7/10 of its characters are non-letters;
/// it is shorter than 3 characters once trimmed; it looks like a page
/// footer; it is a monetary amount; it contains a prose phrase; it ends
/// dangling; or it starts with a lower-case letter.
pub open spec fn spec_is_excluded(line: Seq<char>) -> bool {
    let low = lower_seq(line);
    let n = line.len();
    ||| has_generic_exclusion(low)
    ||| (n > 0 && 10 * count_nonalpha_chars(line) > 7 * n)
    ||| trim_seq(line).len() < 3
    ||| (trim_seq(line).len() < 20 && (starts_with_seq(low, "page "@) || contains_seq(
        low,
        "chapter "@,
    ) || count_digit_chars(line) > n / 3))
    ||| ((contains_seq(line, "$"@) || contains_seq(line, "\u{20ac}"@) || contains_seq(
        line,
        "\u{a3}"@,
    )) && count_digit_chars(line) > 2)
    ||| has_prose_phrase(low)
    ||| has_dangling_end(line)
    ||| (n > 0 && is_lower_char(line[0]) && line[0] != '(' && line[0] != '[')
}

/// Exclusion filter on a line already held as characters.
pub fn is_excluded_vec(line: &Vec<char>) -> (r: bool)
    ensures
        r == spec_is_excluded(line@),
{
    let low = to_lower_vec(line);
    if contains_str(&low, "www.") || contains_str(&low, "http") || contains_str(&low, "@")
        || contains_str(&low, "\u{a9}") || contains_str(&low, "copyright") || contains_str(
        &low,
        "table of contents",
    ) || contains_str(&low, "index") || contains_str(&low, "references") || contains_str(
        &low,
        "bibliography",
    ) || contains_str(&low, "acknowledgments") || contains_str(&low, "acknowledgements")
        || contains_str(&low, "preface") || contains_str(&low, "foreword") {
        return true;
    }
    let n = line.len();
    let nonalpha = count_nonalpha_vec(line);
    if n > 0 && (nonalpha as u128) * 10 > (n as u128) * 7 {
        return true;
    }
    let trimmed = trim_vec(line);
    if trimmed.len() < 3 {
        return true;
    }
    let digits = count_digits_vec(line);
    if trimmed.len() < 20 && (starts_with_str(&low, "page ") || contains_str(&low, "chapter ")
        || digits > n / 3) {
        return true;
    }
    if (contains_str(line, "$") || contains_str(line, "\u{20ac}") || contains_str(line, "\u{a3}"))
        && digits > 2 {
        return true;
    }
    if contains_str(&low, "the following") || contains_str(&low, "as mentioned") || contains_str(
        &low,
        "according to",
    ) || contains_str(&low, "it should be noted") || contains_str(&low, "please refer")
        || contains_str(&low, "see section") || contains_str(&low, "as shown in") || contains_str(
        &low,
        "this chapter",
    ) || contains_str(&low, "in this document") || contains_str(&low, "the purpose of")
        || contains_str(&low, "it is important") {
        return true;
    }
    if ends_with_str(line, ",") || ends_with_str(line, "and") || ends_with_str(line, "or")
        || ends_with_str(line, "the") || ends_with_str(line, "of") || ends_with_str(line, "in")
        || ends_with_str(line, "to") || ends_with_str(line, "for") || ends_with_str(line, "with") {
        return true;
    }
    if line.len() > 0 {
        let c = line[0];
        if 'a' <= c && c <= 'z' && c != '(' && c != '[' {
            return true;
        }
    }
    false
}

/// Exclusion filter for lines that can never be headings.
pub fn is_excluded_text(line: &str) -> (r: bool)
    ensures
        r == spec_is_excluded(line@),
{
    let v = chars_of(line);
    is_excluded_vec(&v)
}

} // verus!
