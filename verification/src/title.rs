//! The title selector: scores the first lines of a document and picks
//! the most title-like one.

use vstd::prelude::*;
use crate::heading::{count_capitalized, count_capitalized_words, str_views};
use crate::text::{
    chars_of, contains_seq, contains_str, ends_with_seq, ends_with_str, is_upper_char, lower_seq,
    no_lower_seq, split_words, starts_with_seq, starts_with_str, string_from_chars, to_lower_vec,
    trim_seq, trim_vec, views_of, word_count, words, ch_is_upper, has_no_lower,
};

verus! {

/// Lines never considered as titles: too short or too long, footers,
/// URLs, e-mail addresses, copyright lines, the table of contents.
pub open spec fn spec_title_skipped(t: Seq<char>) -> bool {
    ||| t.len() < 5
    ||| t.len() > 200
    ||| starts_with_seq(t, "Page "@)
    ||| contains_seq(t, "http"@)
    ||| contains_seq(t, "www."@)
    ||| contains_seq(t, "@"@)
    ||| contains_seq(t, "\u{a9}"@)
    ||| contains_seq(lower_seq(t), "table of contents"@)
}

/// Ten points for each of the first ten title keywords the lower-cased
/// line contains.
pub open spec fn keyword_bonus_a(low: Seq<char>) -> int {
    (if contains_seq(low, "foundation"@) { 10int } else { 0int })
    + (if contains_seq(low, "guide"@) { 10int } else { 0int })
    + (if contains_seq(low, "manual"@) { 10int } else { 0int })
    + (if contains_seq(low, "handbook"@) { 10int } else { 0int })
    + (if contains_seq(low, "report"@) { 10int } else { 0int })
    + (if contains_seq(low, "study"@) { 10int } else { 0int })
    + (if contains_seq(low, "analysis"@) { 10int } else { 0int })
    + (if contains_seq(low, "overview"@) { 10int } else { 0int })
    + (if contains_seq(low, "introduction"@) { 10int } else { 0int })
    + (if contains_seq(low, "specification"@) { 10int } else { 0int })
}

/// Ten points for each of the last ten title keywords the lower-cased
/// line contains.
pub open spec fn keyword_bonus_b(low: Seq<char>) -> int {
    (if contains_seq(low, "standard"@) { 10int } else { 0int })
    + (if contains_seq(low, "requirements"@) { 10int } else { 0int })
    + (if contains_seq(low, "proposal"@) { 10int } else { 0int })
    + (if contains_seq(low, "plan"@) { 10int } else { 0int })
    + (if contains_seq(low, "strategy"@) { 10int } else { 0int })
    + (if contains_seq(low, "framework"@) { 10int } else { 0int })
    + (if contains_seq(low, "methodology"@) { 10int } else { 0int })
    + (if contains_seq(low, "principles"@) { 10int } else { 0int })
    + (if contains_seq(low, "best practices"@) { 10int } else { 0int })
    + (if contains_seq(low, "guidelines"@) { 10int } else { 0int })
}

/// Ten points for each title keyword the lower-cased line contains.
pub open spec fn title_keyword_bonus(low: Seq<char>) -> int {
    keyword_bonus_a(low) + keyword_bonus_b(low)
}

/// The lower-cased line reads like prose rather than a title.
pub open spec fn has_content_indicator(low: Seq<char>) -> bool {
    ||| contains_seq(low, "the following"@)
    ||| contains_seq(low, "this document"@)
    ||| contains_seq(low, "as described"@)
    ||| contains_seq(low, "according to"@)
    ||| contains_seq(low, "it is"@)
    ||| contains_seq(low, "there are"@)
    ||| contains_seq(low, "you will"@)
    ||| contains_seq(low, "we recommend"@)
    ||| contains_seq(low, "please note"@)
}

/// The title score of the trimmed line `t` standing at index `i`:
/// earlier lines, title-sized lines, capitalized lines and title
/// keywords raise it; prose indicators and long sentences lower it.
pub open spec fn spec_title_score(t: Seq<char>, i: int) -> int {
    let wc = word_count(t);
    let cap = count_capitalized(words(t));
    (20 - i) / 2 + (if 20 <= t.len() <= 100 {
        15int
    } else {
        0int
    }) + (if cap > wc / 2 && wc >= 2 {
        20int
    } else {
        0int
    }) + (if no_lower_seq(t) && t.len() <= 80 {
        10int
    } else {
        0int
    }) + title_keyword_bonus(lower_seq(t)) - (if has_content_indicator(lower_seq(t)) {
        20int
    } else {
        0int
    }) - (if ends_with_seq(t, "."@) && wc > 8 {
        10int
    } else {
        0int
    })
}

fn keyword_bonus_a_exec(low: &Vec<char>) -> (b: i32)
    ensures
        b as int == keyword_bonus_a(low@),
        0 <= b <= 100,
{
    let mut b: i32 = 0;
    if contains_str(low, "foundation") {
        b += 10;
    }
    if contains_str(low, "guide") {
        b += 10;
    }
    if contains_str(low, "manual") {
        b += 10;
    }
    if contains_str(low, "handbook") {
        b += 10;
    }
    if contains_str(low, "report") {
        b += 10;
    }
    if contains_str(low, "study") {
        b += 10;
    }
    if contains_str(low, "analysis") {
        b += 10;
    }
    if contains_str(low, "overview") {
        b += 10;
    }
    if contains_str(low, "introduction") {
        b += 10;
    }
    if contains_str(low, "specification") {
        b += 10;
    }
    b
}

fn keyword_bonus_b_exec(low: &Vec<char>) -> (b: i32)
    ensures
        b as int == keyword_bonus_b(low@),
        0 <= b <= 100,
{
    let mut b: i32 = 0;
    if contains_str(low, "standard") {
        b += 10;
    }
    if contains_str(low, "requirements") {
        b += 10;
    }
    if contains_str(low, "proposal") {
        b += 10;
    }
    if contains_str(low, "plan") {
        b += 10;
    }
    if contains_str(low, "strategy") {
        b += 10;
    }
    if contains_str(low, "framework") {
        b += 10;
    }
    if contains_str(low, "methodology") {
        b += 10;
    }
    if contains_str(low, "principles") {
        b += 10;
    }
    if contains_str(low, "best practices") {
        b += 10;
    }
    if contains_str(low, "guidelines") {
        b += 10;
    }
    b
}

#[verifier::rlimit(50)]
fn compute_title_score(t: &Vec<char>, i: usize) -> (s: i32)
    requires
        i < 20,
    ensures
        s as int == spec_title_score(t@, i as int),
{
    let low = to_lower_vec(t);
    let ws = split_words(t);
    let wc = ws.len();
    let cap = count_capitalized_words(&ws);
    let pos: usize = (20 - i) / 2;
    let mut score: i32 = pos as i32;
    if 20 <= t.len() && t.len() <= 100 {
        score += 15;
    }
    if cap > wc / 2 && wc >= 2 {
        score += 20;
    }
    if has_no_lower(t) && t.len() <= 80 {
        score += 10;
    }
    let kb = keyword_bonus_a_exec(&low) + keyword_bonus_b_exec(&low);
    score += kb;
    if contains_str(&low, "the following") || contains_str(&low, "this document") || contains_str(
        &low,
        "as described",
    ) || contains_str(&low, "according to") || contains_str(&low, "it is") || contains_str(
        &low,
        "there are",
    ) || contains_str(&low, "you will") || contains_str(&low, "we recommend") || contains_str(
        &low,
        "please note",
    ) {
        score -= 20;
    }
    if ends_with_str(t, ".") && wc > 8 {
        score -= 10;
    }
    score
}

/// The best candidate among the first `k` lines: the trimmed line with
/// the highest positive score, the earliest kept on ties.
pub open spec fn spec_best(lines: Seq<Seq<char>>, k: int) -> Option<(Seq<char>, int)>
    decreases k,
{
    if k <= 0 || k > lines.len() {
        None
    } else {
        let prev = spec_best(lines, k - 1);
        let t = trim_seq(lines[k - 1]);
        if spec_title_skipped(t) || spec_title_score(t, k - 1) <= 0 {
            prev
        } else {
            match prev {
                None => Some((t, spec_title_score(t, k - 1))),
                Some((bt, bs)) => if spec_title_score(t, k - 1) > bs {
                    Some((t, spec_title_score(t, k - 1)))
                } else {
                    prev
                },
            }
        }
    }
}

/// First fallback line at or after index `i` (within the first 15):
/// substantial, capitalized and not footer-like.
pub open spec fn spec_title_fallback(lines: Seq<Seq<char>>, i: int) -> Option<Seq<char>>
    decreases 15 - i when 0 <= i <= 15
{
    let limit: int = if lines.len() < 15 {
        lines.len() as int
    } else {
        15
    };
    if i >= limit {
        None
    } else {
        let t = trim_seq(lines[i]);
        if t.len() > 10 && t.len() < 150 && !starts_with_seq(t, "Page "@) && !contains_seq(
            t,
            "http"@,
        ) && is_upper_char(t[0]) {
            Some(t)
        } else {
            spec_title_fallback(lines, i + 1)
        }
    }
}

/// What the title selector returns for the lines of the first page:
/// the best-scoring candidate, else the fallback line, else nothing.
pub open spec fn spec_select_title(lines: Seq<Seq<char>>) -> Option<Seq<char>> {
    let lim: int = if lines.len() < 20 {
        lines.len() as int
    } else {
        20
    };
    match spec_best(lines, lim) {
        Some((t, s)) => Some(t),
        None => spec_title_fallback(lines, 0),
    }
}

pub fn select_title_vec(lines: &Vec<Vec<char>>) -> (r: Option<Vec<char>>)
    ensures
        match r {
            Some(t) => spec_select_title(views_of(lines@)) == Some(t@),
            None => spec_select_title(views_of(lines@)) is None,
        },
{
    let lim: usize = if lines.len() < 20 {
        lines.len()
    } else {
        20
    };
    let mut best: Option<(Vec<char>, i32)> = None;
    let mut i: usize = 0;
    while i < lim
        invariant
            lim == (if lines@.len() < 20 {
                lines@.len() as int
            } else {
                20
            }),
            i <= lim,
            match best {
                Some((bv, bs)) => spec_best(views_of(lines@), i as int) == Some(
                    (bv@, bs as int),
                ),
                None => spec_best(views_of(lines@), i as int) is None,
            },
        decreases lim - i,
    {
        let t = trim_vec(&lines[i]);
        proof {
            assert(views_of(lines@)[i as int] == lines@[i as int]@);
        }
        let skipped = t.len() < 5 || t.len() > 200 || starts_with_str(&t, "Page ") || contains_str(
            &t,
            "http",
        ) || contains_str(&t, "www.") || contains_str(&t, "@") || contains_str(&t, "\u{a9}") || {
            let low = to_lower_vec(&t);
            contains_str(&low, "table of contents")
        };
        if !skipped {
            let score = compute_title_score(&t, i);
            if score > 0 {
                let replace = match &best {
                    None => true,
                    Some((_bv, bs)) => score > *bs,
                };
                if replace {
                    best = Some((t, score));
                }
            }
        }
        i += 1;
    }
    match best {
        Some((bv, _bs)) => Some(bv),
        None => {
            let limit: usize = if lines.len() < 15 {
                lines.len()
            } else {
                15
            };
            let mut j: usize = 0;
            while j < limit
                invariant
                    limit == (if lines@.len() < 15 {
                        lines@.len() as int
                    } else {
                        15
                    }),
                    j <= limit,
                    spec_select_title(views_of(lines@)) == spec_title_fallback(
                        views_of(lines@),
                        0,
                    ),
                    spec_title_fallback(views_of(lines@), 0) == spec_title_fallback(
                        views_of(lines@),
                        j as int,
                    ),
                decreases limit - j,
            {
                let t = trim_vec(&lines[j]);
                proof {
                    assert(views_of(lines@)[j as int] == lines@[j as int]@);
                }
                if t.len() > 10 && t.len() < 150 && !starts_with_str(&t, "Page ")
                    && !contains_str(&t, "http") && ch_is_upper(t[0]) {
                    proof {
                        assert(spec_title_fallback(views_of(lines@), j as int) == Some(t@));
                    }
                    return Some(t);
                }
                j += 1;
            }
            None
        },
    }
}

/// Pick a document title from the first lines of the document. Returns
/// nothing when no line qualifies; the caller then falls back to the
/// file name or a placeholder.
pub fn extract_document_title(lines: &Vec<String>, _first_page_text: &str) -> (r: Option<String>)
    ensures
        match r {
            Some(t) => spec_select_title(str_views(lines@)) == Some(t@),
            None => spec_select_title(str_views(lines@)) is None,
        },
{
    let mut lv: Vec<Vec<char>> = Vec::new();
    let mut i: usize = 0;
    while i < lines.len()
        invariant
            i <= lines@.len(),
            views_of(lv@) == str_views(lines@).take(i as int),
        decreases lines@.len() - i,
    {
        let nl = chars_of(lines[i].as_str());
        let ghost old_lv = lv@;
        lv.push(nl);
        i += 1;
        proof {
            assert(views_of(lv@) =~= views_of(old_lv).push(nl@));
            assert(str_views(lines@).take(i as int) =~= str_views(lines@).take(i - 1).push(
                lines@[i - 1]@,
            ));
        }
    }
    proof {
        assert(str_views(lines@).take(lines@.len() as int) =~= str_views(lines@));
    }
    match select_title_vec(&lv) {
        Some(t) => Some(string_from_chars(&t)),
        None => None,
    }
}

} // verus!
