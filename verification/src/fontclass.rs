//! The font-metric path: building text runs from decoded content-stream
//! operations, deriving style from font names, and scoring runs into
//! heading candidates by visual prominence.

use vstd::prelude::*;
use crate::model::{
    CandidateModel, FontState, HeadingCandidate, Level, PdfObj, PdfOp, TextRun, TextRunModel,
    candidate_models, run_models,
};
use crate::text::{
    chars_of, contains_seq, contains_str, ends_with_seq, ends_with_str, is_digit_char,
    is_lower_char, lower_seq, split_words, str_eq, string_from_chars, to_lower_vec, trim_seq,
    trim_vec, vec_eq_vec, word_count, ch_is_lower, ch_is_digit,
};

verus! {

// ---------------------------------------------------------------------
// Style from the font name
// ---------------------------------------------------------------------

/// The font name, lower-cased, names a bold face.
pub open spec fn spec_is_bold(name: Seq<char>) -> bool {
    let low = lower_seq(name);
    ||| contains_seq(low, "bold"@)
    ||| contains_seq(low, "black"@)
    ||| contains_seq(low, "heavy"@)
    ||| contains_seq(low, "extrabold"@)
    ||| contains_seq(low, "semibold"@)
}

/// The font name, lower-cased, names an italic face.
pub open spec fn spec_is_italic(name: Seq<char>) -> bool {
    let low = lower_seq(name);
    contains_seq(low, "italic"@) || contains_seq(low, "oblique"@)
}

/// Derive (bold, italic) from a font name by substring matching.
pub fn analyze_font_style(font_name: &str) -> (r: (bool, bool))
    ensures
        r.0 == spec_is_bold(font_name@),
        r.1 == spec_is_italic(font_name@),
{
    let v = chars_of(font_name);
    let low = to_lower_vec(&v);
    let is_bold = contains_str(&low, "bold") || contains_str(&low, "black") || contains_str(
        &low,
        "heavy",
    ) || contains_str(&low, "extrabold") || contains_str(&low, "semibold");
    let is_italic = contains_str(&low, "italic") || contains_str(&low, "oblique");
    (is_bold, is_italic)
}

// ---------------------------------------------------------------------
// Level and confidence from size and style
// ---------------------------------------------------------------------

/// Rank by font size (hundredths of a point): over 15 points is
/// top-level, over 12 second, over 10 third, anything else body text.
pub open spec fn spec_classify_level(size: u32) -> Option<Level> {
    if size > 1500 {
        Some(Level::H1)
    } else if size > 1200 {
        Some(Level::H2)
    } else if size > 1000 {
        Some(Level::H3)
    } else {
        None
    }
}

/// Confidence in hundredths: the base for the size bracket, plus 15
/// when bold and 5 when italic, clamped to 100.
pub open spec fn spec_classify_confidence(size: u32, is_bold: bool, is_italic: bool) -> u32 {
    let base: u32 = if size > 1500 {
        90
    } else if size > 1200 {
        80
    } else if size > 1000 {
        60
    } else {
        10
    };
    let boosted = base + (if is_bold {
        15u32
    } else {
        0u32
    }) + (if is_italic {
        5u32
    } else {
        0u32
    });
    if boosted > 100 {
        100u32
    } else {
        boosted as u32
    }
}

/// Classify a run by font size and style. `None` stands for body text;
/// the confidence is returned in hundredths.
pub fn classify_heading(size: u32, is_bold: bool, is_italic: bool) -> (r: (Option<Level>, u32))
    ensures
        r.0 == spec_classify_level(size),
        r.1 == spec_classify_confidence(size, is_bold, is_italic),
{
    let level = if size > 1500 {
        Some(Level::H1)
    } else if size > 1200 {
        Some(Level::H2)
    } else if size > 1000 {
        Some(Level::H3)
    } else {
        None
    };
    let base: u32 = if size > 1500 {
        90
    } else if size > 1200 {
        80
    } else if size > 1000 {
        60
    } else {
        10
    };
    let mut confidence = base;
    if is_bold {
        confidence += 15;
    }
    if is_italic {
        confidence += 5;
    }
    if confidence > 100 {
        confidence = 100;
    }
    (level, confidence)
}

// ---------------------------------------------------------------------
// Heading plausibility of a run's text
// ---------------------------------------------------------------------

/// The lower-cased text contains a phrase that marks running prose.
pub open spec fn has_run_prose_indicator(low: Seq<char>) -> bool {
    ||| contains_seq(low, "it is expected"@)
    ||| contains_seq(low, "must be completed"@)
    ||| contains_seq(low, "will be issued"@)
    ||| contains_seq(low, "are expected"@)
    ||| contains_seq(low, "the planning process"@)
    ||| contains_seq(low, "specifically"@)
    ||| contains_seq(low, "during"@)
    ||| contains_seq(low, "suitable for"@)
    ||| contains_seq(low, "include"@)
    ||| contains_seq(low, "secure the full"@)
    ||| contains_seq(low, "expected that"@)
    ||| contains_seq(low, "approved by"@)
}

/// A run's text is a plausible heading: four to a hundred characters,
/// not a long sentence, at most twelve words, no prose phrase, not
/// starting lower-case, and not a long numbered list item.
pub open spec fn spec_good_candidate(text: Seq<char>) -> bool {
    let t = trim_seq(text);
    let wc = word_count(t);
    &&& 4 <= t.len() <= 100
    &&& !(ends_with_seq(t, "."@) && wc > 8)
    &&& wc <= 12
    &&& !has_run_prose_indicator(lower_seq(t))
    &&& !(t.len() > 0 && is_lower_char(t[0]))
    &&& !(t.len() > 0 && is_digit_char(t[0]) && wc > 6)
}

pub fn is_good_candidate_vec(text: &Vec<char>) -> (r: bool)
    ensures
        r == spec_good_candidate(text@),
{
    let t = trim_vec(text);
    if t.len() < 4 || t.len() > 100 {
        return false;
    }
    let ws = split_words(&t);
    let wc = ws.len();
    if ends_with_str(&t, ".") && wc > 8 {
        return false;
    }
    if wc > 12 {
        return false;
    }
    let low = to_lower_vec(&t);
    if contains_str(&low, "it is expected") || contains_str(&low, "must be completed")
        || contains_str(&low, "will be issued") || contains_str(&low, "are expected")
        || contains_str(&low, "the planning process") || contains_str(&low, "specifically")
        || contains_str(&low, "during") || contains_str(&low, "suitable for") || contains_str(
        &low,
        "include",
    ) || contains_str(&low, "secure the full") || contains_str(&low, "expected that")
        || contains_str(&low, "approved by") {
        return false;
    }
    if t.len() > 0 && ch_is_lower(t[0]) {
        return false;
    }
    if t.len() > 0 && ch_is_digit(t[0]) && wc > 6 {
        return false;
    }
    true
}

/// Additional validation of a heading candidate's text.
pub fn is_good_heading_candidate(text: &str) -> (r: bool)
    ensures
        r == spec_good_candidate(text@),
{
    let v = chars_of(text);
    is_good_candidate_vec(&v)
}

// ---------------------------------------------------------------------
// Building text runs from content-stream operations
// ---------------------------------------------------------------------

/// The character sequence that lossy UTF-8 decoding assigns to `bytes`.
pub uninterp spec fn utf8_lossy(bytes: Seq<u8>) -> Seq<char>;

/// Relies on `String::from_utf8_lossy`: the decoded text is a function
/// of the bytes alone.
#[verifier::external_body]
fn decode_utf8_lossy(bytes: &Vec<u8>) -> (r: String)
    ensures
        r@ == utf8_lossy(bytes@),
{
    String::from_utf8_lossy(bytes).into_owned()
}

/// The text that a single show-text operand contributes: string
/// operands decode lossily, everything else contributes nothing.
pub open spec fn spec_decode_text(o: &PdfObj) -> Option<Seq<char>> {
    match o {
        PdfObj::Text(b) => Some(utf8_lossy(b@)),
        _ => None,
    }
}

/// Decode one operand of a show-text operation to text.
pub fn try_decode_text(obj: &PdfObj) -> (r: Option<String>)
    ensures
        match r {
            Some(s) => spec_decode_text(obj) == Some(s@),
            None => spec_decode_text(obj) is None,
        },
{
    match obj {
        PdfObj::Text(b) => Some(decode_utf8_lossy(b)),
        _ => None,
    }
}

/// Concatenated text of the string elements of a show-array operation;
/// numeric spacing elements are ignored.
pub open spec fn spec_tj_text(items: Seq<PdfObj>) -> Seq<char>
    decreases items.len(),
{
    if items.len() == 0 {
        Seq::empty()
    } else {
        spec_tj_text(items.drop_last()) + (match items.last() {
            PdfObj::Text(b) => utf8_lossy(b@),
            _ => Seq::empty(),
        })
    }
}

/// How one operation changes the font state: a well-formed font-setting
/// operation updates name and size; everything else leaves them.
pub open spec fn spec_op_state(st: FontState, op: &PdfOp) -> FontState {
    if op.operator@ == "Tf"@ && op.operands@.len() == 2 {
        let name = match op.operands@[0] {
            PdfObj::Name(b) => utf8_lossy(b@),
            _ => st.name,
        };
        let size = match op.operands@[1] {
            PdfObj::Number(x) => x,
            _ => st.size,
        };
        FontState { name, size }
    } else {
        st
    }
}

pub open spec fn run_of(text: Seq<char>, st: FontState, page: int) -> TextRunModel {
    TextRunModel {
        text: text,
        size: st.size,
        page: page,
        font_name: st.name,
        is_bold: spec_is_bold(st.name),
        is_italic: spec_is_italic(st.name),
    }
}

/// The runs one operation emits under font state `st`: one run per
/// show-text operation whose decoded text is not blank.
pub open spec fn spec_op_runs(st: FontState, op: &PdfOp, page: int) -> Seq<TextRunModel> {
    if op.operator@ == "Tj"@ {
        if op.operands@.len() > 0 {
            match op.operands@[0] {
                PdfObj::Text(b) => {
                    let text = utf8_lossy(b@);
                    if trim_seq(text).len() > 0 {
                        seq![run_of(text, st, page)]
                    } else {
                        Seq::empty()
                    }
                },
                _ => Seq::empty(),
            }
        } else {
            Seq::empty()
        }
    } else if op.operator@ == "TJ"@ {
        if op.operands@.len() > 0 {
            match op.operands@[0] {
                PdfObj::Array(items) => {
                    let text = spec_tj_text(items@);
                    if trim_seq(text).len() > 0 {
                        seq![run_of(text, st, page)]
                    } else {
                        Seq::empty()
                    }
                },
                _ => Seq::empty(),
            }
        } else {
            Seq::empty()
        }
    } else {
        Seq::empty()
    }
}

/// Font state after the first `k` operations of a page; pages start at
/// size 12 points with an empty font name.
pub open spec fn spec_page_state(ops: Seq<PdfOp>, k: int) -> FontState
    decreases k,
{
    if k <= 0 {
        FontState { name: Seq::empty(), size: 1200 }
    } else {
        spec_op_state(spec_page_state(ops, k - 1), &ops[k - 1])
    }
}

/// Runs emitted by the first `k` operations of the page numbered `page`.
pub open spec fn spec_page_runs(ops: Seq<PdfOp>, k: int, page: int) -> Seq<TextRunModel>
    decreases k,
{
    if k <= 0 {
        Seq::empty()
    } else {
        spec_page_runs(ops, k - 1, page) + spec_op_runs(
            spec_page_state(ops, k - 1),
            &ops[k - 1],
            page,
        )
    }
}

/// Runs of the first `k` pages; page numbers are 1-based positions.
pub open spec fn spec_pages_runs(pages: Seq<Vec<PdfOp>>, k: int) -> Seq<TextRunModel>
    decreases k,
{
    if k <= 0 {
        Seq::empty()
    } else {
        spec_pages_runs(pages, k - 1) + spec_page_runs(pages[k - 1]@, pages[k - 1]@.len() as int, k)
    }
}

/// All text runs of a document given as decoded operations per page.
pub open spec fn spec_extract_runs(pages: Seq<Vec<PdfOp>>) -> Seq<TextRunModel> {
    spec_pages_runs(pages, pages.len() as int)
}

/// Build the text runs of a document: a state machine per page over
/// font-setting and show-text operations.
pub fn extract_runs(pages: &Vec<Vec<PdfOp>>) -> (r: Vec<TextRun>)
    ensures
        run_models(r@) == spec_extract_runs(pages@),
{
    proof {
        reveal_strlit("Tf");
        reveal_strlit("Tj");
        reveal_strlit("TJ");
    }
    let mut runs: Vec<TextRun> = Vec::new();
    let mut p: usize = 0;
    proof {
        assert(run_models(runs@) =~= spec_pages_runs(pages@, 0));
    }
    while p < pages.len()
        invariant
            p <= pages@.len(),
            run_models(runs@) == spec_pages_runs(pages@, p as int),
        decreases pages@.len() - p,
    {
        let ops = &pages[p];
        let page = p + 1;
        let mut font_name = String::new();
        let mut size: u32 = 1200;
        let mut k: usize = 0;
        proof {
            assert(FontState { name: font_name@, size: size } == spec_page_state(ops@, 0));
            assert(run_models(runs@) + spec_page_runs(ops@, 0, page as int) =~= run_models(
                runs@,
            ));
        }
        let ghost before = run_models(runs@);
        while k < ops.len()
            invariant
                p < pages@.len(),
                page == p + 1,
                ops == &pages@[p as int],
                k <= ops@.len(),
                before == spec_pages_runs(pages@, p as int),
                (FontState { name: font_name@, size: size }) == spec_page_state(ops@, k as int),
                run_models(runs@) == before + spec_page_runs(ops@, k as int, page as int),
            decreases ops@.len() - k,
        {
            proof {
                reveal_strlit("Tf");
                reveal_strlit("Tj");
                reveal_strlit("TJ");
                assert("Tf"@[1] == 'f' && "Tj"@[1] == 'j' && "TJ"@[1] == 'J');
                assert("Tf"@ != "Tj"@ && "Tf"@ != "TJ"@ && "Tj"@ != "TJ"@);
            }
            let op = &ops[k];
            let ghost st = FontState { name: font_name@, size: size };
            if str_eq(op.operator.as_str(), "Tf") {
                if op.operands.len() == 2 {
                    match &op.operands[0] {
                        PdfObj::Name(b) => {
                            font_name = decode_utf8_lossy(b);
                        },
                        _ => {},
                    }
                    match &op.operands[1] {
                        PdfObj::Number(x) => {
                            size = *x;
                        },
                        _ => {},
                    }
                }
            } else if str_eq(op.operator.as_str(), "Tj") {
                if op.operands.len() > 0 {
                    match &op.operands[0] {
                        PdfObj::Text(b) => {
                            let text = decode_utf8_lossy(b);
                            let tv = chars_of(text.as_str());
                            let trimmed = trim_vec(&tv);
                            if trimmed.len() > 0 {
                                let style = analyze_font_style(font_name.as_str());
                                let ghost old_runs = runs@;
                                runs.push(
                                    TextRun {
                                        text,
                                        size,
                                        page,
                                        font_name: font_name.clone(),
                                        is_bold: style.0,
                                        is_italic: style.1,
                                    },
                                );
                                proof {
                                    assert(runs@[runs@.len() - 1]@ == run_of(
                                        utf8_lossy(b@),
                                        st,
                                        page as int,
                                    ));
                                    assert(run_models(runs@) =~= run_models(old_runs).push(
                                        runs@[runs@.len() - 1]@,
                                    ));
                                    assert(run_models(runs@) =~= before + (spec_page_runs(
                                        ops@,
                                        k as int,
                                        page as int,
                                    ) + spec_op_runs(st, &ops@[k as int], page as int)));
                                }
                            }
                        },
                        _ => {},
                    }
                }
            } else if str_eq(op.operator.as_str(), "TJ") {
                if op.operands.len() > 0 {
                    match &op.operands[0] {
                        PdfObj::Array(items) => {
                            let mut combined = String::new();
                            let mut j: usize = 0;
                            proof {
                                assert(combined@ =~= spec_tj_text(items@.take(0)));
                            }
                            while j < items.len()
                                invariant
                                    j <= items@.len(),
                                    combined@ == spec_tj_text(items@.take(j as int)),
                                decreases items@.len() - j,
                            {
                                proof {
                                    assert(items@.take(j + 1).drop_last() =~= items@.take(
                                        j as int,
                                    ));
                                    assert(items@.take(j + 1).last() == items@[j as int]);
                                }
                                match &items[j] {
                                    PdfObj::Text(b) => {
                                        let piece = decode_utf8_lossy(b);
                                        combined.append(piece.as_str());
                                    },
                                    _ => {},
                                }
                                j += 1;
                            }
                            proof {
                                assert(items@.take(items@.len() as int) =~= items@);
                            }
                            let tv = chars_of(combined.as_str());
                            let trimmed = trim_vec(&tv);
                            if trimmed.len() > 0 {
                                let style = analyze_font_style(font_name.as_str());
                                let ghost old_runs = runs@;
                                let ghost tj_text = combined@;
                                runs.push(
                                    TextRun {
                                        text: combined,
                                        size,
                                        page,
                                        font_name: font_name.clone(),
                                        is_bold: style.0,
                                        is_italic: style.1,
                                    },
                                );
                                proof {
                                    assert(runs@[runs@.len() - 1]@ == run_of(
                                        tj_text,
                                        st,
                                        page as int,
                                    ));
                                    assert(run_models(runs@) =~= run_models(old_runs).push(
                                        runs@[runs@.len() - 1]@,
                                    ));
                                    assert(run_models(runs@) =~= before + (spec_page_runs(
                                        ops@,
                                        k as int,
                                        page as int,
                                    ) + spec_op_runs(st, &ops@[k as int], page as int)));
                                }
                            }
                        },
                        _ => {},
                    }
                }
            }
            proof {
                assert(run_models(runs@) =~= (before + spec_page_runs(ops@, k as int, page as int))
                    + spec_op_runs(st, &ops@[k as int], page as int));
            }
            k += 1;
            proof {
                assert(spec_page_runs(ops@, k as int, page as int) == spec_page_runs(
                    ops@,
                    k - 1,
                    page as int,
                ) + spec_op_runs(st, &ops@[k - 1], page as int));
                assert(run_models(runs@) =~= before + spec_page_runs(ops@, k as int, page as int));
            }
        }
        proof {
            assert(run_models(runs@) =~= spec_pages_runs(pages@, p + 1));
        }
        p += 1;
    }
    runs
}

// ---------------------------------------------------------------------
// Grouping runs into heading candidates
// ---------------------------------------------------------------------

/// A run carries the key (page, trimmed text) and is long enough to be
/// scored.
pub open spec fn run_key_match(r: TextRunModel, page: int, t: Seq<char>) -> bool {
    &&& 3 < trim_seq(r.text).len() <= 150
    &&& r.page == page
    &&& trim_seq(r.text) == t
}

/// Some eligible run among the first `k` already carries this key.
pub open spec fn key_seen(runs: Seq<TextRunModel>, k: int, page: int, t: Seq<char>) -> bool {
    exists|j: int| 0 <= j < k && run_key_match(runs[j], page, t)
}

/// Index of the last run carrying the key, looking below `k` (-1 when
/// there is none). The style of that run is the one scored.
pub open spec fn last_key_match(runs: Seq<TextRunModel>, k: int, page: int, t: Seq<char>) -> int
    decreases k,
{
    if k <= 0 {
        -1
    } else if run_key_match(runs[k - 1], page, t) {
        k - 1
    } else {
        last_key_match(runs, k - 1, page, t)
    }
}

/// The candidate that one key yields, if any: the last matching run's
/// size and style are scored; the candidate is kept when its confidence
/// is above one half and its text is heading-plausible.
pub open spec fn spec_key_candidate(runs: Seq<TextRunModel>, page: int, t: Seq<char>) -> Seq<
    CandidateModel,
> {
    let j = last_key_match(runs, runs.len() as int, page, t);
    if j < 0 {
        Seq::empty()
    } else {
        let r = runs[j];
        let conf = spec_classify_confidence(r.size, r.is_bold, r.is_italic);
        if conf > 50 && spec_good_candidate(t) {
            match spec_classify_level(r.size) {
                Some(level) => seq![
                    CandidateModel { text: t, level: level, page: page, confidence: conf },
                ],
                None => Seq::empty(),
            }
        } else {
            Seq::empty()
        }
    }
}

/// The candidates of the first `k` runs, one per distinct key, in order
/// of each key's first appearance.
pub open spec fn spec_candidates(runs: Seq<TextRunModel>, k: int) -> Seq<CandidateModel>
    decreases k,
{
    if k <= 0 {
        Seq::empty()
    } else {
        let prev = spec_candidates(runs, k - 1);
        let r = runs[k - 1];
        let t = trim_seq(r.text);
        if 3 < t.len() <= 150 && !key_seen(runs, k - 1, r.page, t) {
            prev + spec_key_candidate(runs, r.page, t)
        } else {
            prev
        }
    }
}

/// Whether run `j` of `runs` is eligible and carries the key.
fn run_matches(runs: &Vec<TextRun>, j: usize, page: usize, t: &Vec<char>) -> (r: bool)
    requires
        j < runs@.len(),
    ensures
        r == run_key_match(run_models(runs@)[j as int], page as int, t@),
{
    let rj = &runs[j];
    let tj = chars_of(rj.text.as_str());
    let trj = trim_vec(&tj);
    3 < trj.len() && trj.len() <= 150 && rj.page == page && vec_eq_vec(&trj, t)
}

/// Group eligible runs by (page, trimmed text) and score each group
/// once, using the last run of the group for size and style.
pub fn extract_heading_candidates(runs: &Vec<TextRun>) -> (r: Vec<HeadingCandidate>)
    ensures
        candidate_models(r@) == spec_candidates(run_models(runs@), runs@.len() as int),
{
    let n = runs.len();
    let mut cands: Vec<HeadingCandidate> = Vec::new();
    let mut k: usize = 0;
    proof {
        assert(candidate_models(cands@) =~= spec_candidates(run_models(runs@), 0));
    }
    while k < n
        invariant
            n == runs@.len(),
            k <= n,
            candidate_models(cands@) == spec_candidates(run_models(runs@), k as int),
        decreases n - k,
    {
        let rk = &runs[k];
        let tk = chars_of(rk.text.as_str());
        let t = trim_vec(&tk);
        let page = rk.page;
        if 3 < t.len() && t.len() <= 150 {
            let mut seen = false;
            let mut j: usize = 0;
            while j < k
                invariant
                    n == runs@.len(),
                    k < n,
                    j <= k,
                    seen == exists|x: int|
                        0 <= x < j && run_key_match(run_models(runs@)[x], page as int, t@),
                decreases k - j,
            {
                if run_matches(runs, j, page, &t) {
                    seen = true;
                }
                j += 1;
            }
            if !seen {
                // find the last run with this key; run k itself matches it
                proof {
                    assert(run_key_match(run_models(runs@)[k as int], page as int, t@));
                }
                let mut j_last: usize = k;
                let mut x: usize = k + 1;
                while x < n
                    invariant
                        n == runs@.len(),
                        k < x <= n,
                        k <= j_last < x,
                        j_last as int == last_key_match(run_models(runs@), x as int, page as int, t@),
                    decreases n - x,
                {
                    if run_matches(runs, x, page, &t) {
                        j_last = x;
                    }
                    x += 1;
                }
                let rl = &runs[j_last];
                let (level_opt, conf) = classify_heading(rl.size, rl.is_bold, rl.is_italic);
                if conf > 50 {
                    match level_opt {
                        Some(level) => {
                            if is_good_candidate_vec(&t) {
                                let ghost old_cands = cands@;
                                cands.push(
                                    HeadingCandidate {
                                        text: string_from_chars(&t),
                                        level,
                                        page,
                                        confidence: conf,
                                    },
                                );
                                proof {
                                    assert(candidate_models(cands@) =~= candidate_models(
                                        old_cands,
                                    ).push(cands@[cands@.len() - 1]@));
                                    assert(candidate_models(cands@) =~= spec_candidates(
                                        run_models(runs@),
                                        k as int,
                                    ) + spec_key_candidate(run_models(runs@), page as int, t@));
                                }
                            }
                        },
                        None => {},
                    }
                }
            }
        }
        k += 1;
        proof {
            assert(candidate_models(cands@) =~= spec_candidates(run_models(runs@), k as int));
        }
    }
    cands
}

} // verus!
