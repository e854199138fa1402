//! The pipeline orchestrator: page splitting, the plain-text pipeline,
//! and the font-metric fallback pipeline.

use vstd::prelude::*;
use crate::model::{
    CandidateModel, Heading, HeadingCandidate, HeadingModel, Outline, OutlineModel, TextRun,
    candidate_models, heading_models, run_models,
};
use crate::heading::{analyze_potential_heading_vec, spec_analyze};
use crate::hierarchy::{establish_hierarchy, spec_establish};
use crate::title::{select_title_vec, spec_select_title};
use crate::text::{
    chars_of, contains_seq, contains_str, split_by, split_by_str, str_eq, string_from_chars,
    trim_seq, trim_vec, vec_eq_vec, views_of,
};
use vstd::string::StringExecFns;

verus! {

// ---------------------------------------------------------------------
// Splitting a document's text into pages and a page into lines
// ---------------------------------------------------------------------

/// The pages of the document text: form-feed separated when a form feed
/// occurs, otherwise separated by blank-line gaps (three newlines).
pub open spec fn spec_pages(text: Seq<char>) -> Seq<Seq<char>> {
    if contains_seq(text, seq!['\u{c}']) {
        split_by(text, seq!['\u{c}'])
    } else {
        split_by(text, "\n\n\n"@)
    }
}

pub proof fn lemma_split_by_at_least_one(s: Seq<char>, p: Seq<char>)
    requires
        p.len() >= 1,
    ensures
        split_by(s, p).len() >= 1,
{
}

/// The trimmed, non-empty entries of a line list.
pub open spec fn trim_nonempty(ls: Seq<Seq<char>>) -> Seq<Seq<char>>
    decreases ls.len(),
{
    if ls.len() == 0 {
        Seq::empty()
    } else {
        trim_nonempty(ls.drop_last()) + (if trim_seq(ls.last()).len() > 0 {
            seq![trim_seq(ls.last())]
        } else {
            Seq::empty()
        })
    }
}

/// The trimmed, non-empty lines of one page's text.
pub open spec fn page_lines(page: Seq<char>) -> Seq<Seq<char>> {
    trim_nonempty(split_by(page, "\n"@))
}

pub fn page_lines_exec(page: &Vec<char>) -> (r: Vec<Vec<char>>)
    ensures
        views_of(r@) == page_lines(page@),
{
    proof {
        reveal_strlit("\n");
    }
    let raw = split_by_str(page, "\n");
    let mut r: Vec<Vec<char>> = Vec::new();
    let mut i: usize = 0;
    proof {
        assert(views_of(r@) =~= trim_nonempty(views_of(raw@).take(0)));
    }
    while i < raw.len()
        invariant
            i <= raw@.len(),
            views_of(raw@) == split_by(page@, "\n"@),
            views_of(r@) == trim_nonempty(views_of(raw@).take(i as int)),
        decreases raw@.len() - i,
    {
        proof {
            assert(views_of(raw@).take(i + 1).drop_last() =~= views_of(raw@).take(i as int));
            assert(views_of(raw@).take(i + 1).last() == views_of(raw@)[i as int]);
        }
        let t = trim_vec(&raw[i]);
        if t.len() > 0 {
            let ghost old_r = views_of(r@);
            r.push(t);
            proof {
                assert(views_of(r@) =~= old_r + seq![trim_seq(views_of(raw@)[i as int])]);
            }
        } else {
            proof {
                assert(views_of(r@) =~= views_of(r@) + Seq::<Seq<char>>::empty());
            }
        }
        i += 1;
    }
    proof {
        assert(views_of(raw@).take(raw@.len() as int) =~= views_of(raw@));
    }
    r
}

// ---------------------------------------------------------------------
// Collecting headings from the pages
// ---------------------------------------------------------------------

/// An exact (text, page) duplicate is already collected.
pub open spec fn contains_heading(hs: Seq<HeadingModel>, h: HeadingModel) -> bool {
    exists|j: int| 0 <= j < hs.len() && #[trigger] hs[j].text == h.text && hs[j].page == h.page
}

/// The chosen title equals this text (when a title was chosen).
pub open spec fn title_is(title: Option<Seq<char>>, text: Seq<char>) -> bool {
    match title {
        Some(t) => t == text,
        None => false,
    }
}

/// Headings collected from the first `k` lines of one page, appended to
/// `acc`: classified lines, skipping exact duplicates and the line
/// whose cleaned text equals the chosen title.
pub open spec fn collect_lines(
    lines: Seq<Seq<char>>,
    page: int,
    k: int,
    title: Option<Seq<char>>,
    acc: Seq<HeadingModel>,
) -> Seq<HeadingModel>
    decreases k,
{
    if k <= 0 {
        acc
    } else {
        let acc1 = collect_lines(lines, page, k - 1, title, acc);
        match spec_analyze(lines[k - 1], k - 1, lines, page) {
            Some(h) => if contains_heading(acc1, h) || title_is(title, h.text) {
                acc1
            } else {
                acc1.push(h)
            },
            None => acc1,
        }
    }
}

/// Headings collected from the first `k` pages.
pub open spec fn collect_pages(
    pages: Seq<Seq<char>>,
    k: int,
    title: Option<Seq<char>>,
) -> Seq<HeadingModel>
    decreases k,
{
    if k <= 0 {
        Seq::empty()
    } else {
        collect_lines(
            page_lines(pages[k - 1]),
            k,
            page_lines(pages[k - 1]).len() as int,
            title,
            collect_pages(pages, k - 1, title),
        )
    }
}

/// The final title: the selected one, else the document's file stem,
/// else a fixed placeholder.
pub open spec fn spec_title_string(sel: Option<Seq<char>>, stem: Option<Seq<char>>) -> Seq<char> {
    match sel {
        Some(t) => t,
        None => match stem {
            Some(s) => s,
            None => "Untitled Document"@,
        },
    }
}

pub open spec fn opt_str_view(o: Option<String>) -> Option<Seq<char>> {
    match o {
        Some(s) => Some(s@),
        None => None,
    }
}

pub open spec fn opt_chars_view(o: Option<Vec<char>>) -> Option<Seq<char>> {
    match o {
        Some(v) => Some(v@),
        None => None,
    }
}

/// What the plain-text pipeline produces from the document text and the
/// optional file stem: the title chosen on the first page, and the
/// classified, deduplicated, page-ordered headings of all pages.
pub open spec fn spec_plain_outline(text: Seq<char>, stem: Option<Seq<char>>) -> OutlineModel {
    let pages = spec_pages(text);
    let sel = spec_select_title(page_lines(pages[0]));
    let hs = collect_pages(pages, pages.len() as int, sel);
    OutlineModel {
        title: spec_title_string(sel, stem),
        outline: spec_establish(hs),
    }
}

/// Extraction is a function of the document text and stem alone: equal
/// inputs yield equal outlines, so re-running it repeats the result.
pub proof fn lemma_extraction_deterministic(
    t1: Seq<char>,
    t2: Seq<char>,
    s1: Option<Seq<char>>,
    s2: Option<Seq<char>>,
)
    requires
        t1 == t2,
        s1 == s2,
    ensures
        spec_plain_outline(t1, s1) == spec_plain_outline(t2, s2),
{
}

/// The plain-text pipeline: split the text into pages, choose a title
/// on the first page, classify every line, and assemble the outline.
pub fn outline_from_text(text: &str, stem: &Option<String>) -> (r: Outline)
    ensures
        r@ == spec_plain_outline(text@, opt_str_view(*stem)),
{
    let tv = chars_of(text);
    proof {
        reveal_strlit("\u{c}");
        reveal_strlit("\n\n\n");
    }
    let pages: Vec<Vec<char>> = if contains_str(&tv, "\u{c}") {
        split_by_str(&tv, "\u{c}")
    } else {
        split_by_str(&tv, "\n\n\n")
    };
    proof {
        assert(seq!['\u{c}'] =~= "\u{c}"@);
        assert(views_of(pages@) == spec_pages(text@));
        lemma_split_by_at_least_one(text@, "\n\n\n"@);
        lemma_split_by_at_least_one(text@, seq!['\u{c}']);
    }
    let ghost pv = views_of(pages@);
    let ghost sel = spec_select_title(page_lines(pv[0]));
    let mut title_sel: Option<Vec<char>> = None;
    let mut headings: Vec<Heading> = Vec::new();
    let mut p: usize = 0;
    while p < pages.len()
        invariant
            p <= pages@.len(),
            pages@.len() >= 1,
            pv == views_of(pages@),
            sel == spec_select_title(page_lines(pv[0])),
            p == 0 ==> title_sel is None && headings@.len() == 0,
            p > 0 ==> opt_chars_view(title_sel) == sel,
            p > 0 ==> heading_models(headings@) == collect_pages(pv, p as int, sel),
        decreases pages@.len() - p,
    {
        let lines = page_lines_exec(&pages[p]);
        if p == 0 {
            title_sel = select_title_vec(&lines);
            proof {
                assert(views_of(lines@) == page_lines(pv[0]));
                assert(opt_chars_view(title_sel) == sel);
            }
        }
        let ghost acc0 = heading_models(headings@);
        proof {
            if p == 0 {
                assert(acc0 =~= collect_pages(pv, 0, sel));
            }
        }
        let page_no = p + 1;
        let mut i: usize = 0;
        while i < lines.len()
            invariant
                i <= lines@.len(),
                p < pages@.len(),
                page_no == p + 1,
                pv == views_of(pages@),
                sel == spec_select_title(page_lines(pv[0])),
                views_of(lines@) == page_lines(pv[p as int]),
                opt_chars_view(title_sel) == sel,
                acc0 == collect_pages(pv, p as int, sel),
                heading_models(headings@) == collect_lines(
                    views_of(lines@),
                    page_no as int,
                    i as int,
                    sel,
                    acc0,
                ),
            decreases lines@.len() - i,
        {
            match analyze_potential_heading_vec(&lines[i], i, &lines, page_no) {
                Some(h) => {
                    let mut dup = false;
                    let mut j: usize = 0;
                    while j < headings.len()
                        invariant
                            j <= headings@.len(),
                            dup == contains_heading(
                                heading_models(headings@).take(j as int),
                                h@,
                            ),
                        decreases headings@.len() - j,
                    {
                        let e = &headings[j];
                        proof {
                            assert(heading_models(headings@)[j as int] == headings@[j as int]@);
                            assert(heading_models(headings@).take(j + 1) =~= heading_models(
                                headings@,
                            ).take(j as int).push(headings@[j as int]@));
                        }
                        if str_eq(e.text.as_str(), h.text.as_str()) && e.page == h.page {
                            dup = true;
                            proof {
                                let pref = heading_models(headings@).take(j + 1);
                                assert(pref[j as int].text == h@.text && pref[j as int].page
                                    == h@.page);
                            }
                        }
                        j += 1;
                    }
                    proof {
                        assert(heading_models(headings@).take(headings@.len() as int)
                            =~= heading_models(headings@));
                    }
                    let mut is_title = false;
                    match &title_sel {
                        Some(t) => {
                            let hv = chars_of(h.text.as_str());
                            if vec_eq_vec(&hv, t) {
                                is_title = true;
                            }
                        },
                        None => {},
                    }
                    if !dup && !is_title {
                        let ghost old_h = heading_models(headings@);
                        headings.push(h);
                        proof {
                            assert(heading_models(headings@) =~= old_h.push(
                                headings@[headings@.len() - 1]@,
                            ));
                        }
                    }
                },
                None => {},
            }
            i += 1;
        }
        proof {
            assert(views_of(lines@).take(views_of(lines@).len() as int) =~= views_of(lines@));
        }
        p += 1;
    }
    let hs = establish_hierarchy(headings);
    let title: String = match title_sel {
        Some(t) => string_from_chars(&t),
        None => match stem {
            Some(s) => String::from_str(s.as_str()),
            None => "Untitled Document".to_owned(),
        },
    };
    Outline { title, outline: hs }
}

// ---------------------------------------------------------------------
// Accepting or rejecting the plain-text pipeline's result
// ---------------------------------------------------------------------

/// Run the plain-text pipeline on the document's extracted text. The
/// outline comes back exactly when the text is not blank and at least
/// one heading is found; `None` says that the font-metric fallback
/// should run instead. The caller obtains the text from its extraction
/// collaborator and must contain that collaborator's failures itself.
pub fn try_plain_pipeline(text: &str, stem: &Option<String>) -> (r: Option<Outline>)
    ensures
        r is Some <==> {
            &&& trim_seq(text@).len() > 0
            &&& spec_plain_outline(text@, opt_str_view(*stem)).outline.len() > 0
        },
        r matches Some(o) ==> o@ == spec_plain_outline(text@, opt_str_view(*stem)),
{
    let tv = chars_of(text);
    let trimmed = trim_vec(&tv);
    if trimmed.len() == 0 {
        return None;
    }
    let o = outline_from_text(text, stem);
    if o.outline.len() > 0 {
        Some(o)
    } else {
        None
    }
}

// ---------------------------------------------------------------------
// The font-metric pipeline
// ---------------------------------------------------------------------

/// Candidates above the confidence gate (in hundredths), in order.
pub open spec fn filter_confident(cs: Seq<CandidateModel>, k: int, min: u32) -> Seq<CandidateModel>
    decreases k,
{
    if k <= 0 {
        Seq::empty()
    } else {
        let prev = filter_confident(cs, k - 1, min);
        if cs[k - 1].confidence > min {
            prev.push(cs[k - 1])
        } else {
            prev
        }
    }
}

pub open spec fn conf_before(a: CandidateModel, b: CandidateModel) -> bool {
    a.confidence >= b.confidence
}

pub open spec fn page_before_cand(a: CandidateModel, b: CandidateModel) -> bool {
    a.page <= b.page
}

/// Insert `h` after every entry that stays before it: the stable
/// insertion step for candidates.
pub open spec fn insert_stable(
    s: Seq<CandidateModel>,
    h: CandidateModel,
    before: spec_fn(CandidateModel, CandidateModel) -> bool,
) -> Seq<CandidateModel>
    decreases s.len(),
{
    if s.len() == 0 {
        seq![h]
    } else if before(s.last(), h) {
        s.push(h)
    } else {
        insert_stable(s.drop_last(), h, before).push(s.last())
    }
}

/// Stable insertion sort of candidates under `before`.
pub open spec fn sort_stable(
    s: Seq<CandidateModel>,
    before: spec_fn(CandidateModel, CandidateModel) -> bool,
) -> Seq<CandidateModel>
    decreases s.len(),
{
    if s.len() == 0 {
        Seq::empty()
    } else {
        insert_stable(sort_stable(s.drop_last(), before), s.last(), before)
    }
}

/// Stable sort descending by confidence.
pub open spec fn sort_by_confidence(s: Seq<CandidateModel>) -> Seq<CandidateModel> {
    sort_stable(s, |a: CandidateModel, b: CandidateModel| conf_before(a, b))
}

/// Stable sort ascending by page.
pub open spec fn sort_cand_by_page(s: Seq<CandidateModel>) -> Seq<CandidateModel> {
    sort_stable(s, |a: CandidateModel, b: CandidateModel| page_before_cand(a, b))
}

proof fn lemma_insert_stable_at(
    s: Seq<CandidateModel>,
    h: CandidateModel,
    before: spec_fn(CandidateModel, CandidateModel) -> bool,
    p: int,
)
    requires
        0 <= p <= s.len(),
        forall|x: int| p <= x < s.len() ==> !before(#[trigger] s[x], h),
        p > 0 ==> before(s[p - 1], h),
    ensures
        insert_stable(s, h, before) == s.take(p) + seq![h] + s.skip(p),
    decreases s.len(),
{
    if s.len() == 0 {
        assert(insert_stable(s, h, before) =~= s.take(p) + seq![h] + s.skip(p));
    } else if before(s.last(), h) {
        assert(p == s.len());
        assert(s.take(p) + seq![h] + s.skip(p) =~= s.push(h));
    } else {
        assert(p < s.len());
        let d = s.drop_last();
        lemma_insert_stable_at(d, h, before, p);
        assert((d.take(p) + seq![h] + d.skip(p)).push(s.last()) =~= s.take(p) + seq![h] + s.skip(
            p,
        ));
    }
}

fn insert_by_confidence(out: &mut Vec<HeadingCandidate>, h: HeadingCandidate)
    ensures
        candidate_models(final(out)@) == insert_stable(
            candidate_models(old(out)@),
            h@,
            |a: CandidateModel, b: CandidateModel| conf_before(a, b),
        ),
{
    let mut p: usize = out.len();
    while p > 0 && out[p - 1].confidence < h.confidence
        invariant
            p <= out@.len(),
            forall|x: int| p <= x < out@.len() ==> #[trigger] out@[x].confidence < h.confidence,
            out == old(out),
        decreases p,
    {
        p -= 1;
    }
    proof {
        lemma_insert_stable_at(
            candidate_models(out@),
            h@,
            |a: CandidateModel, b: CandidateModel| conf_before(a, b),
            p as int,
        );
    }
    let ghost before_models = candidate_models(out@);
    out.insert(p, h);
    proof {
        assert(candidate_models(out@) =~= before_models.take(p as int) + seq![h@]
            + before_models.skip(p as int));
    }
}

fn insert_by_page_cand(out: &mut Vec<HeadingCandidate>, h: HeadingCandidate)
    ensures
        candidate_models(final(out)@) == insert_stable(
            candidate_models(old(out)@),
            h@,
            |a: CandidateModel, b: CandidateModel| page_before_cand(a, b),
        ),
{
    let mut p: usize = out.len();
    while p > 0 && out[p - 1].page > h.page
        invariant
            p <= out@.len(),
            forall|x: int| p <= x < out@.len() ==> #[trigger] out@[x].page > h.page,
            out == old(out),
        decreases p,
    {
        p -= 1;
    }
    proof {
        lemma_insert_stable_at(
            candidate_models(out@),
            h@,
            |a: CandidateModel, b: CandidateModel| page_before_cand(a, b),
            p as int,
        );
    }
    let ghost before_models = candidate_models(out@);
    out.insert(p, h);
    proof {
        assert(candidate_models(out@) =~= before_models.take(p as int) + seq![h@]
            + before_models.skip(p as int));
    }
}

/// The headings that the retained candidates become: excluded texts are
/// dropped, the rest are cleaned; the chosen title is not repeated.
pub open spec fn convert_candidates(
    cs: Seq<CandidateModel>,
    k: int,
    title: Option<Seq<char>>,
) -> Seq<HeadingModel>
    decreases k,
{
    if k <= 0 {
        Seq::empty()
    } else {
        let prev = convert_candidates(cs, k - 1, title);
        let c = cs[k - 1];
        if crate::exclude::spec_is_excluded(c.text) || title_is(
            title,
            crate::heading::spec_clean_heading(c.text),
        ) {
            prev
        } else {
            prev.push(
                HeadingModel {
                    level: c.level,
                    text: crate::heading::spec_clean_heading(c.text),
                    page: c.page,
                },
            )
        }
    }
}

/// What the font-metric pipeline produces from the runs, the first
/// page's text, the optional file stem and the confidence gate.
pub open spec fn spec_font_outline(
    runs: Seq<crate::model::TextRunModel>,
    first_page_text: Seq<char>,
    stem: Option<Seq<char>>,
    min_confidence: u32,
) -> OutlineModel {
    let sel = spec_select_title(page_lines(first_page_text));
    let cands = crate::fontclass::spec_candidates(runs, runs.len() as int);
    let kept = filter_confident(cands, cands.len() as int, min_confidence);
    let byconf = sort_by_confidence(kept);
    let cut = byconf.take(
        if byconf.len() < 50 {
            byconf.len() as int
        } else {
            50
        },
    );
    let bypage = sort_cand_by_page(cut);
    let hs = convert_candidates(bypage, bypage.len() as int, sel);
    OutlineModel { title: spec_title_string(sel, stem), outline: spec_establish(hs) }
}

/// The font-metric pipeline: gate the candidates by confidence, keep
/// the 50 most confident, order them by page, turn them into cleaned
/// headings, and assemble the outline. The title is chosen from the
/// first page's text.
pub fn font_outline_from_runs(
    runs: &Vec<TextRun>,
    first_page_text: &str,
    stem: &Option<String>,
    min_confidence: u32,
) -> (r: Outline)
    ensures
        r@ == spec_font_outline(
            run_models(runs@),
            first_page_text@,
            opt_str_view(*stem),
            min_confidence,
        ),
{
    let fpv = chars_of(first_page_text);
    let first_lines = page_lines_exec(&fpv);
    let title_sel = select_title_vec(&first_lines);
    let ghost sel = spec_select_title(page_lines(first_page_text@));
    let cands = crate::fontclass::extract_heading_candidates(runs);
    let ghost cm = candidate_models(cands@);
    let mut kept: Vec<HeadingCandidate> = Vec::new();
    let mut i: usize = 0;
    proof {
        assert(candidate_models(kept@) =~= filter_confident(cm, 0, min_confidence));
    }
    while i < cands.len()
        invariant
            i <= cands@.len(),
            cm == candidate_models(cands@),
            candidate_models(kept@) == filter_confident(cm, i as int, min_confidence),
        decreases cands@.len() - i,
    {
        let c = &cands[i];
        proof {
            assert(cm[i as int] == cands@[i as int]@);
        }
        if c.confidence > min_confidence {
            let ghost old_kept = candidate_models(kept@);
            kept.push(
                HeadingCandidate {
                    text: String::from_str(c.text.as_str()),
                    level: c.level,
                    page: c.page,
                    confidence: c.confidence,
                },
            );
            proof {
                assert(candidate_models(kept@) =~= old_kept.push(cm[i as int]));
            }
        }
        i += 1;
    }
    let ghost keptm = candidate_models(kept@);
    let mut byconf: Vec<HeadingCandidate> = Vec::new();
    let mut i2: usize = 0;
    proof {
        assert(candidate_models(byconf@) =~= sort_by_confidence(keptm.take(0)));
    }
    while i2 < kept.len()
        invariant
            i2 <= kept@.len(),
            keptm == candidate_models(kept@),
            candidate_models(byconf@) == sort_by_confidence(keptm.take(i2 as int)),
        decreases kept@.len() - i2,
    {
        let c = &kept[i2];
        insert_by_confidence(
            &mut byconf,
            HeadingCandidate {
                text: String::from_str(c.text.as_str()),
                level: c.level,
                page: c.page,
                confidence: c.confidence,
            },
        );
        i2 += 1;
        proof {
            assert(keptm.take(i2 as int).drop_last() =~= keptm.take(i2 - 1));
            assert(keptm.take(i2 as int).last() == keptm[i2 - 1]);
            assert(keptm[i2 - 1] == kept@[i2 - 1]@);
        }
    }
    proof {
        assert(keptm.take(keptm.len() as int) =~= keptm);
    }
    let ghost byconfm = candidate_models(byconf@);
    let cut_len: usize = if byconf.len() < 50 {
        byconf.len()
    } else {
        50
    };
    let mut bypage: Vec<HeadingCandidate> = Vec::new();
    let mut i3: usize = 0;
    proof {
        assert(candidate_models(bypage@) =~= sort_cand_by_page(byconfm.take(cut_len as int).take(0)));
    }
    while i3 < cut_len
        invariant
            i3 <= cut_len <= byconf@.len(),
            byconfm == candidate_models(byconf@),
            candidate_models(bypage@) == sort_cand_by_page(
                byconfm.take(cut_len as int).take(i3 as int),
            ),
        decreases cut_len - i3,
    {
        let c = &byconf[i3];
        insert_by_page_cand(
            &mut bypage,
            HeadingCandidate {
                text: String::from_str(c.text.as_str()),
                level: c.level,
                page: c.page,
                confidence: c.confidence,
            },
        );
        i3 += 1;
        proof {
            let cutm = byconfm.take(cut_len as int);
            assert(cutm.take(i3 as int).drop_last() =~= cutm.take(i3 - 1));
            assert(cutm.take(i3 as int).last() == cutm[i3 - 1]);
            assert(cutm[i3 - 1] == byconf@[i3 - 1]@);
        }
    }
    proof {
        let cutm = byconfm.take(cut_len as int);
        assert(cutm.take(cutm.len() as int) =~= cutm);
    }
    let ghost bypagem = candidate_models(bypage@);
    let mut headings: Vec<Heading> = Vec::new();
    let mut i4: usize = 0;
    proof {
        assert(heading_models(headings@) =~= convert_candidates(bypagem, 0, sel));
    }
    while i4 < bypage.len()
        invariant
            i4 <= bypage@.len(),
            bypagem == candidate_models(bypage@),
            opt_chars_view(title_sel) == sel,
            heading_models(headings@) == convert_candidates(bypagem, i4 as int, sel),
        decreases bypage@.len() - i4,
    {
        let c = &bypage[i4];
        proof {
            assert(bypagem[i4 as int] == bypage@[i4 as int]@);
        }
        let cv = chars_of(c.text.as_str());
        if !crate::exclude::is_excluded_vec(&cv) {
            let cleaned = crate::heading::clean_heading_vec(&cv);
            let mut is_title = false;
            match &title_sel {
                Some(t) => {
                    if vec_eq_vec(&cleaned, t) {
                        is_title = true;
                    }
                },
                None => {},
            }
            if !is_title {
                let ghost old_h = heading_models(headings@);
                headings.push(
                    Heading { level: c.level, text: string_from_chars(&cleaned), page: c.page },
                );
                proof {
                    assert(heading_models(headings@) =~= old_h.push(
                        headings@[headings@.len() - 1]@,
                    ));
                }
            }
        }
        i4 += 1;
    }
    let hs = establish_hierarchy(headings);
    let title: String = match title_sel {
        Some(t) => string_from_chars(&t),
        None => match stem {
            Some(s) => String::from_str(s.as_str()),
            None => "Untitled Document".to_owned(),
        },
    };
    Outline { title, outline: hs }
}

/// The whole font-metric fallback from decoded page operations: build
/// the runs, then classify and assemble.
pub fn outline_from_ops(
    pages: &Vec<Vec<crate::model::PdfOp>>,
    first_page_text: &str,
    stem: &Option<String>,
    min_confidence: u32,
) -> (r: Outline)
    ensures
        r@ == spec_font_outline(
            crate::fontclass::spec_extract_runs(pages@),
            first_page_text@,
            opt_str_view(*stem),
            min_confidence,
        ),
{
    let runs = crate::fontclass::extract_runs(pages);
    font_outline_from_runs(&runs, first_page_text, stem, min_confidence)
}

} // verus!
