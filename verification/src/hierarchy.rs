//! The hierarchy assembler: near-duplicate removal and the stable
//! ordering of the final outline by page.

use vstd::prelude::*;
use vstd::seq_lib::group_to_multiset_ensures;
use crate::model::{Heading, HeadingModel, heading_models};
use crate::text::{
    chars_of, is_digit_char, lower_seq, string_from_chars, to_lower_vec, trim_seq, trim_vec,
    vec_eq_vec, ch_is_digit,
};

verus! {

broadcast use group_to_multiset_ensures;

// ---------------------------------------------------------------------
// The normalized form of a heading text
// ---------------------------------------------------------------------

/// Characters that survive normalization: everything but ASCII digits,
/// dots and colons.
pub open spec fn keep_char(c: char) -> bool {
    !is_digit_char(c) && c != '.' && c != ':'
}

/// The text with digits, dots and colons removed.
pub open spec fn strip_marks(t: Seq<char>) -> Seq<char>
    decreases t.len(),
{
    if t.len() == 0 {
        Seq::empty()
    } else {
        strip_marks(t.drop_last()) + (if keep_char(t.last()) {
            seq![t.last()]
        } else {
            Seq::empty()
        })
    }
}

/// The normalized form used for near-duplicate detection: digits, dots
/// and colons removed, then trimmed, then lower-cased.
pub open spec fn normal_form(t: Seq<char>) -> Seq<char> {
    lower_seq(trim_seq(strip_marks(t)))
}

fn strip_marks_exec(v: &Vec<char>) -> (r: Vec<char>)
    ensures
        r@ == strip_marks(v@),
{
    let mut r: Vec<char> = Vec::new();
    let mut i: usize = 0;
    proof {
        assert(r@ =~= strip_marks(v@.take(0)));
    }
    while i < v.len()
        invariant
            i <= v@.len(),
            r@ == strip_marks(v@.take(i as int)),
        decreases v@.len() - i,
    {
        proof {
            assert(v@.take(i + 1).drop_last() =~= v@.take(i as int));
            assert(v@.take(i + 1).last() == v@[i as int]);
        }
        let c = v[i];
        if !(ch_is_digit(c) || c == '.' || c == ':') {
            r.push(c);
            proof {
                assert(r@ =~= strip_marks(v@.take(i as int)) + seq![v@[i as int]]);
            }
        } else {
            proof {
                assert(r@ =~= strip_marks(v@.take(i as int)) + Seq::<char>::empty());
            }
        }
        i += 1;
    }
    proof {
        assert(v@.take(v@.len() as int) =~= v@);
    }
    r
}

fn normal_form_exec(v: &Vec<char>) -> (r: Vec<char>)
    ensures
        r@ == normal_form(v@),
{
    let stripped = strip_marks_exec(v);
    let trimmed = trim_vec(&stripped);
    to_lower_vec(&trimmed)
}

// ---------------------------------------------------------------------
// Near-duplicate removal
// ---------------------------------------------------------------------

/// A heading is a near-duplicate of an already kept one when their
/// normalized texts are equal and non-trivially long.
pub open spec fn is_dup_of(h: HeadingModel, kept: Seq<HeadingModel>) -> bool {
    exists|j: int|
        0 <= j < kept.len() && normal_form(#[trigger] kept[j].text) == normal_form(h.text)
            && normal_form(h.text).len() > 5
}

/// The first `k` headings with near-duplicates removed: a single stable
/// pass that keeps the first instance of each normalized form.
pub open spec fn spec_dedup(hs: Seq<HeadingModel>, k: int) -> Seq<HeadingModel>
    decreases k,
{
    if k <= 0 {
        Seq::empty()
    } else {
        let prev = spec_dedup(hs, k - 1);
        if is_dup_of(hs[k - 1], prev) {
            prev
        } else {
            prev.push(hs[k - 1])
        }
    }
}

/// No two headings of `s` share a normalized form longer than five
/// characters.
pub open spec fn no_near_duplicates(s: Seq<HeadingModel>) -> bool {
    forall|i: int, j: int|
        0 <= i < j < s.len() ==> !(normal_form(#[trigger] s[i].text) == normal_form(
            #[trigger] s[j].text,
        ) && normal_form(s[i].text).len() > 5)
}

pub proof fn lemma_dedup_no_near_duplicates(hs: Seq<HeadingModel>, k: int)
    ensures
        no_near_duplicates(spec_dedup(hs, k)),
    decreases k,
{
    if k > 0 {
        lemma_dedup_no_near_duplicates(hs, k - 1);
    }
}

// ---------------------------------------------------------------------
// Stable ordering by page
// ---------------------------------------------------------------------

/// Insert `h` after every heading whose page does not exceed its own:
/// the stable insertion step.
pub open spec fn insert_by_page(s: Seq<HeadingModel>, h: HeadingModel) -> Seq<HeadingModel>
    decreases s.len(),
{
    if s.len() == 0 {
        seq![h]
    } else if s.last().page <= h.page {
        s.push(h)
    } else {
        insert_by_page(s.drop_last(), h).push(s.last())
    }
}

/// Stable insertion sort of headings by page.
pub open spec fn sort_by_page(s: Seq<HeadingModel>) -> Seq<HeadingModel>
    decreases s.len(),
{
    if s.len() == 0 {
        Seq::empty()
    } else {
        insert_by_page(sort_by_page(s.drop_last()), s.last())
    }
}

/// Pages never decrease along `s`.
pub open spec fn sorted_by_page(s: Seq<HeadingModel>) -> bool {
    forall|i: int, j: int| 0 <= i < j < s.len() ==> #[trigger] s[i].page <= #[trigger] s[j].page
}

pub proof fn lemma_insert_by_page_sorted(s: Seq<HeadingModel>, h: HeadingModel)
    requires
        sorted_by_page(s),
    ensures
        sorted_by_page(insert_by_page(s, h)),
        insert_by_page(s, h).len() == s.len() + 1,
    decreases s.len(),
{
    if s.len() == 0 {
    } else if s.last().page <= h.page {
    } else {
        assert(sorted_by_page(s.drop_last())) by {
            assert(forall|i: int, j: int|
                0 <= i < j < s.drop_last().len() ==> #[trigger] s.drop_last()[i].page
                    <= #[trigger] s.drop_last()[j].page);
        }
        lemma_insert_by_page_sorted(s.drop_last(), h);
        let inner = insert_by_page(s.drop_last(), h);
        // every element of the inner insertion is either h or an element
        // of s.drop_last(), so none has a page above s.last().page
        lemma_insert_by_page_multiset(s.drop_last(), h);
        assert forall|i: int| 0 <= i < inner.len() implies inner[i].page <= s.last().page by {
            assert(inner.to_multiset().count(inner[i]) > 0);
            if inner[i] != h {
                assert(s.drop_last().to_multiset().count(inner[i]) > 0);
                assert(s.drop_last().contains(inner[i]));
                let w = choose|w: int|
                    0 <= w < s.drop_last().len() && s.drop_last()[w] == inner[i];
                assert(s[w].page <= s.last().page);
            }
        }
    }
}

pub proof fn lemma_insert_by_page_multiset(s: Seq<HeadingModel>, h: HeadingModel)
    ensures
        insert_by_page(s, h).to_multiset() == s.to_multiset().insert(h),
    decreases s.len(),
{
    if s.len() == 0 {
        assert(seq![h] =~= Seq::<HeadingModel>::empty().push(h));
        assert(Seq::<HeadingModel>::empty().push(h).to_multiset() =~= Seq::<
            HeadingModel,
        >::empty().to_multiset().insert(h));
        assert(insert_by_page(s, h).to_multiset() =~= s.to_multiset().insert(h));
    } else if s.last().page <= h.page {
        assert(s.push(h).to_multiset() =~= s.to_multiset().insert(h));
    } else {
        lemma_insert_by_page_multiset(s.drop_last(), h);
        assert(s =~= s.drop_last().push(s.last()));
        assert(s.to_multiset() =~= s.drop_last().to_multiset().insert(s.last()));
        assert(insert_by_page(s, h).to_multiset() =~= s.drop_last().to_multiset().insert(h).insert(
            s.last(),
        ));
        assert(s.drop_last().to_multiset().insert(h).insert(s.last()) =~= s.drop_last().to_multiset().insert(
            s.last(),
        ).insert(h));
    }
}

pub proof fn lemma_sort_by_page_sorted(s: Seq<HeadingModel>)
    ensures
        sorted_by_page(sort_by_page(s)),
        sort_by_page(s).to_multiset() == s.to_multiset(),
        sort_by_page(s).len() == s.len(),
    decreases s.len(),
{
    if s.len() > 0 {
        lemma_sort_by_page_sorted(s.drop_last());
        lemma_insert_by_page_sorted(sort_by_page(s.drop_last()), s.last());
        lemma_insert_by_page_multiset(sort_by_page(s.drop_last()), s.last());
        assert(s =~= s.drop_last().push(s.last()));
        assert(s.to_multiset() =~= s.drop_last().to_multiset().insert(s.last()));
    }
}

/// An element standing at two distinct positions is counted at least
/// twice by the multiset.
proof fn lemma_two_positions_count(s: Seq<HeadingModel>, i: int, j: int)
    requires
        0 <= i < j < s.len(),
        s[i] == s[j],
    ensures
        s.to_multiset().count(s[i]) >= 2,
    decreases s.len(),
{
    let d = s.drop_last();
    assert(s =~= d.push(s.last()));
    assert(s.to_multiset() =~= d.to_multiset().insert(s.last()));
    if j == s.len() - 1 {
        assert(d[i] == s[i]);
        assert(d.contains(s[i]));
        assert(d.to_multiset().count(s[i]) > 0);
    } else {
        lemma_two_positions_count(d, i, j);
    }
}

/// In a sequence whose multiset counts an element at least twice, the
/// element stands at two distinct positions.
proof fn lemma_count_two_positions(s: Seq<HeadingModel>, a: HeadingModel)
    requires
        s.to_multiset().count(a) >= 2,
    ensures
        exists|i: int, j: int| 0 <= i < j < s.len() && s[i] == a && s[j] == a,
    decreases s.len(),
{
    assert(s.to_multiset().len() == s.len());
    assert(s.len() >= 2) by {
        assert(s.to_multiset().count(a) <= s.to_multiset().len()) by {
            vstd::multiset::axiom_count_le_len::<HeadingModel>(s.to_multiset(), a);
        }
    }
    let d = s.drop_last();
    assert(s =~= d.push(s.last()));
    assert(s.to_multiset() =~= d.to_multiset().insert(s.last()));
    if s.last() == a {
        assert(d.to_multiset().count(a) >= 1);
        assert(d.contains(a));
        let i = choose|i: int| 0 <= i < d.len() && d[i] == a;
        assert(s[i] == a && s[s.len() - 1] == a && i < s.len() - 1);
    } else {
        assert(d.to_multiset().count(a) >= 2);
        lemma_count_two_positions(d, a);
        let (i, j) = choose|i: int, j: int| 0 <= i < j < d.len() && d[i] == a && d[j] == a;
        assert(s[i] == a && s[j] == a);
    }
}

/// A permutation of a sequence without near-duplicates has none either.
pub proof fn lemma_no_near_duplicates_permutation(a: Seq<HeadingModel>, b: Seq<HeadingModel>)
    requires
        a.to_multiset() == b.to_multiset(),
        no_near_duplicates(a),
    ensures
        no_near_duplicates(b),
{
    assert forall|i: int, j: int| 0 <= i < j < b.len() implies !(normal_form(
        #[trigger] b[i].text,
    ) == normal_form(#[trigger] b[j].text) && normal_form(b[i].text).len() > 5) by {
        if normal_form(b[i].text) == normal_form(b[j].text) && normal_form(b[i].text).len() > 5 {
            if b[i] == b[j] {
                lemma_two_positions_count(b, i, j);
                lemma_count_two_positions(a, b[i]);
            } else {
                assert(b.to_multiset().count(b[i]) > 0);
                assert(b.to_multiset().count(b[j]) > 0);
                assert(a.contains(b[i]));
                assert(a.contains(b[j]));
                let x = choose|x: int| 0 <= x < a.len() && a[x] == b[i];
                let y = choose|y: int| 0 <= y < a.len() && a[y] == b[j];
                assert(x != y);
            }
        }
    }
}

// ---------------------------------------------------------------------
// The assembler
// ---------------------------------------------------------------------

/// The final outline order: near-duplicates removed in a stable pass,
/// then a stable sort ascending by page.
pub open spec fn spec_establish(hs: Seq<HeadingModel>) -> Seq<HeadingModel> {
    sort_by_page(spec_dedup(hs, hs.len() as int))
}

/// Every final outline is sorted by page.
pub proof fn lemma_establish_sorted(hs: Seq<HeadingModel>)
    ensures
        sorted_by_page(spec_establish(hs)),
{
    lemma_sort_by_page_sorted(spec_dedup(hs, hs.len() as int));
}

/// No two headings of a final outline share a normalized form longer
/// than five characters.
pub proof fn lemma_establish_no_near_duplicates(hs: Seq<HeadingModel>)
    ensures
        no_near_duplicates(spec_establish(hs)),
{
    let d = spec_dedup(hs, hs.len() as int);
    lemma_dedup_no_near_duplicates(hs, hs.len() as int);
    lemma_sort_by_page_sorted(d);
    lemma_no_near_duplicates_permutation(d, sort_by_page(d));
}

fn insert_heading(out: &mut Vec<Heading>, h: Heading)
    ensures
        heading_models(final(out)@) == insert_by_page(heading_models(old(out)@), h@),
{
    let mut p: usize = out.len();
    while p > 0 && out[p - 1].page > h.page
        invariant
            p <= out@.len(),
            forall|x: int| p <= x < out@.len() ==> #[trigger] out@[x].page > h.page,
            out == old(out),
        decreases p,
    {
        p -= 1;
    }
    proof {
        lemma_insert_by_page_at(heading_models(out@), h@, p as int);
    }
    let ghost before = heading_models(out@);
    out.insert(p, h);
    proof {
        assert(heading_models(out@) =~= before.take(p as int) + seq![h@] + before.skip(p as int));
    }
}

proof fn lemma_insert_by_page_at(s: Seq<HeadingModel>, h: HeadingModel, p: int)
    requires
        0 <= p <= s.len(),
        forall|x: int| p <= x < s.len() ==> #[trigger] s[x].page > h.page,
        p > 0 ==> s[p - 1].page <= h.page,
    ensures
        insert_by_page(s, h) == s.take(p) + seq![h] + s.skip(p),
    decreases s.len(),
{
    if s.len() == 0 {
        assert(insert_by_page(s, h) =~= s.take(p) + seq![h] + s.skip(p));
    } else if s.last().page <= h.page {
        assert(p == s.len());
        assert(s.take(p) + seq![h] + s.skip(p) =~= s.push(h));
    } else {
        assert(p < s.len());
        let d = s.drop_last();
        lemma_insert_by_page_at(d, h, p);
        assert(insert_by_page(s, h) == insert_by_page(d, h).push(s.last()));
        assert((d.take(p) + seq![h] + d.skip(p)).push(s.last()) =~= s.take(p) + seq![h] + s.skip(
            p,
        ));
    }
}

/// Remove near-duplicate headings (stable, first instance kept) and
/// order the survivors ascending by page (stable).
pub fn establish_hierarchy(headings: Vec<Heading>) -> (r: Vec<Heading>)
    ensures
        heading_models(r@) == spec_establish(heading_models(headings@)),
        sorted_by_page(heading_models(r@)),
        no_near_duplicates(heading_models(r@)),
{
    let ghost hs = heading_models(headings@);
    let n = headings.len();
    let mut unique: Vec<Heading> = Vec::new();
    let mut k: usize = 0;
    while k < n
        invariant
            n == headings@.len(),
            k <= n,
            heading_models(unique@) == spec_dedup(heading_models(headings@), k as int),
        decreases n - k,
    {
        let h = &headings[k];
        let hv = chars_of(h.text.as_str());
        let hn = normal_form_exec(&hv);
        let mut dup = false;
        let mut j: usize = 0;
        while j < unique.len()
            invariant
                j <= unique@.len(),
                hn@ == normal_form(heading_models(headings@)[k as int].text),
                k < n == headings@.len(),
                hv@ == headings@[k as int].text@,
                dup == exists|x: int|
                    0 <= x < j && normal_form(
                        #[trigger] heading_models(unique@)[x].text,
                    ) == hn@ && hn@.len() > 5,
            decreases unique@.len() - j,
        {
            let u = &unique[j];
            let uv = chars_of(u.text.as_str());
            let un = normal_form_exec(&uv);
            proof {
                assert(heading_models(unique@)[j as int].text == unique@[j as int].text@);
                assert(un@ == normal_form(heading_models(unique@)[j as int].text));
            }
            if vec_eq_vec(&un, &hn) && hn.len() > 5 {
                dup = true;
            }
            j += 1;
        }
        let ghost old_unique = heading_models(unique@);
        if !dup {
            let copy = Heading { level: h.level, text: string_from_chars(&hv), page: h.page };
            unique.push(copy);
            proof {
                assert(heading_models(unique@) =~= old_unique.push(
                    heading_models(headings@)[k as int],
                ));
            }
        }
        k += 1;
    }
    let mut out: Vec<Heading> = Vec::new();
    let mut k2: usize = 0;
    proof {
        assert(heading_models(out@) =~= sort_by_page(heading_models(unique@).take(0)));
    }
    while k2 < unique.len()
        invariant
            k2 <= unique@.len(),
            heading_models(out@) == sort_by_page(heading_models(unique@).take(k2 as int)),
        decreases unique@.len() - k2,
    {
        let u = &unique[k2];
        let copy = Heading {
            level: u.level,
            text: string_from_chars(&chars_of(u.text.as_str())),
            page: u.page,
        };
        insert_heading(&mut out, copy);
        k2 += 1;
        proof {
            let um = heading_models(unique@);
            assert(um.take(k2 as int).drop_last() =~= um.take(k2 - 1));
            assert(um.take(k2 as int).last() == um[k2 - 1]);
        }
    }
    proof {
        assert(heading_models(unique@).take(unique@.len() as int) =~= heading_models(unique@));
        lemma_establish_sorted(hs);
        lemma_establish_no_near_duplicates(hs);
    }
    out
}

} // verus!
