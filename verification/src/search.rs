//! The TUI's search palette: the index of searchable entries, fuzzy scoring
//! and the stable ranking of matches, best first.

use fuzzy_matcher::FuzzyMatcher;
use vstd::prelude::*;

use crate::tui::SearchResult;
use crate::tui_app::{CourseEntry, Deadline};

verus! {

broadcast use vstd::seq_lib::to_multiset_insert, vstd::seq_lib::to_multiset_build;

/// The plain content of a search entry: label, category, course id, item id.
pub open spec fn result_view(r: SearchResult) -> (Seq<char>, Seq<char>, Option<i64>, Option<i64>) {
    (r.label@, r.category@, r.course_id, r.item_id)
}

/// The plain content of a list of entries.
pub open spec fn results_view(v: Seq<SearchResult>) -> Seq<(Seq<char>, Seq<char>, Option<i64>, Option<i64>)> {
    v.map_values(|r: SearchResult| result_view(r))
}

/// The entries of one course: by name, and by `code - name` when it has a
/// code.
pub open spec fn course_entries(c: CourseEntry) -> Seq<(Seq<char>, Seq<char>, Option<i64>, Option<i64>)> {
    let id: i64 = match c.id {
        Some(i) => i,
        None => 0,
    };
    let name = match c.name {
        Some(n) => n@,
        None => seq![],
    };
    let code = match c.course_code {
        Some(k) => k@,
        None => seq![],
    };
    let by_name = seq![(name, "Course"@, Some(id), None::<i64>)];
    if code.len() == 0 {
        by_name
    } else {
        by_name.push((code + " - "@ + name, "Course"@, Some(id), None::<i64>))
    }
}

/// The entries of all courses, in order.
pub open spec fn courses_entries(cs: Seq<CourseEntry>) -> Seq<(Seq<char>, Seq<char>, Option<i64>, Option<i64>)>
    decreases cs.len(),
{
    if cs.len() == 0 {
        seq![]
    } else {
        courses_entries(cs.drop_last()) + course_entries(cs.last())
    }
}

/// The entry of a deadline: `assignment (course)`.
pub open spec fn deadline_entry(d: Deadline) -> (Seq<char>, Seq<char>, Option<i64>, Option<i64>) {
    (
        d.assignment_name@ + " ("@ + d.course_name@ + ")"@,
        "Assignment"@,
        Some(d.course_id),
        Some(d.assignment_id),
    )
}

/// The searchable entries: every course, then every deadline.
pub open spec fn search_index(cs: Seq<CourseEntry>, ds: Seq<Deadline>) -> Seq<
    (Seq<char>, Seq<char>, Option<i64>, Option<i64>),
> {
    courses_entries(cs) + ds.map_values(|d: Deadline| deadline_entry(d))
}

fn opt_or_empty(o: &Option<String>) -> (r: String)
    ensures
        r@ == match o {
            Some(s) => s@,
            None => Seq::<char>::empty(),
        },
{
    match o {
        Some(s) => s.clone(),
        None => String::new(),
    }
}

/// Every course (by name and by code) and every deadline, as search entries.
pub fn build_search_index(courses: &Vec<CourseEntry>, deadlines: &Vec<Deadline>) -> (r: Vec<SearchResult>)
    ensures
        results_view(r@) == search_index(courses@, deadlines@),
{
    let mut out: Vec<SearchResult> = Vec::new();
    let mut i: usize = 0;
    while i < courses.len()
        invariant
            i <= courses.len(),
            results_view(out@) == courses_entries(courses@.take(i as int)),
        decreases courses.len() - i,
    {
        let c = &courses[i];
        let id: i64 = match c.id {
            Some(x) => x,
            None => 0,
        };
        let name = opt_or_empty(&c.name);
        let code = opt_or_empty(&c.course_code);
        let ghost before = results_view(out@);
        let has_code = !code.as_str().is_empty();
        let mut label = code;
        crate::strs::push_str(&mut label, " - ");
        crate::strs::push_str(&mut label, name.as_str());
        out.push(
            SearchResult {
                label: name,
                category: crate::strs::owned("Course"),
                course_id: Some(id),
                item_id: None,
            },
        );
        if has_code {
            out.push(
                SearchResult {
                    label,
                    category: crate::strs::owned("Course"),
                    course_id: Some(id),
                    item_id: None,
                },
            );
        }
        proof {
            assert(courses@.take(i + 1).drop_last() =~= courses@.take(i as int));
            assert(courses@.take(i + 1).last() == courses@[i as int]);
            assert(results_view(out@) =~= before + course_entries(courses@[i as int]));
        }
        i = i + 1;
    }
    assert(courses@.take(courses.len() as int) =~= courses@);
    let ghost head = results_view(out@);
    let mut k: usize = 0;
    while k < deadlines.len()
        invariant
            k <= deadlines.len(),
            head == courses_entries(courses@),
            results_view(out@) == head + deadlines@.take(k as int).map_values(
                |d: Deadline| deadline_entry(d),
            ),
        decreases deadlines.len() - k,
    {
        let d = &deadlines[k];
        let mut label = d.assignment_name.clone();
        crate::strs::push_str(&mut label, " (");
        crate::strs::push_str(&mut label, d.course_name.as_str());
        crate::strs::push_str(&mut label, ")");
        let ghost before = results_view(out@);
        out.push(
            SearchResult {
                label,
                category: crate::strs::owned("Assignment"),
                course_id: Some(d.course_id),
                item_id: Some(d.assignment_id),
            },
        );
        proof {
            assert(deadlines@.take(k + 1).map_values(|d: Deadline| deadline_entry(d)) =~= deadlines@.take(
                k as int,
            ).map_values(|d: Deadline| deadline_entry(d)).push(deadline_entry(deadlines@[k as int])));
            assert(results_view(out@) =~= before.push(deadline_entry(deadlines@[k as int])));
        }
        k = k + 1;
    }
    assert(deadlines@.take(deadlines.len() as int) =~= deadlines@);
    out
}

// ───────────────────────────── scoring and ranking ─────────────────────────────

/// The score `SkimMatcherV2::default().fuzzy_match(label, query)` gives: a
/// score when the query fuzzily matches the label, `None` otherwise; it
/// depends on the two strings alone.
pub uninterp spec fn spec_fuzzy_score(label: Seq<char>, query: Seq<char>) -> Option<i64>;

/// `fuzzy_matcher::skim::SkimMatcherV2::default().fuzzy_match(label, query)`.
#[verifier::external_body]
fn fuzzy_score(label: &str, query: &str) -> (r: Option<i64>)
    ensures
        r == spec_fuzzy_score(label@, query@),
{
    fuzzy_matcher::skim::SkimMatcherV2::default().fuzzy_match(label, query)
}

/// `a` ranks before `b`: a higher score first, the earlier entry first among
/// equal scores.
pub open spec fn ranks_before(a: (i64, usize), b: (i64, usize)) -> bool {
    a.0 > b.0 || (a.0 == b.0 && a.1 < b.1)
}

/// Ranked best first, without ties.
pub open spec fn ranked(s: Seq<(i64, usize)>) -> bool {
    forall|i: int, j: int| 0 <= i < j < s.len() ==> ranks_before(#[trigger] s[i], #[trigger] s[j])
}

/// Sort scored entries best first; entries with equal scores keep their
/// order (the entries carry increasing indices).
pub fn rank_by_score(scored: &Vec<(i64, usize)>) -> (r: Vec<(i64, usize)>)
    requires
        forall|i: int, j: int| 0 <= i < j < scored@.len() ==> (#[trigger] scored@[i]).1 < (
        #[trigger] scored@[j]).1,
    ensures
        r@.to_multiset() == scored@.to_multiset(),
        ranked(r@),
{
    let mut out: Vec<(i64, usize)> = Vec::new();
    let mut i: usize = 0;
    assert(out@ =~= scored@.take(0));
    while i < scored.len()
        invariant
            i <= scored.len(),
            forall|a: int, b: int| 0 <= a < b < scored@.len() ==> (#[trigger] scored@[a]).1 < (
            #[trigger] scored@[b]).1,
            out@.to_multiset() == scored@.take(i as int).to_multiset(),
            ranked(out@),
            forall|k: int|
                0 <= k < out@.len() ==> exists|a: int| 0 <= a < i && (#[trigger] out@[k]) == scored@[a],
        decreases scored.len() - i,
    {
        let x = scored[i];
        // the first position whose entry ranks after x
        let mut p: usize = 0;
        while p < out.len() && out[p].0 >= x.0
            invariant
                p <= out.len(),
                forall|k: int| 0 <= k < p ==> (#[trigger] out@[k]).0 >= x.0,
            decreases out.len() - p,
        {
            p = p + 1;
        }
        proof {
            assert forall|k: int| 0 <= k < p implies ranks_before(#[trigger] out@[k], x) by {
                let a = choose|a: int| 0 <= a < i && out@[k] == scored@[a];
                assert(scored@[a].1 < scored@[i as int].1);
            }
            assert forall|k: int| p <= k < out@.len() implies ranks_before(x, #[trigger] out@[k]) by {
                assert(out@[p as int].0 < x.0);
                if k > p {
                    assert(ranks_before(out@[p as int], out@[k]));
                }
            }
        }
        let ghost before = out@;
        out.insert(p, x);
        proof {
            assert(scored@.take(i + 1) =~= scored@.take(i as int).push(x));
            assert forall|a: int, b: int| 0 <= a < b < out@.len() implies ranks_before(
                #[trigger] out@[a],
                #[trigger] out@[b],
            ) by {
                if b < p {
                    assert(out@[a] == before[a] && out@[b] == before[b]);
                } else if b == p {
                    assert(out@[a] == before[a]);
                } else if a == p {
                    assert(out@[b] == before[b - 1]);
                } else if a < p {
                    assert(out@[a] == before[a] && out@[b] == before[b - 1]);
                } else {
                    assert(out@[a] == before[a - 1] && out@[b] == before[b - 1]);
                }
            }
            assert forall|k: int| 0 <= k < out@.len() implies exists|a: int|
                0 <= a < i + 1 && (#[trigger] out@[k]) == scored@[a] by {
                if k < p {
                    assert(out@[k] == before[k]);
                } else if k == p {
                    assert(out@[k] == scored@[i as int]);
                } else {
                    assert(out@[k] == before[k - 1]);
                }
            }
        }
        i = i + 1;
    }
    assert(scored@.take(scored.len() as int) =~= scored@);
    out
}

/// The matches of `query` among the entries, as (score, index) in entry order.
pub open spec fn scored_entries(labels: Seq<Seq<char>>, query: Seq<char>) -> Seq<(i64, usize)>
    decreases labels.len(),
{
    if labels.len() == 0 {
        seq![]
    } else {
        let prev = scored_entries(labels.drop_last(), query);
        match spec_fuzzy_score(labels.last(), query) {
            Some(s) => prev.push((s, (labels.len() - 1) as usize)),
            None => prev,
        }
    }
}

proof fn lemma_scored_indices(labels: Seq<Seq<char>>, query: Seq<char>)
    requires
        labels.len() <= usize::MAX,
    ensures
        forall|k: int|
            0 <= k < scored_entries(labels, query).len() ==> (#[trigger] scored_entries(labels, query)[k]).1
                < labels.len() && spec_fuzzy_score(labels[scored_entries(labels, query)[k].1 as int], query)
                == Some(scored_entries(labels, query)[k].0),
        forall|a: int, b: int|
            0 <= a < b < scored_entries(labels, query).len() ==> (#[trigger] scored_entries(
                labels,
                query,
            )[a]).1 < (#[trigger] scored_entries(labels, query)[b]).1,
    decreases labels.len(),
{
    if labels.len() > 0 {
        let p = labels.drop_last();
        lemma_scored_indices(p, query);
        let sp = scored_entries(p, query);
        let s = scored_entries(labels, query);
        assert forall|k: int| 0 <= k < sp.len() implies labels[(#[trigger] sp[k]).1 as int] == p[sp[k].1 as int] by {}
        match spec_fuzzy_score(labels.last(), query) {
            Some(sc) => {
                assert(s == sp.push((sc, (labels.len() - 1) as usize)));
                assert forall|k: int| 0 <= k < s.len() implies (#[trigger] s[k]).1 < labels.len()
                    && spec_fuzzy_score(labels[s[k].1 as int], query) == Some(s[k].0) by {
                    if k < sp.len() {
                        assert(s[k] == sp[k]);
                    } else {
                        assert(s[k] == (sc, (labels.len() - 1) as usize));
                        assert(labels[labels.len() - 1] == labels.last());
                    }
                }
                assert forall|a: int, b: int| 0 <= a < b < s.len() implies (#[trigger] s[a]).1 < (
                #[trigger] s[b]).1 by {
                    assert(s[a] == sp[a]);
                    assert(sp[a].1 < p.len());
                    if b < sp.len() {
                        assert(s[b] == sp[b]);
                    }
                }
            },
            None => {
                assert(s == sp);
            },
        }
    }
}

/// The labels of a list of entries.
pub open spec fn labels_of(v: Seq<SearchResult>) -> Seq<Seq<char>> {
    v.map_values(|r: SearchResult| r.label@)
}

fn copy_result(r: &SearchResult) -> (c: SearchResult)
    ensures
        result_view(c) == result_view(*r),
{
    SearchResult {
        label: r.label.clone(),
        category: r.category.clone(),
        course_id: r.course_id,
        item_id: r.item_id,
    }
}

/// `r` is what searching `all` for `query` shows: everything when the query
/// is empty, else the matching entries ranked by score, best first, ties in
/// entry order.
pub open spec fn is_search_outcome(
    all: Seq<(Seq<char>, Seq<char>, Option<i64>, Option<i64>)>,
    query: Seq<char>,
    r: Seq<SearchResult>,
) -> bool {
    &&& query.len() == 0 ==> results_view(r) == all
    &&& query.len() > 0 ==> exists|order: Seq<(i64, usize)>|
        {
            &&& order.to_multiset() == scored_entries(view_labels(all), query).to_multiset()
            &&& ranked(order)
            &&& order.len() == r.len()
            &&& forall|k: int|
                0 <= k < order.len() ==> (#[trigger] order[k]).1 < all.len() && result_view(r[k])
                    == all[order[k].1 as int]
        }
}

/// The labels of a list of entry views.
pub open spec fn view_labels(all: Seq<(Seq<char>, Seq<char>, Option<i64>, Option<i64>)>) -> Seq<Seq<char>> {
    all.map_values(|v: (Seq<char>, Seq<char>, Option<i64>, Option<i64>)| v.0)
}

/// The entries that match `query`, best first (stable among equal scores);
/// every entry when the query is empty.
pub fn search_results(all: &Vec<SearchResult>, query: &str) -> (r: Vec<SearchResult>)
    ensures
        is_search_outcome(results_view(all@), query@, r@),
{
    assert(labels_of(all@) =~= view_labels(results_view(all@)));
    if query.is_empty() {
        let mut out: Vec<SearchResult> = Vec::new();
        let mut i: usize = 0;
        while i < all.len()
            invariant
                i <= all.len(),
                out@.len() == i,
                results_view(out@) == results_view(all@.take(i as int)),
            decreases all.len() - i,
        {
            let ghost before = out@;
            out.push(copy_result(&all[i]));
            proof {
                assert forall|k: int| 0 <= k < i + 1 implies (#[trigger] results_view(out@)[k])
                    == results_view(all@.take(i + 1))[k] by {
                    if k < i {
                        assert(out@[k] == before[k]);
                        assert(results_view(before)[k] == results_view(all@.take(i as int))[k]);
                    }
                }
                assert(results_view(out@) =~= results_view(all@.take(i + 1)));
            }
            i = i + 1;
        }
        assert(all@.take(all.len() as int) =~= all@);
        return out;
    }
    let ghost labels = labels_of(all@);
    let mut scored: Vec<(i64, usize)> = Vec::new();
    let mut i: usize = 0;
    while i < all.len()
        invariant
            i <= all.len(),
            labels == labels_of(all@),
            scored@ == scored_entries(labels.take(i as int), query@),
        decreases all.len() - i,
    {
        proof {
            assert(labels.take(i + 1).drop_last() =~= labels.take(i as int));
            assert(labels.take(i + 1).last() == all@[i as int].label@);
        }
        match fuzzy_score(all[i].label.as_str(), query) {
            Some(s) => {
                scored.push((s, i));
            },
            None => {},
        }
        i = i + 1;
    }
    assert(labels.take(all.len() as int) =~= labels);
    proof {
        lemma_scored_indices(labels, query@);
    }
    let order = rank_by_score(&scored);
    let mut out: Vec<SearchResult> = Vec::new();
    let mut k: usize = 0;
    while k < order.len()
        invariant
            k <= order.len(),
            order@.to_multiset() == scored@.to_multiset(),
            scored@ == scored_entries(labels, query@),
            labels == labels_of(all@),
            forall|j: int| 0 <= j < scored@.len() ==> (#[trigger] scored@[j]).1 < labels.len(),
            out@.len() == k,
            forall|j: int|
                0 <= j < k ==> result_view(#[trigger] out@[j]) == result_view(
                    all@[order@[j].1 as int],
                ),
        decreases order.len() - k,
    {
        let idx = order[k].1;
        proof {
            vstd::seq_lib::to_multiset_contains(order@, order@[k as int]);
            vstd::seq_lib::to_multiset_contains(scored@, order@[k as int]);
            assert(order@.contains(order@[k as int]));
            let w = choose|w: int| 0 <= w < scored@.len() && scored@[w] == order@[k as int];
            assert(scored@[w].1 < labels.len());
        }
        out.push(copy_result(&all[idx]));
        k = k + 1;
    }
    proof {
        assert forall|j: int| 0 <= j < order@.len() implies (#[trigger] order@[j]).1 < all@.len() by {
            vstd::seq_lib::to_multiset_contains(order@, order@[j]);
            vstd::seq_lib::to_multiset_contains(scored@, order@[j]);
            assert(order@.contains(order@[j]));
            let w = choose|w: int| 0 <= w < scored@.len() && scored@[w] == order@[j];
        }
    }
    out
}

/// Ranking is a total, strict order on entries with distinct indices: no
/// two ranked sequences of the same entries differ.
pub proof fn law_ranking_unique(a: Seq<(i64, usize)>, b: Seq<(i64, usize)>)
    requires
        ranked(a),
        ranked(b),
        a.to_multiset() == b.to_multiset(),
    ensures
        a == b,
    decreases a.len(),
{
    vstd::seq_lib::to_multiset_len(a);
    vstd::seq_lib::to_multiset_len(b);
    if a.len() == 0 {
        assert(a =~= b);
    } else {
        vstd::seq_lib::to_multiset_contains(a, a[0]);
        vstd::seq_lib::to_multiset_contains(b, a[0]);
        vstd::seq_lib::to_multiset_contains(a, b[0]);
        vstd::seq_lib::to_multiset_contains(b, b[0]);
        assert(a.contains(a[0]));
        assert(b.contains(b[0]));
        if a[0] != b[0] {
            let j = choose|j: int| 0 <= j < b.len() && b[j] == a[0];
            let i = choose|i: int| 0 <= i < a.len() && a[i] == b[0];
            assert(ranks_before(b[0], b[j]));
            assert(ranks_before(a[0], a[i]));
        }
        vstd::seq_lib::to_multiset_remove(a, 0);
        vstd::seq_lib::to_multiset_remove(b, 0);
        assert(a.remove(0) =~= a.drop_first());
        assert(b.remove(0) =~= b.drop_first());
        let a1 = a.drop_first();
        let b1 = b.drop_first();
        assert forall|i: int, j: int| 0 <= i < j < a1.len() implies ranks_before(
            #[trigger] a1[i],
            #[trigger] a1[j],
        ) by {
            assert(a1[i] == a[i + 1] && a1[j] == a[j + 1]);
        }
        assert forall|i: int, j: int| 0 <= i < j < b1.len() implies ranks_before(
            #[trigger] b1[i],
            #[trigger] b1[j],
        ) by {
            assert(b1[i] == b[i + 1] && b1[j] == b[j + 1]);
        }
        law_ranking_unique(a1, b1);
        assert(a =~= b) by {
            assert forall|k: int| 0 <= k < a.len() implies a[k] == b[k] by {
                if k > 0 {
                    assert(a[k] == a1[k - 1] && b[k] == b1[k - 1]);
                }
            }
        }
    }
}

} // verus!

verus! {

proof fn lemma_course_entries(cs: Seq<CourseEntry>)
    ensures
        forall|i: int|
            0 <= i < cs.len() && (#[trigger] cs[i]).id is Some ==> exists|j: int|
                0 <= j < courses_entries(cs).len() && #[trigger] courses_entries(cs)[j] == (
                    match cs[i].name {
                        Some(n) => n@,
                        None => Seq::<char>::empty(),
                    },
                    "Course"@,
                    cs[i].id,
                    None::<i64>,
                ),
        forall|j: int|
            0 <= j < courses_entries(cs).len() ==> (#[trigger] courses_entries(cs)[j]).1 == "Course"@
                && courses_entries(cs)[j].3 is None,
    decreases cs.len(),
{
    if cs.len() > 0 {
        let rest = cs.drop_last();
        lemma_course_entries(rest);
        let prev = courses_entries(rest);
        let last = course_entries(cs.last());
        assert(courses_entries(cs) == prev + last);
        assert forall|i: int|
            0 <= i < cs.len() && (#[trigger] cs[i]).id is Some implies exists|j: int|
                0 <= j < courses_entries(cs).len() && #[trigger] courses_entries(cs)[j] == (
                    match cs[i].name {
                        Some(n) => n@,
                        None => Seq::<char>::empty(),
                    },
                    "Course"@,
                    cs[i].id,
                    None::<i64>,
                ) by {
            if i < cs.len() - 1 {
                assert(cs[i] == rest[i]);
                let j = choose|j: int|
                    0 <= j < prev.len() && #[trigger] prev[j] == (
                        match rest[i].name {
                            Some(n) => n@,
                            None => Seq::<char>::empty(),
                        },
                        "Course"@,
                        rest[i].id,
                        None::<i64>,
                    );
                assert(courses_entries(cs)[j] == prev[j]);
            } else {
                assert(courses_entries(cs)[prev.len() as int] == last[0]);
            }
        }
        assert forall|j: int| 0 <= j < courses_entries(cs).len() implies (#[trigger] courses_entries(
            cs,
        )[j]).1 == "Course"@ && courses_entries(cs)[j].3 is None by {
            if j < prev.len() {
                assert(courses_entries(cs)[j] == prev[j]);
            } else {
                assert(courses_entries(cs)[j] == last[j - prev.len()]);
            }
        }
    }
}

/// Each course with an id can be found in the search index by its name,
/// as a `Course` entry pointing at that course and at no item; and every
/// course entry is in the `Course` category with no item.
pub proof fn law_course_entries_point_at_their_course(cs: Seq<CourseEntry>, ds: Seq<Deadline>)
    ensures
        forall|i: int|
            0 <= i < cs.len() && (#[trigger] cs[i]).id is Some ==> exists|j: int|
                0 <= j < search_index(cs, ds).len() && #[trigger] search_index(cs, ds)[j] == (
                    match cs[i].name {
                        Some(n) => n@,
                        None => Seq::<char>::empty(),
                    },
                    "Course"@,
                    cs[i].id,
                    None::<i64>,
                ),
        forall|j: int|
            0 <= j < courses_entries(cs).len() ==> (#[trigger] search_index(cs, ds)[j]).1 == "Course"@
                && search_index(cs, ds)[j].3 is None,
{
    lemma_course_entries(cs);
    let ce = courses_entries(cs);
    assert forall|j: int| 0 <= j < ce.len() implies #[trigger] search_index(cs, ds)[j] == ce[j] by {}
    assert forall|i: int|
        0 <= i < cs.len() && (#[trigger] cs[i]).id is Some implies exists|j: int|
            0 <= j < search_index(cs, ds).len() && #[trigger] search_index(cs, ds)[j] == (
                match cs[i].name {
                    Some(n) => n@,
                    None => Seq::<char>::empty(),
                },
                "Course"@,
                cs[i].id,
                None::<i64>,
            ) by {
        let j = choose|j: int|
            0 <= j < ce.len() && #[trigger] ce[j] == (
                match cs[i].name {
                    Some(n) => n@,
                    None => Seq::<char>::empty(),
                },
                "Course"@,
                cs[i].id,
                None::<i64>,
            );
        assert(search_index(cs, ds)[j] == ce[j]);
    }
}

/// Each deadline has its own entry in the search index, after the course
/// entries and in deadline order: labelled `assignment (course)`, in the
/// `Assignment` category, pointing at the deadline's course and at its
/// assignment, so choosing it opens the course the assignment belongs to.
pub proof fn law_deadline_entries_point_at_their_course(cs: Seq<CourseEntry>, ds: Seq<Deadline>)
    ensures
        search_index(cs, ds).len() == courses_entries(cs).len() + ds.len(),
        forall|k: int|
            0 <= k < ds.len() ==> {
                let e = #[trigger] search_index(cs, ds)[courses_entries(cs).len() + k];
                &&& e.0 == ds[k].assignment_name@ + " ("@ + ds[k].course_name@ + ")"@
                &&& e.1 == "Assignment"@
                &&& e.2 == Some(ds[k].course_id)
                &&& e.3 == Some(ds[k].assignment_id)
            },
{
    let ce = courses_entries(cs);
    let de = ds.map_values(|d: Deadline| deadline_entry(d));
    assert forall|k: int| 0 <= k < ds.len() implies #[trigger] search_index(cs, ds)[ce.len() + k]
        == de[k] by {
    }
}

} // verus!
