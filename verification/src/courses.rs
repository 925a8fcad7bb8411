//! Courses: which listing a request reads, how a course is summarised, and
//! how a course query (an id, or a piece of a name or code) is resolved.

use vstd::prelude::*;

use crate::modules::{opt_view, text_or};
use crate::num::{dec_int, spec_parse_i64};
use crate::strs::{contains_seq, join_seqs, spec_to_lowercase};
use crate::types::CourseSummary;

verus! {

/// A course's term, as Canvas includes it with `include[]=term`.
#[derive(Debug, Clone)]
pub struct Term {
    pub name: Option<String>,
    pub sis_term_id: Option<String>,
}

/// A course of a Canvas course listing, with the fields this crate reads.
#[derive(Debug, Clone)]
pub struct Course {
    pub id: Option<i64>,
    pub name: Option<String>,
    pub course_code: Option<String>,
    pub workflow_state: Option<String>,
    pub term: Option<Term>,
}

/// One result from resolving a course query.
#[derive(Debug, Clone)]
pub struct ResolveMatch {
    pub id: i64,
    pub name: String,
    pub course_code: Option<String>,
}

/// A match by its view.
pub open spec fn match_view(m: ResolveMatch) -> (i64, Seq<char>, Option<Seq<char>>) {
    (m.id, m.name@, opt_view(m.course_code))
}

// ───────────────────────────── listings ─────────────────────────────

/// Which enrolments a course listing covers.
#[derive(Debug, Clone, Copy, PartialEq, Eq)]
pub enum ListFilter {
    Active,
    All,
}

/// Where a course listing comes from.
#[derive(Debug, Clone)]
pub enum CourseSource {
    /// The cached list of active enrolments.
    Active,
    /// Every enrolment whose term matches the filter.
    BySemester(String),
    /// Every enrolment, with term data.
    All,
}

/// The listing a request reads: a term filter applies only to the listing of
/// all enrolments (the cached active list carries no term data).
pub fn listing_source(filter: ListFilter, term: Option<&str>) -> (r: CourseSource)
    ensures
        filter == ListFilter::Active ==> r is Active,
        filter == ListFilter::All && term is Some ==> (r matches CourseSource::BySemester(t)
            && t@ == term->0@),
        filter == ListFilter::All && term is None ==> r is All,
{
    match (filter, term) {
        (ListFilter::Active, _) => CourseSource::Active,
        (ListFilter::All, Some(t)) => CourseSource::BySemester(crate::strs::owned(t)),
        (ListFilter::All, None) => CourseSource::All,
    }
}

/// Whether a course's term matches a semester filter: the filter, lowercased,
/// occurs in the lowercased term name or SIS term id.
pub open spec fn term_matches(term: Option<Term>, filter: Seq<char>) -> bool {
    let f = spec_to_lowercase(filter);
    match term {
        Some(t) => {
            ||| (t.name matches Some(n) && contains_seq(spec_to_lowercase(n@), f))
            ||| (t.sis_term_id matches Some(s) && contains_seq(spec_to_lowercase(s@), f))
        },
        None => false,
    }
}

/// Whether `text`, lowercased, contains `needle` (already lowercased).
fn lower_contains(text: &str, needle: &str) -> (b: bool)
    ensures
        b == contains_seq(spec_to_lowercase(text@), needle@),
{
    let l = crate::strs::to_lowercase(text);
    crate::strs::contains_str(l.as_str(), needle)
}

/// The semester filter of `cool course list --semester`.
pub fn course_in_semester(course: &Course, filter: &str) -> (b: bool)
    ensures
        b == term_matches(course.term, filter@),
{
    let f = crate::strs::to_lowercase(filter);
    match &course.term {
        Some(t) => {
            let name_hit = match &t.name {
                Some(n) => lower_contains(n.as_str(), f.as_str()),
                None => false,
            };
            let sis_hit = match &t.sis_term_id {
                Some(s) => lower_contains(s.as_str(), f.as_str()),
                None => false,
            };
            name_hit || sis_hit
        },
        None => false,
    }
}

/// An owned copy of an optional string.
pub fn copy_opt(o: &Option<String>) -> (r: Option<String>)
    ensures
        r == *o,
{
    match o {
        Some(s) => Some(s.clone()),
        None => None,
    }
}

/// An owned copy of a course.
pub fn copy_course(c: &Course) -> (r: Course)
    ensures
        r == *c,
{
    Course {
        id: c.id,
        name: copy_opt(&c.name),
        course_code: copy_opt(&c.course_code),
        workflow_state: copy_opt(&c.workflow_state),
        term: match &c.term {
            Some(t) => Some(Term { name: copy_opt(&t.name), sis_term_id: copy_opt(&t.sis_term_id) }),
            None => None,
        },
    }
}

/// The courses of a listing whose term matches a semester filter, in order.
pub open spec fn in_semester(courses: Seq<Course>, filter: Seq<char>) -> Seq<Course> {
    courses.filter(|c: Course| term_matches(c.term, filter))
}

/// Keeps the courses whose term matches a semester filter.
pub fn filter_by_semester(courses: Vec<Course>, filter: &str) -> (r: Vec<Course>)
    ensures
        r@ == in_semester(courses@, filter@),
{
    let mut r: Vec<Course> = Vec::new();
    let mut i: usize = 0;
    while i < courses.len()
        invariant
            i <= courses.len(),
            r@ == in_semester(courses@.take(i as int), filter@),
        decreases courses.len() - i,
    {
        let c = &courses[i];
        let keep = course_in_semester(c, filter);
        proof {
            crate::strs::lemma_filter_push(
                courses@.take(i as int),
                |c: Course| term_matches(c.term, filter@),
                courses@[i as int],
            );
            assert(courses@.take(i + 1) =~= courses@.take(i as int).push(courses@[i as int]));
        }
        if keep {
            r.push(copy_course(c));
        }
        i = i + 1;
    }
    assert(courses@.take(courses.len() as int) =~= courses@);
    r
}

// ───────────────────────────── summaries ─────────────────────────────

/// The name of a course's term, when the listing carried it.
pub open spec fn term_name(c: Course) -> Option<Seq<char>> {
    match c.term {
        Some(t) => opt_view(t.name),
        None => None,
    }
}

/// A summary by its view.
pub open spec fn summary_view(s: CourseSummary) -> (
    i64,
    Seq<char>,
    Option<Seq<char>>,
    Option<Seq<char>>,
) {
    (s.id, s.name@, opt_view(s.course_code), opt_view(s.term))
}

/// The summary of a course with an id: id, name (empty when absent), code and
/// term name.
pub open spec fn summary_of(c: Course) -> (i64, Seq<char>, Option<Seq<char>>, Option<Seq<char>>) {
    (c.id->0, text_or(c.name, ""@), opt_view(c.course_code), term_name(c))
}

/// The summary of a course; none for a course without an id.
pub fn course_to_summary(c: &Course) -> (r: Option<CourseSummary>)
    ensures
        r is Some <==> c.id is Some,
        r matches Some(s) ==> summary_view(s) == summary_of(*c),
{
    proof {
        reveal_strlit("");
    }
    match c.id {
        Some(id) => Some(
            CourseSummary {
                id,
                name: match &c.name {
                    Some(n) => n.clone(),
                    None => String::new(),
                },
                course_code: copy_opt(&c.course_code),
                term: match &c.term {
                    Some(t) => copy_opt(&t.name),
                    None => None,
                },
            },
        ),
        None => None,
    }
}

/// The summaries of the courses with an id, in order.
pub open spec fn summaries_of(courses: Seq<Course>) -> Seq<
    (i64, Seq<char>, Option<Seq<char>>, Option<Seq<char>>),
>
    decreases courses.len(),
{
    if courses.len() == 0 {
        seq![]
    } else {
        let prev = summaries_of(courses.drop_last());
        if courses.last().id is Some {
            prev.push(summary_of(courses.last()))
        } else {
            prev
        }
    }
}

/// The summaries of a listing (courses without an id are left out).
pub fn list_summaries(courses: &Vec<Course>) -> (r: Vec<CourseSummary>)
    ensures
        r@.map_values(|s: CourseSummary| summary_view(s)) == summaries_of(courses@),
{
    let mut r: Vec<CourseSummary> = Vec::new();
    let mut i: usize = 0;
    while i < courses.len()
        invariant
            i <= courses.len(),
            r@.map_values(|s: CourseSummary| summary_view(s)) == summaries_of(
                courses@.take(i as int),
            ),
        decreases courses.len() - i,
    {
        assert(courses@.take(i + 1).drop_last() =~= courses@.take(i as int));
        if let Some(sm) = course_to_summary(&courses[i]) {
            let ghost before = r@;
            r.push(sm);
            assert(r@.map_values(|s: CourseSummary| summary_view(s)) =~= before.map_values(
                |s: CourseSummary| summary_view(s),
            ).push(summary_view(sm)));
        }
        i = i + 1;
    }
    assert(courses@.take(courses.len() as int) =~= courses@);
    r
}

// ───────────────────────────── resolving a course query ─────────────────────────────

/// Whether a course matches a lowercased query: the query occurs in its
/// lowercased name or course code.
pub open spec fn course_hit(c: Course, q: Seq<char>) -> bool {
    ||| contains_seq(spec_to_lowercase(text_or(c.name, ""@)), q)
    ||| (c.course_code matches Some(code) && contains_seq(spec_to_lowercase(code@), q))
}

/// The courses with an id that match a lowercased query, as matches, in
/// listing order.
pub open spec fn search_matches(courses: Seq<Course>, q: Seq<char>) -> Seq<
    (i64, Seq<char>, Option<Seq<char>>),
>
    decreases courses.len(),
{
    if courses.len() == 0 {
        seq![]
    } else {
        let prev = search_matches(courses.drop_last(), q);
        let c = courses.last();
        if c.id is Some && course_hit(c, q) {
            prev.push((c.id->0, text_or(c.name, ""@), opt_view(c.course_code)))
        } else {
            prev
        }
    }
}

/// What a course query resolves to: a number is taken as a course id and
/// gives one match with an empty name; anything else is searched for,
/// case-insensitively, in the names and codes of the listed courses.
pub open spec fn resolved(query: Seq<char>, courses: Seq<Course>) -> Seq<
    (i64, Seq<char>, Option<Seq<char>>),
> {
    match spec_parse_i64(query) {
        Some(id) => seq![(id, Seq::<char>::empty(), None::<Seq<char>>)],
        None => search_matches(courses, spec_to_lowercase(query)),
    }
}

/// Resolve a course query against a listing of the active courses. A numeric
/// query needs no listing: callers may pass an empty one.
pub fn resolve(query: &str, courses: &Vec<Course>) -> (r: Vec<ResolveMatch>)
    ensures
        r@.map_values(|m: ResolveMatch| match_view(m)) == resolved(query@, courses@),
{
    if let Some(id) = crate::num::parse_i64(query) {
        let mut r: Vec<ResolveMatch> = Vec::new();
        let m = ResolveMatch { id, name: String::new(), course_code: None };
        r.push(m);
        assert(r@.map_values(|m: ResolveMatch| match_view(m)) =~= seq![
            (id, Seq::<char>::empty(), None::<Seq<char>>),
        ]);
        return r;
    }
    let q = crate::strs::to_lowercase(query);
    proof {
        reveal_strlit("");
    }
    let mut r: Vec<ResolveMatch> = Vec::new();
    let mut i: usize = 0;
    while i < courses.len()
        invariant
            i <= courses.len(),
            q@ == spec_to_lowercase(query@),
            r@.map_values(|m: ResolveMatch| match_view(m)) == search_matches(
                courses@.take(i as int),
                q@,
            ),
        decreases courses.len() - i,
    {
        let c = &courses[i];
        proof {
            reveal_strlit("");
        }
        assert(courses@.take(i + 1).drop_last() =~= courses@.take(i as int));
        assert(courses@.take(i + 1).last() == courses@[i as int]);
        if let Some(id) = c.id {
            let name = match &c.name {
                Some(n) => n.clone(),
                None => String::new(),
            };
            assert(name@ == text_or(c.name, ""@));
            let name_hit = lower_contains(name.as_str(), q.as_str());
            let code_hit = match &c.course_code {
                Some(code) => lower_contains(code.as_str(), q.as_str()),
                None => false,
            };
            assert((name_hit || code_hit) == course_hit(*c, q@));
            if name_hit || code_hit {
                let m = ResolveMatch { id, name, course_code: copy_opt(&c.course_code) };
                let ghost before = r@;
                r.push(m);
                assert(r@.map_values(|m: ResolveMatch| match_view(m)) =~= before.map_values(
                    |m: ResolveMatch| match_view(m),
                ).push(match_view(m)));
            }
        }
        i = i + 1;
    }
    assert(courses@.take(courses.len() as int) =~= courses@);
    r
}

/// The line naming one candidate of an ambiguous query: `  <id> - <name>`.
pub open spec fn candidate_line(m: (i64, Seq<char>, Option<Seq<char>>)) -> Seq<char> {
    "  "@ + dec_int(m.0 as int) + " - "@ + m.1
}

/// Exactly one match gives its id; none, or several, is an error naming the
/// query (and, for several, listing the candidates).
pub open spec fn one_of(query: Seq<char>, ms: Seq<(i64, Seq<char>, Option<Seq<char>>)>) -> Result<
    i64,
    Seq<char>,
> {
    if ms.len() == 0 {
        Err("No course matching '"@ + query + "'"@)
    } else if ms.len() == 1 {
        Ok(ms[0].0)
    } else {
        Err(
            "Ambiguous course query '"@ + query + "'. Candidates:\n"@ + join_seqs(
                ms.map_values(|m: (i64, Seq<char>, Option<Seq<char>>)| candidate_line(m)),
                "\n"@,
            ) + "\n\nSpecify the course ID."@,
        )
    }
}

/// A result with a string error, by its view.
pub open spec fn result_view(r: Result<i64, String>) -> Result<i64, Seq<char>> {
    match r {
        Ok(id) => Ok(id),
        Err(e) => Err(e@),
    }
}

/// Resolve to exactly one course id: errors on no match and on several.
pub fn resolve_one(query: &str, matches: &Vec<ResolveMatch>) -> (r: Result<i64, String>)
    ensures
        result_view(r) == one_of(query@, matches@.map_values(|m: ResolveMatch| match_view(m))),
{
    let ghost ms = matches@.map_values(|m: ResolveMatch| match_view(m));
    if matches.len() == 0 {
        let mut e = crate::strs::owned("No course matching '");
        crate::strs::push_str(&mut e, query);
        crate::strs::push_str(&mut e, "'");
        return Err(e);
    }
    if matches.len() == 1 {
        return Ok(matches[0].id);
    }
    let mut lines: Vec<String> = Vec::new();
    let mut i: usize = 0;
    while i < matches.len()
        invariant
            i <= matches.len(),
            ms == matches@.map_values(|m: ResolveMatch| match_view(m)),
            lines@.map_values(|l: String| l@) == ms.take(i as int).map_values(
                |m: (i64, Seq<char>, Option<Seq<char>>)| candidate_line(m),
            ),
        decreases matches.len() - i,
    {
        let mut l = crate::strs::owned("  ");
        crate::num::push_dec_i64(&mut l, matches[i].id);
        crate::strs::push_str(&mut l, " - ");
        crate::strs::push_str(&mut l, matches[i].name.as_str());
        let ghost before = lines@;
        lines.push(l);
        assert(lines@.map_values(|l: String| l@) =~= before.map_values(|l: String| l@).push(l@));
        assert(ms.take(i + 1).map_values(|m: (i64, Seq<char>, Option<Seq<char>>)| candidate_line(m))
            =~= ms.take(i as int).map_values(
            |m: (i64, Seq<char>, Option<Seq<char>>)| candidate_line(m),
        ).push(candidate_line(ms[i as int])));
        i = i + 1;
    }
    assert(ms.take(matches.len() as int) =~= ms);
    let listing = crate::strs::join_strings(&lines, "\n");
    assert(lines@.map_values(|l: String| l@) == ms.map_values(
        |m: (i64, Seq<char>, Option<Seq<char>>)| candidate_line(m),
    ));
    let mut e = crate::strs::owned("Ambiguous course query '");
    crate::strs::push_str(&mut e, query);
    crate::strs::push_str(&mut e, "'. Candidates:\n");
    crate::strs::push_str(&mut e, listing.as_str());
    crate::strs::push_str(&mut e, "\n\nSpecify the course ID.");
    Err(e)
}

/// The lengths a match's score is computed from: the number of characters of
/// the lowercased query, and of the longer of the match's lowercased name and
/// code.
pub open spec fn score_lengths(query: Seq<char>, m: (i64, Seq<char>, Option<Seq<char>>)) -> (
    nat,
    nat,
) {
    let n = spec_to_lowercase(m.1).len();
    let c = match m.2 {
        Some(code) => spec_to_lowercase(code).len(),
        None => 0,
    };
    (spec_to_lowercase(query).len(), if n >= c {
        n
    } else {
        c
    })
}

/// The lengths a match's score is computed from (see `score_lengths`).
pub fn match_score_lengths(query: &str, m: &ResolveMatch) -> (r: (usize, usize))
    ensures
        (r.0 as nat, r.1 as nat) == score_lengths(query@, match_view(*m)),
{
    let q = crate::strs::chars_of(crate::strs::to_lowercase(query).as_str());
    let n = crate::strs::chars_of(crate::strs::to_lowercase(m.name.as_str()).as_str());
    let c: usize = match &m.course_code {
        Some(code) => crate::strs::chars_of(crate::strs::to_lowercase(code.as_str()).as_str()).len(),
        None => 0,
    };
    (q.len(), if n.len() >= c {
        n.len()
    } else {
        c
    })
}

// ───────────────────────────── printing ─────────────────────────────

/// Whether `cool course list` shows the term column.
pub fn shows_term(all: bool, semester: &Option<String>) -> (b: bool)
    ensures
        b == (all || semester is Some),
{
    all || semester.is_some()
}

/// The id column: the id, or empty.
pub open spec fn id_text(id: Option<i64>) -> Seq<char> {
    match id {
        Some(i) => dec_int(i as int),
        None => ""@,
    }
}

/// One row of `cool course list`: id, code, name and, when shown, the term
/// name (`-` when unknown).
pub open spec fn course_row(c: Course, show_term: bool) -> Seq<Seq<char>> {
    let base = seq![id_text(c.id), text_or(c.course_code, ""@), text_or(c.name, ""@)];
    if show_term {
        base.push(
            match term_name(c) {
                Some(t) => t,
                None => "-"@,
            },
        )
    } else {
        base
    }
}

/// The id column of a row.
fn id_text_of(id: Option<i64>) -> (r: String)
    ensures
        r@ == id_text(id),
{
    proof {
        reveal_strlit("");
    }
    match id {
        Some(i) => crate::num::i64_to_string(i),
        None => String::new(),
    }
}

/// One row of `cool course list`.
pub fn course_table_row(c: &Course, show_term: bool) -> (r: Vec<String>)
    ensures
        r@.map_values(|s: String| s@) == course_row(*c, show_term),
{
    proof {
        reveal_strlit("");
    }
    let a = id_text_of(c.id);
    let b = match &c.course_code {
        Some(s) => s.clone(),
        None => String::new(),
    };
    let n = match &c.name {
        Some(s) => s.clone(),
        None => String::new(),
    };
    let mut r: Vec<String> = Vec::new();
    r.push(a);
    r.push(b);
    r.push(n);
    assert(r@.map_values(|s: String| s@) =~= seq![a@, b@, n@]);
    assert(a@ == id_text(c.id));
    assert(b@ == text_or(c.course_code, ""@));
    assert(n@ == text_or(c.name, ""@));
    if show_term {
        let t = match &c.term {
            Some(t) => match &t.name {
                Some(n) => n.clone(),
                None => crate::strs::owned("-"),
            },
            None => crate::strs::owned("-"),
        };
        r.push(t);
        assert(t@ == match term_name(*c) {
            Some(t) => t,
            None => "-"@,
        });
        assert(r@.map_values(|s: String| s@) =~= seq![a@, b@, n@, t@]);
    }
    r
}

/// The lines of `cool course info`.
pub open spec fn info_lines(c: Course) -> Seq<Seq<char>> {
    seq![
        "ID:          "@ + id_text(c.id),
        "Name:        "@ + text_or(c.name, "(unknown)"@),
        "Course Code: "@ + text_or(c.course_code, "(unknown)"@),
        "State:       "@ + text_or(c.workflow_state, "(unknown)"@),
    ]
}

/// `label` followed by `value`, or by `dflt` when absent.
fn labelled(label: &str, value: &Option<String>, dflt: &str) -> (r: String)
    ensures
        r@ == label@ + text_or(*value, dflt@),
{
    let mut r = crate::strs::owned(label);
    match value {
        Some(v) => crate::strs::push_str(&mut r, v.as_str()),
        None => crate::strs::push_str(&mut r, dflt),
    }
    r
}

/// The lines of `cool course info`.
pub fn course_info_lines(c: &Course) -> (r: Vec<String>)
    ensures
        r@.map_values(|s: String| s@) == info_lines(*c),
{
    let mut r: Vec<String> = Vec::new();
    let mut id_line = crate::strs::owned("ID:          ");
    let id = id_text_of(c.id);
    crate::strs::push_str(&mut id_line, id.as_str());
    r.push(id_line);
    r.push(labelled("Name:        ", &c.name, "(unknown)"));
    r.push(labelled("Course Code: ", &c.course_code, "(unknown)"));
    r.push(labelled("State:       ", &c.workflow_state, "(unknown)"));
    assert(r@.map_values(|s: String| s@) =~= info_lines(*c));
    r
}

// ───────────────────────────── grades ─────────────────────────────

/// The course an enrolment's grades are reported for: its course id, when
/// it has one and it passes the course filter.
pub fn graded_course(course_id: Option<i64>, filter: Option<i64>) -> (r: Option<i64>)
    ensures
        r == match course_id {
            Some(c) => match filter {
                Some(f) => if c == f {
                    Some(c)
                } else {
                    None
                },
                None => Some(c),
            },
            None => None,
        },
{
    match course_id {
        Some(c) => match filter {
            Some(f) => if c == f {
                Some(c)
            } else {
                None
            },
            None => Some(c),
        },
        None => None,
    }
}

/// The name of the first summary with id `id`, if any.
pub fn course_name_for(summaries: &Vec<CourseSummary>, id: i64) -> (r: Option<String>)
    ensures
        match r {
            Some(n) => exists|i: int|
                0 <= i < summaries@.len() && summaries@[i].id == id && summaries@[i].name@ == n@
                    && forall|j: int| 0 <= j < i ==> summaries@[j].id != id,
            None => forall|i: int| 0 <= i < summaries@.len() ==> summaries@[i].id != id,
        },
{
    let mut i: usize = 0;
    while i < summaries.len()
        invariant
            i <= summaries.len(),
            forall|j: int| 0 <= j < i ==> summaries@[j].id != id,
        decreases summaries.len() - i,
    {
        if summaries[i].id == id {
            return Some(summaries[i].name.clone());
        }
        i = i + 1;
    }
    None
}

} // verus!

verus! {

/// Which listed courses `search_matches` keeps, with their ids.
proof fn lemma_search_matches(courses: Seq<Course>, q: Seq<char>)
    ensures
        forall|i: int|
            0 <= i < courses.len() && (#[trigger] courses[i]).id is Some && course_hit(courses[i], q)
                ==> exists|k: int|
                0 <= k < search_matches(courses, q).len() && (#[trigger] search_matches(courses, q)[k]).0
                    == courses[i].id->0,
    decreases courses.len(),
{
    if courses.len() > 0 {
        let rest = courses.drop_last();
        lemma_search_matches(rest, q);
        let prev = search_matches(rest, q);
        assert forall|i: int|
            0 <= i < courses.len() && (#[trigger] courses[i]).id is Some && course_hit(courses[i], q)
                implies exists|k: int|
            0 <= k < search_matches(courses, q).len() && (#[trigger] search_matches(courses, q)[k]).0
                == courses[i].id->0 by {
            if i < courses.len() - 1 {
                assert(courses[i] == rest[i]);
                let k = choose|k: int| 0 <= k < prev.len() && (#[trigger] prev[k]).0 == rest[i].id->0;
                assert(search_matches(courses, q)[k] == prev[k]);
            } else {
                let m = search_matches(courses, q);
                assert(m[m.len() - 1].0 == courses[i].id->0);
            }
        }
    }
}

/// A number is taken as a course id without looking at the listing: it
/// resolves to exactly that id, whatever courses are listed.
pub proof fn law_numeric_query_is_an_id(q: Seq<char>, id: i64, a: Seq<Course>, b: Seq<Course>)
    requires
        spec_parse_i64(q) == Some(id),
    ensures
        resolved(q, a) == resolved(q, b),
        resolved(q, a).len() == 1,
        resolved(q, a)[0].0 == id,
{
}

/// Resolving is case-insensitive in the query: two queries that are not
/// numbers and lower-case alike resolve alike; and a listed course with an
/// id whose lower-cased name or code holds the lower-cased query is among
/// the matches (so `Calculus` finds `Calculus (1)`).
pub proof fn law_resolve_ignores_query_case(q1: Seq<char>, q2: Seq<char>, courses: Seq<Course>)
    requires
        spec_parse_i64(q1) is None,
        spec_parse_i64(q2) is None,
        spec_to_lowercase(q1) == spec_to_lowercase(q2),
    ensures
        resolved(q1, courses) == resolved(q2, courses),
        forall|i: int|
            0 <= i < courses.len() && (#[trigger] courses[i]).id is Some && (contains_seq(
                spec_to_lowercase(text_or(courses[i].name, ""@)),
                spec_to_lowercase(q1),
            ) || (courses[i].course_code is Some && contains_seq(
                spec_to_lowercase(courses[i].course_code->0@),
                spec_to_lowercase(q1),
            ))) ==> exists|k: int|
                0 <= k < resolved(q1, courses).len() && (#[trigger] resolved(q1, courses)[k]).0
                    == courses[i].id->0,
{
    let q = spec_to_lowercase(q1);
    lemma_search_matches(courses, q);
    assert(resolved(q1, courses) == search_matches(courses, q));
    assert forall|i: int|
        0 <= i < courses.len() && (#[trigger] courses[i]).id is Some && (contains_seq(
            spec_to_lowercase(text_or(courses[i].name, ""@)),
            q,
        ) || (courses[i].course_code is Some && contains_seq(
            spec_to_lowercase(courses[i].course_code->0@),
            q,
        ))) implies exists|k: int|
        0 <= k < resolved(q1, courses).len() && (#[trigger] resolved(q1, courses)[k]).0
            == courses[i].id->0 by {
        assert(course_hit(courses[i], q));
        let k = choose|k: int|
            0 <= k < search_matches(courses, q).len() && (#[trigger] search_matches(courses, q)[k]).0
                == courses[i].id->0;
        assert(resolved(q1, courses)[k] == search_matches(courses, q)[k]);
    }
}

} // verus!
