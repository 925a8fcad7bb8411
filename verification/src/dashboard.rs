//! The TUI dashboard's data: its courses, ordered by name, and the upcoming
//! deadlines gathered from their assignments, ordered by due date.

use vstd::prelude::*;

use crate::assignments::{is_before, ts_before, Timestamp};
use crate::modules::text_or;
use crate::tui_app::{CourseEntry, Deadline};

verus! {

// ───────────────────────────── stable orders ─────────────────────────────

/// `order` lists each of `0..n` once.
pub open spec fn is_permutation(order: Seq<usize>, n: int) -> bool {
    &&& order.len() == n
    &&& forall|i: int| 0 <= i < order.len() ==> (#[trigger] order[i]) < n
    &&& forall|i: int, j: int| 0 <= i < j < order.len() ==> #[trigger] order[i] != #[trigger] order[j]
}

/// Timestamp `a` comes strictly before `b`, or they are equal and index `i`
/// comes before `j`.
pub open spec fn time_rank_before(a: Timestamp, i: usize, b: Timestamp, j: usize) -> bool {
    ts_before(a, b) || (a == b && i < j)
}

/// The positions of `keys` ordered by time; equal times keep their order.
pub fn stable_time_order(keys: &Vec<Timestamp>) -> (order: Vec<usize>)
    ensures
        is_permutation(order@, keys@.len() as int),
        forall|i: int, j: int|
            0 <= i < j < order@.len() ==> time_rank_before(
                keys@[order@[i] as int],
                #[trigger] order@[i],
                keys@[order@[j] as int],
                #[trigger] order@[j],
            ),
{
    let mut order: Vec<usize> = Vec::new();
    let mut idx: usize = 0;
    while idx < keys.len()
        invariant
            idx <= keys.len(),
            order@.len() == idx,
            forall|k: int| 0 <= k < order@.len() ==> (#[trigger] order@[k]) < idx,
            forall|a: int, b: int|
                0 <= a < b < order@.len() ==> #[trigger] order@[a] != #[trigger] order@[b],
            forall|a: int, b: int|
                0 <= a < b < order@.len() ==> time_rank_before(
                    keys@[order@[a] as int],
                    #[trigger] order@[a],
                    keys@[order@[b] as int],
                    #[trigger] order@[b],
                ),
        decreases keys.len() - idx,
    {
        let x = keys[idx];
        let mut p: usize = 0;
        while p < order.len() && !is_before(x, keys[order[p]])
            invariant
                p <= order@.len(),
                idx < keys.len(),
                forall|k: int| 0 <= k < order@.len() ==> (#[trigger] order@[k]) < idx,
                forall|k: int| 0 <= k < p ==> !ts_before(x, #[trigger] keys@[order@[k] as int]),
            decreases order@.len() - p,
        {
            p = p + 1;
        }
        let ghost before = order@;
        proof {
            assert forall|k: int| 0 <= k < p implies time_rank_before(
                keys@[before[k] as int],
                #[trigger] before[k],
                x,
                idx,
            ) by {
                let y = keys@[before[k] as int];
                if !ts_before(y, x) {
                    assert(y == x);
                }
            }
            assert forall|k: int| p <= k < before.len() implies time_rank_before(
                x,
                idx,
                keys@[before[k] as int],
                #[trigger] before[k],
            ) by {
                assert(ts_before(x, keys@[before[p as int] as int]));
                if k > p {
                    assert(time_rank_before(
                        keys@[before[p as int] as int],
                        before[p as int],
                        keys@[before[k] as int],
                        before[k],
                    ));
                }
            }
        }
        order.insert(p, idx);
        proof {
            assert forall|a: int, b: int| 0 <= a < b < order@.len() implies time_rank_before(
                keys@[order@[a] as int],
                #[trigger] order@[a],
                keys@[order@[b] as int],
                #[trigger] order@[b],
            ) by {
                if b < p {
                    assert(order@[a] == before[a] && order@[b] == before[b]);
                } else if b == p {
                    assert(order@[a] == before[a]);
                } else if a == p {
                    assert(order@[b] == before[b - 1]);
                } else if a < p {
                    assert(order@[a] == before[a] && order@[b] == before[b - 1]);
                } else {
                    assert(order@[a] == before[a - 1] && order@[b] == before[b - 1]);
                }
            }
            assert forall|a: int, b: int| 0 <= a < b < order@.len() implies #[trigger] order@[a]
                != #[trigger] order@[b] by {
                if b < p {
                    assert(order@[a] == before[a] && order@[b] == before[b]);
                } else if b == p {
                    assert(order@[a] == before[a]);
                } else if a == p {
                    assert(order@[b] == before[b - 1]);
                } else if a < p {
                    assert(order@[a] == before[a] && order@[b] == before[b - 1]);
                } else {
                    assert(order@[a] == before[a - 1] && order@[b] == before[b - 1]);
                }
            }
            assert forall|k: int| 0 <= k < order@.len() implies (#[trigger] order@[k]) < idx + 1 by {
                if k < p {
                    assert(order@[k] == before[k]);
                } else if k > p {
                    assert(order@[k] == before[k - 1]);
                }
            }
        }
        idx = idx + 1;
    }
    order
}

/// `a` sorts strictly before `b` as `str`'s `Ord` sorts: lexicographically
/// by character (which is the order of their UTF-8 bytes), a proper prefix
/// first.
pub open spec fn chars_lt(a: Seq<char>, b: Seq<char>) -> bool
    decreases a.len(),
{
    if a.len() == 0 {
        b.len() > 0
    } else if b.len() == 0 {
        false
    } else if (a[0] as int) < (b[0] as int) {
        true
    } else if a[0] == b[0] {
        chars_lt(a.drop_first(), b.drop_first())
    } else {
        false
    }
}

/// No text sorts before itself.
proof fn lemma_chars_lt_irrefl(a: Seq<char>)
    ensures
        !chars_lt(a, a),
    decreases a.len(),
{
    if a.len() > 0 {
        lemma_chars_lt_irrefl(a.drop_first());
    }
}

/// Of two texts, one sorts before the other unless they are equal.
proof fn lemma_chars_lt_total(a: Seq<char>, b: Seq<char>)
    ensures
        chars_lt(a, b) || chars_lt(b, a) || a == b,
        !(chars_lt(a, b) && chars_lt(b, a)),
    decreases a.len(),
{
    if a.len() > 0 && b.len() > 0 {
        lemma_chars_lt_total(a.drop_first(), b.drop_first());
        if a[0] != b[0] {
            assert((a[0] as int) != (b[0] as int));
        }
        if a[0] == b[0] && a.drop_first() == b.drop_first() {
            assert forall|i: int| 0 <= i < a.len() implies a[i] == b[i] by {
                if i > 0 {
                    assert(a[i] == a.drop_first()[i - 1]);
                    assert(b[i] == b.drop_first()[i - 1]);
                }
            }
            assert(a =~= b);
        }
    } else if a.len() == 0 && b.len() == 0 {
        assert(a =~= b);
    }
}

/// The order of texts is transitive.
proof fn lemma_chars_lt_trans(a: Seq<char>, b: Seq<char>, c: Seq<char>)
    requires
        chars_lt(a, b),
        chars_lt(b, c),
    ensures
        chars_lt(a, c),
    decreases a.len(),
{
    if a.len() > 0 && b.len() > 0 && c.len() > 0 && a[0] == b[0] && b[0] == c[0] {
        lemma_chars_lt_trans(a.drop_first(), b.drop_first(), c.drop_first());
    }
}

/// Whether `a` sorts strictly before `b` (see `chars_lt`).
pub fn str_lt(a: &str, b: &str) -> (r: bool)
    ensures
        r == chars_lt(a@, b@),
{
    let x = crate::strs::chars_of(a);
    let y = crate::strs::chars_of(b);
    let mut i: usize = 0;
    assert(x@.skip(0) =~= x@);
    assert(y@.skip(0) =~= y@);
    while i < x.len() && i < y.len() && x[i] == y[i]
        invariant
            i <= x.len(),
            i <= y.len(),
            chars_lt(x@, y@) == chars_lt(x@.skip(i as int), y@.skip(i as int)),
        decreases x.len() - i,
    {
        assert(x@.skip(i as int).drop_first() =~= x@.skip(i + 1));
        assert(y@.skip(i as int).drop_first() =~= y@.skip(i + 1));
        i = i + 1;
    }
    if i == x.len() {
        i < y.len()
    } else if i == y.len() {
        false
    } else {
        x[i] < y[i]
    }
}

/// Name `a` sorts strictly before `b`, or they are equal and index `i`
/// comes before `j`.
pub open spec fn name_rank_before(a: Seq<char>, i: usize, b: Seq<char>, j: usize) -> bool {
    chars_lt(a, b) || (a == b && i < j)
}

/// The positions of `keys` ordered by name; equal names keep their order.
pub fn stable_name_order(keys: &Vec<String>) -> (order: Vec<usize>)
    ensures
        is_permutation(order@, keys@.len() as int),
        forall|i: int, j: int|
            0 <= i < j < order@.len() ==> name_rank_before(
                keys@[order@[i] as int]@,
                #[trigger] order@[i],
                keys@[order@[j] as int]@,
                #[trigger] order@[j],
            ),
{
    let mut order: Vec<usize> = Vec::new();
    let mut idx: usize = 0;
    while idx < keys.len()
        invariant
            idx <= keys.len(),
            order@.len() == idx,
            forall|k: int| 0 <= k < order@.len() ==> (#[trigger] order@[k]) < idx,
            forall|a: int, b: int|
                0 <= a < b < order@.len() ==> #[trigger] order@[a] != #[trigger] order@[b],
            forall|a: int, b: int|
                0 <= a < b < order@.len() ==> name_rank_before(
                    keys@[order@[a] as int]@,
                    #[trigger] order@[a],
                    keys@[order@[b] as int]@,
                    #[trigger] order@[b],
                ),
        decreases keys.len() - idx,
    {
        let x = keys[idx].as_str();
        let mut p: usize = 0;
        while p < order.len() && !str_lt(x, keys[order[p]].as_str())
            invariant
                p <= order@.len(),
                idx < keys.len(),
                x@ == keys@[idx as int]@,
                forall|k: int| 0 <= k < order@.len() ==> (#[trigger] order@[k]) < idx,
                forall|k: int|
                    0 <= k < p ==> !chars_lt(x@, #[trigger] keys@[order@[k] as int]@),
            decreases order@.len() - p,
        {
            p = p + 1;
        }
        let ghost before = order@;
        proof {
            assert forall|k: int| 0 <= k < p implies name_rank_before(
                keys@[before[k] as int]@,
                #[trigger] before[k],
                x@,
                idx,
            ) by {
                lemma_chars_lt_total(keys@[before[k] as int]@, x@);
            }
            lemma_chars_lt_irrefl(x@);
            assert forall|k: int| p <= k < before.len() implies name_rank_before(
                x@,
                idx,
                keys@[before[k] as int]@,
                #[trigger] before[k],
            ) by {
                let yp = keys@[before[p as int] as int]@;
                let yk = keys@[before[k] as int]@;
                assert(chars_lt(x@, yp));
                if k > p {
                    assert(name_rank_before(yp, before[p as int], yk, before[k]));
                    if chars_lt(yp, yk) {
                        lemma_chars_lt_trans(x@, yp, yk);
                    }
                }
            }
        }
        order.insert(p, idx);
        proof {
            assert forall|a: int, b: int| 0 <= a < b < order@.len() implies name_rank_before(
                keys@[order@[a] as int]@,
                #[trigger] order@[a],
                keys@[order@[b] as int]@,
                #[trigger] order@[b],
            ) by {
                if b < p {
                    assert(order@[a] == before[a] && order@[b] == before[b]);
                } else if b == p {
                    assert(order@[a] == before[a]);
                } else if a == p {
                    assert(order@[b] == before[b - 1]);
                } else if a < p {
                    assert(order@[a] == before[a] && order@[b] == before[b - 1]);
                } else {
                    assert(order@[a] == before[a - 1] && order@[b] == before[b - 1]);
                }
            }
            assert forall|a: int, b: int| 0 <= a < b < order@.len() implies #[trigger] order@[a]
                != #[trigger] order@[b] by {
                if b < p {
                    assert(order@[a] == before[a] && order@[b] == before[b]);
                } else if b == p {
                    assert(order@[a] == before[a]);
                } else if a == p {
                    assert(order@[b] == before[b - 1]);
                } else if a < p {
                    assert(order@[a] == before[a] && order@[b] == before[b - 1]);
                } else {
                    assert(order@[a] == before[a - 1] && order@[b] == before[b - 1]);
                }
            }
            assert forall|k: int| 0 <= k < order@.len() implies (#[trigger] order@[k]) < idx + 1 by {
                if k < p {
                    assert(order@[k] == before[k]);
                } else if k > p {
                    assert(order@[k] == before[k - 1]);
                }
            }
        }
        idx = idx + 1;
    }
    order
}

// ───────────────────────────── dashboard data ─────────────────────────────

/// An owned copy of a dashboard course.
fn copy_entry(c: &CourseEntry) -> (r: CourseEntry)
    ensures
        r == *c,
{
    CourseEntry {
        id: c.id,
        name: crate::courses::copy_opt(&c.name),
        course_code: crate::courses::copy_opt(&c.course_code),
    }
}

/// The name a course sorts by (empty when absent).
pub open spec fn sort_name(c: CourseEntry) -> Seq<char> {
    text_or(c.name, ""@)
}

/// The dashboard's courses, ordered by name; courses with equal names keep
/// their order.
pub fn sort_courses(courses: &Vec<CourseEntry>) -> (r: Vec<CourseEntry>)
    ensures
        exists|order: Seq<usize>|
            #![trigger is_permutation(order, courses@.len() as int)]
            {
                &&& is_permutation(order, courses@.len() as int)
                &&& forall|i: int, j: int|
                    0 <= i < j < order.len() ==> name_rank_before(
                        sort_name(courses@[order[i] as int]),
                        #[trigger] order[i],
                        sort_name(courses@[order[j] as int]),
                        #[trigger] order[j],
                    )
                &&& r@.len() == order.len()
                &&& forall|k: int| 0 <= k < r@.len() ==> #[trigger] r@[k] == courses@[order[k] as int]
            },
{
    proof {
        reveal_strlit("");
    }
    let mut names: Vec<String> = Vec::new();
    let mut i: usize = 0;
    while i < courses.len()
        invariant
            i <= courses.len(),
            names@.len() == i,
            forall|k: int| 0 <= k < i ==> (#[trigger] names@[k])@ == sort_name(courses@[k]),
        decreases courses.len() - i,
    {
        proof {
            reveal_strlit("");
        }
        names.push(
            match &courses[i].name {
                Some(n) => n.clone(),
                None => String::new(),
            },
        );
        i = i + 1;
    }
    let order = stable_name_order(&names);
    let mut r: Vec<CourseEntry> = Vec::new();
    let mut k: usize = 0;
    while k < order.len()
        invariant
            k <= order.len(),
            is_permutation(order@, courses@.len() as int),
            names@.len() == courses@.len(),
            r@.len() == k,
            forall|m: int| 0 <= m < k ==> #[trigger] r@[m] == courses@[order@[m] as int],
        decreases order.len() - k,
    {
        r.push(copy_entry(&courses[order[k]]));
        k = k + 1;
    }
    proof {
        assert forall|i: int, j: int| 0 <= i < j < order@.len() implies name_rank_before(
            sort_name(courses@[order@[i] as int]),
            #[trigger] order@[i],
            sort_name(courses@[order@[j] as int]),
            #[trigger] order@[j],
        ) by {
            assert(names@[order@[i] as int]@ == sort_name(courses@[order@[i] as int]));
            assert(names@[order@[j] as int]@ == sort_name(courses@[order@[j] as int]));
        }
        assert(is_permutation(order@, courses@.len() as int));
    }
    r
}

/// An assignment, as the deadline list reads it.
#[derive(Debug, Clone)]
pub struct AssignmentDue {
    pub id: Option<i64>,
    pub name: Option<String>,
    pub due_at: Option<Timestamp>,
    pub has_submitted: Option<bool>,
}

/// A course with the assignments fetched for it (none when fetching them
/// failed).
#[derive(Debug, Clone)]
pub struct CourseAssignments {
    pub id: Option<i64>,
    pub name: Option<String>,
    pub assignments: Option<Vec<AssignmentDue>>,
}

/// A deadline by its view: course name and id, assignment name and id, due
/// date, submitted.
pub open spec fn deadline_view(d: Deadline) -> (Seq<char>, i64, Seq<char>, i64, Timestamp, bool) {
    (d.course_name@, d.course_id, d.assignment_name@, d.assignment_id, d.due_at, d.submitted)
}

/// The deadline of an assignment of a course: names default to empty, the
/// assignment id to 0, and only a submission marks it submitted.
pub open spec fn deadline_of(course_id: i64, course_name: Seq<char>, a: AssignmentDue) -> (
    Seq<char>,
    i64,
    Seq<char>,
    i64,
    Timestamp,
    bool,
) {
    (
        course_name,
        course_id,
        text_or(a.name, ""@),
        match a.id {
            Some(i) => i,
            None => 0,
        },
        a.due_at->0,
        a.has_submitted == Some(true),
    )
}

/// The deadlines among the first `n` assignments of a course: those due
/// after `now`.
pub open spec fn course_deadlines(
    course_id: i64,
    course_name: Seq<char>,
    items: Seq<AssignmentDue>,
    now: Timestamp,
) -> Seq<(Seq<char>, i64, Seq<char>, i64, Timestamp, bool)>
    decreases items.len(),
{
    if items.len() == 0 {
        seq![]
    } else {
        let prev = course_deadlines(course_id, course_name, items.drop_last(), now);
        let a = items.last();
        if a.due_at matches Some(d) && ts_before(now, d) {
            prev.push(deadline_of(course_id, course_name, a))
        } else {
            prev
        }
    }
}

/// The deadlines of the courses, course by course, in assignment order:
/// courses without an id, or whose assignments could not be fetched, add
/// none.
pub open spec fn gathered(courses: Seq<CourseAssignments>, now: Timestamp) -> Seq<
    (Seq<char>, i64, Seq<char>, i64, Timestamp, bool),
>
    decreases courses.len(),
{
    if courses.len() == 0 {
        seq![]
    } else {
        let prev = gathered(courses.drop_last(), now);
        let c = courses.last();
        match (c.id, c.assignments) {
            (Some(id), Some(items)) => prev + course_deadlines(
                id,
                text_or(c.name, ""@),
                items@,
                now,
            ),
            _ => prev,
        }
    }
}

/// The deadlines of one course.
fn gather_course(
    course_id: i64,
    course_name: &String,
    items: &Vec<AssignmentDue>,
    now: Timestamp,
    out: &mut Vec<Deadline>,
)
    ensures
        final(out)@.len() >= old(out)@.len(),
        forall|k: int|
            0 <= k < old(out)@.len() ==> #[trigger] final(out)@[k] == old(out)@[k],
        final(out)@.subrange(old(out)@.len() as int, final(out)@.len() as int).map_values(
            |d: Deadline| deadline_view(d),
        ) == course_deadlines(course_id, course_name@, items@, now),
{
    proof {
        reveal_strlit("");
    }
    let ghost start = out@.len();
    let mut i: usize = 0;
    assert(out@.subrange(start as int, out@.len() as int).map_values(|d: Deadline| deadline_view(d))
        =~= course_deadlines(course_id, course_name@, items@.take(0), now));
    while i < items.len()
        invariant
            i <= items.len(),
            start == old(out)@.len(),
            out@.len() >= start,
            forall|k: int| 0 <= k < start ==> #[trigger] out@[k] == old(out)@[k],
            out@.subrange(start as int, out@.len() as int).map_values(|d: Deadline| deadline_view(d))
                == course_deadlines(course_id, course_name@, items@.take(i as int), now),
        decreases items.len() - i,
    {
        proof {
            reveal_strlit("");
        }
        let a = &items[i];
        assert(items@.take(i + 1).drop_last() =~= items@.take(i as int));
        assert(items@.take(i + 1).last() == items@[i as int]);
        if let Some(d) = a.due_at {
            if is_before(now, d) {
                let dl = Deadline {
                    course_name: course_name.clone(),
                    course_id,
                    assignment_name: match &a.name {
                        Some(n) => n.clone(),
                        None => String::new(),
                    },
                    assignment_id: match a.id {
                        Some(x) => x,
                        None => 0,
                    },
                    due_at: d,
                    submitted: match a.has_submitted {
                        Some(true) => true,
                        _ => false,
                    },
                };
                assert(deadline_view(dl) == deadline_of(course_id, course_name@, items@[i as int]));
                assert(course_deadlines(course_id, course_name@, items@.take(i + 1), now)
                    == course_deadlines(course_id, course_name@, items@.take(i as int), now).push(
                    deadline_of(course_id, course_name@, items@[i as int]),
                ));
                let ghost before = out@;
                out.push(dl);
                assert(out@.subrange(start as int, out@.len() as int) =~= before.subrange(
                    start as int,
                    before.len() as int,
                ).push(dl));
                assert(out@.subrange(start as int, out@.len() as int).map_values(
                    |d: Deadline| deadline_view(d),
                ) =~= before.subrange(start as int, before.len() as int).map_values(
                    |d: Deadline| deadline_view(d),
                ).push(deadline_view(dl)));
            }
        }
        i = i + 1;
    }
    assert(items@.take(items.len() as int) =~= items@);
}

/// An owned copy of a deadline.
fn copy_deadline(d: &Deadline) -> (r: Deadline)
    ensures
        deadline_view(r) == deadline_view(*d),
{
    Deadline {
        course_name: d.course_name.clone(),
        course_id: d.course_id,
        assignment_name: d.assignment_name.clone(),
        assignment_id: d.assignment_id,
        due_at: d.due_at,
        submitted: d.submitted,
    }
}

/// The upcoming deadlines of the dashboard: every assignment due after
/// `now` of every course, ordered by due date; deadlines due at the same time
/// keep their course and assignment order.
pub fn upcoming_deadlines(courses: &Vec<CourseAssignments>, now: Timestamp) -> (r: Vec<Deadline>)
    ensures
        exists|order: Seq<usize>|
            #![trigger is_permutation(order, gathered(courses@, now).len() as int)]
            {
                let g = gathered(courses@, now);
                &&& is_permutation(order, g.len() as int)
                &&& forall|i: int, j: int|
                    0 <= i < j < order.len() ==> time_rank_before(
                        g[order[i] as int].4,
                        #[trigger] order[i],
                        g[order[j] as int].4,
                        #[trigger] order[j],
                    )
                &&& r@.len() == order.len()
                &&& forall|k: int|
                    0 <= k < r@.len() ==> deadline_view(#[trigger] r@[k]) == g[order[k] as int]
            },
{
    proof {
        reveal_strlit("");
    }
    let mut all: Vec<Deadline> = Vec::new();
    let mut c: usize = 0;
    while c < courses.len()
        invariant
            c <= courses.len(),
            all@.map_values(|d: Deadline| deadline_view(d)) == gathered(courses@.take(c as int), now),
        decreases courses.len() - c,
    {
        proof {
            reveal_strlit("");
        }
        let course = &courses[c];
        assert(courses@.take(c + 1).drop_last() =~= courses@.take(c as int));
        assert(courses@.take(c + 1).last() == courses@[c as int]);
        if let Some(id) = course.id {
            if let Some(items) = &course.assignments {
                let name = match &course.name {
                    Some(n) => n.clone(),
                    None => String::new(),
                };
                let ghost before = all@;
                assert(name@ == text_or(course.name, ""@));
                assert(gathered(courses@.take(c + 1), now) == gathered(courses@.take(c as int), now)
                    + course_deadlines(id, name@, items@, now));
                gather_course(id, &name, items, now, &mut all);
                assert(all@ =~= before + all@.subrange(before.len() as int, all@.len() as int));
                assert(all@.map_values(|d: Deadline| deadline_view(d)) =~= before.map_values(
                    |d: Deadline| deadline_view(d),
                ) + all@.subrange(before.len() as int, all@.len() as int).map_values(
                    |d: Deadline| deadline_view(d),
                ));
            }
        }
        c = c + 1;
    }
    assert(courses@.take(courses.len() as int) =~= courses@);
    let ghost g = all@.map_values(|d: Deadline| deadline_view(d));
    let mut keys: Vec<Timestamp> = Vec::new();
    let mut i: usize = 0;
    while i < all.len()
        invariant
            i <= all.len(),
            keys@.len() == i,
            forall|k: int| 0 <= k < i ==> #[trigger] keys@[k] == all@[k].due_at,
        decreases all.len() - i,
    {
        keys.push(all[i].due_at);
        i = i + 1;
    }
    let order = stable_time_order(&keys);
    let mut r: Vec<Deadline> = Vec::new();
    let mut k: usize = 0;
    while k < order.len()
        invariant
            k <= order.len(),
            is_permutation(order@, all@.len() as int),
            keys@.len() == all@.len(),
            g == all@.map_values(|d: Deadline| deadline_view(d)),
            r@.len() == k,
            forall|m: int| 0 <= m < k ==> deadline_view(#[trigger] r@[m]) == g[order@[m] as int],
        decreases order.len() - k,
    {
        r.push(copy_deadline(&all[order[k]]));
        k = k + 1;
    }
    proof {
        assert forall|i: int, j: int| 0 <= i < j < order@.len() implies time_rank_before(
            g[order@[i] as int].4,
            #[trigger] order@[i],
            g[order@[j] as int].4,
            #[trigger] order@[j],
        ) by {
            assert(keys@[order@[i] as int] == g[order@[i] as int].4);
            assert(keys@[order@[j] as int] == g[order@[j] as int].4);
        }
        assert(g == gathered(courses@, now));
        assert(is_permutation(order@, gathered(courses@, now).len() as int));
    }
    r
}

} // verus!
