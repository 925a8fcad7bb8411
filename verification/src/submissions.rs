//! The logged-in user's own submissions: the workflow-state filter and the
//! query sent to `/api/v1/courses/:cid/students/submissions`.

use vstd::prelude::*;

verus! {

/// Workflow-state filter accepted by Canvas. `Submitted` matches anything
/// turned in; `Graded` anything with a teacher-set score.
#[derive(Debug, Clone, Copy, PartialEq, Eq, Structural)]
pub enum WorkflowFilter {
    Submitted,
    Unsubmitted,
    Graded,
    PendingReview,
}

/// The name Canvas uses for a filter.
pub open spec fn filter_name(w: WorkflowFilter) -> Seq<char> {
    match w {
        WorkflowFilter::Submitted => "submitted"@,
        WorkflowFilter::Unsubmitted => "unsubmitted"@,
        WorkflowFilter::Graded => "graded"@,
        WorkflowFilter::PendingReview => "pending_review"@,
    }
}

/// The filter a name denotes, if any (exact, case-sensitive match).
pub open spec fn spec_parse_filter(s: Seq<char>) -> Option<WorkflowFilter> {
    if s == "submitted"@ {
        Some(WorkflowFilter::Submitted)
    } else if s == "unsubmitted"@ {
        Some(WorkflowFilter::Unsubmitted)
    } else if s == "graded"@ {
        Some(WorkflowFilter::Graded)
    } else if s == "pending_review"@ {
        Some(WorkflowFilter::PendingReview)
    } else {
        None
    }
}

impl WorkflowFilter {
    /// `submitted`, `unsubmitted`, `graded` or `pending_review`; anything
    /// else is no filter.
    pub fn parse(s: &str) -> (r: Option<WorkflowFilter>)
        ensures
            r == spec_parse_filter(s@),
    {
        if crate::strs::str_eq(s, "submitted") {
            Some(WorkflowFilter::Submitted)
        } else if crate::strs::str_eq(s, "unsubmitted") {
            Some(WorkflowFilter::Unsubmitted)
        } else if crate::strs::str_eq(s, "graded") {
            Some(WorkflowFilter::Graded)
        } else if crate::strs::str_eq(s, "pending_review") {
            Some(WorkflowFilter::PendingReview)
        } else {
            None
        }
    }

    /// The name Canvas uses for this filter.
    pub fn as_str(self) -> (r: &'static str)
        ensures
            r@ == filter_name(self),
    {
        match self {
            WorkflowFilter::Submitted => "submitted",
            WorkflowFilter::Unsubmitted => "unsubmitted",
            WorkflowFilter::Graded => "graded",
            WorkflowFilter::PendingReview => "pending_review",
        }
    }
}

/// The four names are pairwise different.
proof fn lemma_names_distinct()
    ensures
        "submitted"@ != "unsubmitted"@,
        "submitted"@ != "graded"@,
        "submitted"@ != "pending_review"@,
        "unsubmitted"@ != "graded"@,
        "unsubmitted"@ != "pending_review"@,
        "graded"@ != "pending_review"@,
{
    reveal_strlit("submitted");
    reveal_strlit("unsubmitted");
    reveal_strlit("graded");
    reveal_strlit("pending_review");
    assert("submitted"@.len() != "unsubmitted"@.len());
    assert("submitted"@.len() != "graded"@.len());
    assert("submitted"@.len() != "pending_review"@.len());
    assert("unsubmitted"@.len() != "graded"@.len());
    assert("unsubmitted"@.len() != "pending_review"@.len());
    assert("graded"@.len() != "pending_review"@.len());
}

/// Parsing the name of a filter gives the filter back.
pub proof fn law_filter_name_round_trip(w: WorkflowFilter)
    ensures
        spec_parse_filter(filter_name(w)) == Some(w),
{
    lemma_names_distinct();
}

/// The query of one page of my submissions: the student is `self`, the
/// assignment is included, 100 per page, and the filter when one is given.
pub open spec fn submissions_query_spec(w: Option<WorkflowFilter>) -> Seq<(Seq<char>, Seq<char>)> {
    let base = seq![
        ("student_ids[]"@, "self"@),
        ("include[]"@, "assignment"@),
        ("per_page"@, "100"@),
    ];
    match w {
        Some(f) => base.push(("workflow_state"@, filter_name(f))),
        None => base,
    }
}

/// The view of a list of query pairs.
pub open spec fn pairs_view(v: Seq<(String, String)>) -> Seq<(Seq<char>, Seq<char>)> {
    v.map_values(|p: (String, String)| (p.0@, p.1@))
}

/// The query of the first page of my submissions in one course.
pub fn submissions_query(w: Option<WorkflowFilter>) -> (r: Vec<(String, String)>)
    ensures
        pairs_view(r@) == submissions_query_spec(w),
{
    let mut q: Vec<(String, String)> = Vec::new();
    q.push((crate::strs::owned("student_ids[]"), crate::strs::owned("self")));
    q.push((crate::strs::owned("include[]"), crate::strs::owned("assignment")));
    q.push((crate::strs::owned("per_page"), crate::strs::owned("100")));
    let ghost base = pairs_view(q@);
    match w {
        Some(f) => {
            q.push((crate::strs::owned("workflow_state"), crate::strs::owned(f.as_str())));
            assert(pairs_view(q@) =~= base.push(("workflow_state"@, filter_name(f))));
        },
        None => {},
    }
    assert(base =~= seq![
        ("student_ids[]"@, "self"@),
        ("include[]"@, "assignment"@),
        ("per_page"@, "100"@),
    ]);
    q
}

} // verus!
