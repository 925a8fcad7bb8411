//! The write path of a submission as a state machine: the local checks and
//! the write level, the preflight gate on the fetched assignment, the file
//! uploads and the final post. The caller performs each request and hands
//! back the reply.

use vstd::prelude::*;

use crate::assignments::{
    any_severity, assess, assess_risks, bullets, comment_to_send, content_ok, content_refusal,
    content_type, enforce_gate, facts_valid, first_submit_step, gate_passes, strs_view,
    AssignmentFacts, GateRefusal, SubmitContent, SubmitError, SubmitStep, Timestamp,
};
use crate::config::WriteLevel;
use crate::types::{RiskSeverity, RiskView, SubmissionReceipt};

verus! {

/// The submission object Canvas is sent.
#[derive(Debug, Clone)]
pub struct SubmissionPost {
    /// `online_upload` or `online_text_entry`.
    pub submission_type: String,
    /// The body of a text submission.
    pub body: Option<String>,
    /// The ids of the uploaded files of a file submission.
    pub file_ids: Option<Vec<i64>>,
    /// The grader comment, when one is sent.
    pub comment: Option<String>,
}

/// What Canvas answers to the submission.
#[derive(Debug, Clone)]
pub struct PostedSubmission {
    pub workflow_state: Option<String>,
    pub submission_type: Option<String>,
    pub submitted_at: Option<String>,
    pub attempt: Option<i64>,
    pub late: Option<bool>,
    pub preview_url: Option<String>,
}

/// A request the submission asks the caller to make.
#[derive(Debug, Clone)]
pub enum SubmitRequest {
    /// GET the assignment with the caller's submission; reply with what the
    /// preflight reads of it and the current time.
    FetchAssignment,
    /// Upload this local file; reply with the id Canvas gives it.
    Upload(String),
    /// POST the submission; reply with Canvas's answer.
    Post(SubmissionPost),
}

/// The caller's reply to a request.
#[derive(Debug, Clone)]
pub enum SubmitReply {
    Assignment(AssignmentFacts, Timestamp),
    Uploaded(i64),
    Posted(PostedSubmission),
    /// The request failed, with this message.
    Failed(String),
}

/// What the submission does next.
#[derive(Debug, Clone)]
pub enum SubmitNext {
    /// Make this request and reply.
    Send(SubmitRequest),
    /// Submitted.
    Done(SubmissionReceipt),
    /// Stopped with this error; nothing more is sent.
    Stop(SubmitError),
}

/// A submission in progress.
#[derive(Debug, Clone)]
pub struct SubmitFlow {
    pub course_id: i64,
    pub assignment_id: i64,
    pub content: SubmitContent,
    pub level: WriteLevel,
    pub i_understand: bool,
    pub comment: Option<String>,
    /// 0: waiting for the assignment, 1: for an upload, 2: for the answer to
    /// the post, 3: finished.
    pub stage: u8,
    /// The ids of the files uploaded so far.
    pub file_ids: Vec<i64>,
}

/// The local paths of a file submission (none for a text).
pub open spec fn paths_of(c: SubmitContent) -> Seq<String> {
    match c {
        SubmitContent::Files(ps) => ps@,
        SubmitContent::Text(_) => Seq::empty(),
    }
}

/// A flow is well formed: a running one with files has some, and uploads
/// stop at the number of files.
pub open spec fn flow_valid(f: SubmitFlow) -> bool {
    &&& f.stage <= 3
    &&& f.stage < 3 && f.content is Files ==> paths_of(f.content).len() > 0
    &&& f.stage == 1 ==> f.content is Files && f.file_ids@.len() < paths_of(f.content).len()
    &&& f.stage == 2 && f.content is Files ==> f.file_ids@.len() == paths_of(f.content).len()
}

/// The comment actually sent: a comment that is not blank.
pub open spec fn sent_comment(c: Option<String>) -> Option<Seq<char>> {
    match c {
        Some(x) => if crate::strs::spec_trim(x@).len() == 0 {
            None
        } else {
            Some(x@)
        },
        None => None,
    }
}

/// The post of a flow: the content's submission type, the text body or the
/// uploaded file ids, and the comment when it is not blank.
pub open spec fn post_fits(f: SubmitFlow, post: SubmissionPost) -> bool {
    &&& post.submission_type@ == content_type(f.content)
    &&& match f.content {
        SubmitContent::Text(b) => post.body matches Some(x) && x@ == b@ && post.file_ids is None,
        SubmitContent::Files(_) => post.body is None && (post.file_ids matches Some(ids) && ids@
            == f.file_ids@),
    }
    &&& crate::views::opt_text(post.comment) == sent_comment(f.comment)
}

/// Sending starts: a file submission uploads its first file, a text is
/// posted at once.
pub open spec fn sending_starts(f: SubmitFlow, r: SubmitNext) -> bool {
    match f.content {
        SubmitContent::Files(ps) => f.stage == 1 && f.file_ids@.len() == 0 && (r matches SubmitNext::Send(
            SubmitRequest::Upload(p),
        ) && p@ == ps@[0]@),
        SubmitContent::Text(_) => f.stage == 2 && (r matches SubmitNext::Send(SubmitRequest::Post(post))
            && post_fits(f, post)),
    }
}

/// How the preflight check refuses these risks.
pub open spec fn refusal_fits(risks: Seq<RiskView>, level: WriteLevel, g: GateRefusal) -> bool {
    match g {
        GateRefusal::Blocked(b) => any_severity(risks, RiskSeverity::Hard) && strs_view(b@) == bullets(
            risks,
            RiskSeverity::Hard,
        ),
        GateRefusal::Held(b, l) => !any_severity(risks, RiskSeverity::Hard) && any_severity(
            risks,
            RiskSeverity::Soft,
        ) && l == level && strs_view(b@) == bullets(risks, RiskSeverity::Soft),
    }
}

/// The request, the target and the options of a submission stay as given.
pub open spec fn keeps(a: SubmitFlow, b: SubmitFlow) -> bool {
    &&& b.course_id == a.course_id
    &&& b.assignment_id == a.assignment_id
    &&& b.content == a.content
    &&& b.level == a.level
    &&& b.i_understand == a.i_understand
    &&& b.comment == a.comment
}

/// How a submission starts: the local checks' error; `none` refuses; `safe`
/// and `guarded` fetch the assignment for the preflight; `unguarded` starts
/// sending at once.
pub open spec fn start_fits(
    course_id: i64,
    assignment_id: i64,
    content: SubmitContent,
    present: Seq<bool>,
    level: WriteLevel,
    i_understand: bool,
    comment: Option<String>,
    f: SubmitFlow,
    r: SubmitNext,
) -> bool {
    &&& f.course_id == course_id && f.assignment_id == assignment_id && f.content == content
    &&& f.level == level && f.i_understand == i_understand && f.comment == comment
    &&& flow_valid(f)
    &&& if !content_ok(content, present) {
        f.stage == 3 && (r matches SubmitNext::Stop(e) && content_refusal(content, present, e))
    } else {
        match level {
            WriteLevel::Off => f.stage == 3 && r matches SubmitNext::Stop(SubmitError::WritesDisabled),
            WriteLevel::Unguarded => sending_starts(f, r),
            _ => f.stage == 0 && r matches SubmitNext::Send(SubmitRequest::FetchAssignment),
        }
    }
}

/// What one step does with a reply: a failed request stops the submission;
/// the assignment is assessed and, when its risks are refused, the submission
/// stops with the refusal, else sending starts; each upload is followed by
/// the next one, then by the post; the answer to the post gives the receipt
/// for the flow's course and assignment.
pub open spec fn step_fits(before: SubmitFlow, reply: SubmitReply, after: SubmitFlow, r: SubmitNext) -> bool {
    &&& keeps(before, after)
    &&& flow_valid(after)
    &&& match reply {
        SubmitReply::Failed(m) => after.stage == 3 && (r matches SubmitNext::Stop(SubmitError::Request(x))
            && x@ == m@),
        SubmitReply::Assignment(a, now) => if gate_passes(
            assess_risks(before.content, a, now),
            before.level,
            before.i_understand,
        ) {
            sending_starts(after, r)
        } else {
            after.stage == 3 && (r matches SubmitNext::Stop(SubmitError::Refused(g)) && refusal_fits(
                assess_risks(before.content, a, now),
                before.level,
                g,
            ))
        },
        SubmitReply::Uploaded(id) => after.file_ids@ == before.file_ids@.push(id) && if after.file_ids@.len()
            < paths_of(before.content).len() {
            after.stage == 1 && (r matches SubmitNext::Send(SubmitRequest::Upload(p)) && p@ == paths_of(
                before.content,
            )[after.file_ids@.len() as int]@)
        } else {
            after.stage == 2 && (r matches SubmitNext::Send(SubmitRequest::Post(post)) && post_fits(
                after,
                post,
            ))
        },
        SubmitReply::Posted(p) => after.stage == 3 && (r matches SubmitNext::Done(rc) && rc.course_id
            == before.course_id && rc.assignment_id == before.assignment_id && rc.workflow_state
            == p.workflow_state && rc.submission_type == p.submission_type && rc.submitted_at
            == p.submitted_at && rc.attempt == p.attempt && rc.late == p.late && rc.preview_url
            == p.preview_url),
    }
}

/// The reply kind a stage waits for.
pub open spec fn reply_fits(stage: u8, r: SubmitReply) -> bool {
    match r {
        SubmitReply::Failed(_) => true,
        SubmitReply::Assignment(a, _) => stage == 0 && facts_valid(a),
        SubmitReply::Uploaded(_) => stage == 1,
        SubmitReply::Posted(_) => stage == 2,
    }
}

fn copy_ids(v: &Vec<i64>) -> (r: Vec<i64>)
    ensures
        r@ == v@,
{
    let mut r: Vec<i64> = Vec::new();
    let mut i: usize = 0;
    while i < v.len()
        invariant
            i <= v.len(),
            r@ == v@.take(i as int),
        decreases v.len() - i,
    {
        r.push(v[i]);
        assert(v@.take(i + 1) =~= v@.take(i as int).push(v@[i as int]));
        i = i + 1;
    }
    assert(v@.take(v.len() as int) =~= v@);
    r
}

impl SubmitFlow {
    /// The post of this flow.
    fn post(&self) -> (post: SubmissionPost)
        ensures
            post_fits(*self, post),
    {
        let submission_type = crate::strs::owned(self.content.submission_type());
        let (body, file_ids) = match &self.content {
            SubmitContent::Text(b) => (Some(crate::strs::owned(b.as_str())), None),
            SubmitContent::Files(_) => (None, Some(copy_ids(&self.file_ids))),
        };
        let comment = comment_to_send(&self.comment);
        SubmissionPost { submission_type, body, file_ids, comment }
    }

    /// Start sending: the first upload, or the post of a text.
    fn begin_send(&mut self) -> (r: SubmitNext)
        requires
            old(self).content is Files ==> paths_of(old(self).content).len() > 0,
        ensures
            keeps(*old(self), *final(self)),
            flow_valid(*final(self)),
            sending_starts(*final(self), r),
    {
        self.file_ids = Vec::new();
        match &self.content {
            SubmitContent::Files(ps) => {
                let p = crate::strs::owned(ps[0].as_str());
                self.stage = 1;
                SubmitNext::Send(SubmitRequest::Upload(p))
            },
            SubmitContent::Text(_) => {
                self.stage = 2;
                SubmitNext::Send(SubmitRequest::Post(self.post()))
            },
        }
    }

    /// Start a submission of `content` to an assignment; `present[i]` tells
    /// whether the i-th file exists on disk.
    pub fn start(
        course_id: i64,
        assignment_id: i64,
        content: SubmitContent,
        present: &Vec<bool>,
        level: WriteLevel,
        i_understand: bool,
        comment: Option<String>,
    ) -> (r: (SubmitFlow, SubmitNext))
        requires
            content matches SubmitContent::Files(ps) ==> present.len() == ps.len(),
        ensures
            start_fits(course_id, assignment_id, content, present@, level, i_understand, comment, r.0, r.1),
    {
        let first = first_submit_step(&content, present, level);
        let mut f = SubmitFlow {
            course_id,
            assignment_id,
            content,
            level,
            i_understand,
            comment,
            stage: 3,
            file_ids: Vec::new(),
        };
        let next = match first {
            SubmitStep::Refuse(e) => SubmitNext::Stop(e),
            SubmitStep::Preflight => {
                f.stage = 0;
                SubmitNext::Send(SubmitRequest::FetchAssignment)
            },
            SubmitStep::Send => f.begin_send(),
        };
        (f, next)
    }

    /// Take the reply to the last request and decide what comes next.
    pub fn step(&mut self, reply: SubmitReply) -> (r: SubmitNext)
        requires
            flow_valid(*old(self)),
            old(self).stage < 3,
            reply_fits(old(self).stage, reply),
        ensures
            step_fits(*old(self), reply, *final(self), r),
    {
        match reply {
            SubmitReply::Failed(m) => {
                self.stage = 3;
                SubmitNext::Stop(SubmitError::Request(m))
            },
            SubmitReply::Assignment(a, now) => {
                let pf = assess(self.course_id, self.assignment_id, &self.content, &a, now);
                match enforce_gate(&pf.risks, self.level, self.i_understand) {
                    Err(g) => {
                        self.stage = 3;
                        SubmitNext::Stop(SubmitError::Refused(g))
                    },
                    Ok(()) => self.begin_send(),
                }
            },
            SubmitReply::Uploaded(id) => {
                self.file_ids.push(id);
                let n = match &self.content {
                    SubmitContent::Files(ps) => ps.len(),
                    SubmitContent::Text(_) => 0,
                };
                if self.file_ids.len() < n {
                    let k = self.file_ids.len();
                    let p = match &self.content {
                        SubmitContent::Files(ps) => crate::strs::owned(ps[k].as_str()),
                        SubmitContent::Text(_) => String::new(),
                    };
                    self.stage = 1;
                    SubmitNext::Send(SubmitRequest::Upload(p))
                } else {
                    self.stage = 2;
                    SubmitNext::Send(SubmitRequest::Post(self.post()))
                }
            },
            SubmitReply::Posted(p) => {
                self.stage = 3;
                SubmitNext::Done(
                    SubmissionReceipt {
                        course_id: self.course_id,
                        assignment_id: self.assignment_id,
                        workflow_state: p.workflow_state,
                        submission_type: p.submission_type,
                        submitted_at: p.submitted_at,
                        attempt: p.attempt,
                        late: p.late,
                        preview_url: p.preview_url,
                    },
                )
            },
        }
    }
}

/// A gated submission (`safe` or `guarded`) of valid content fetches the
/// assignment first; when its risks are refused the submission stops
/// there, so no file is uploaded and nothing is posted; otherwise every post
/// it makes carries the content's submission type, and the receipt is for
/// the requested course and assignment.
pub proof fn law_gated_submission(
    course_id: i64,
    assignment_id: i64,
    content: SubmitContent,
    present: Seq<bool>,
    level: WriteLevel,
    i_understand: bool,
    comment: Option<String>,
    f0: SubmitFlow,
    n0: SubmitNext,
    a: AssignmentFacts,
    now: Timestamp,
    f1: SubmitFlow,
    n1: SubmitNext,
)
    requires
        content_ok(content, present),
        level == WriteLevel::Safe || level == WriteLevel::Guarded,
        start_fits(course_id, assignment_id, content, present, level, i_understand, comment, f0, n0),
        step_fits(f0, SubmitReply::Assignment(a, now), f1, n1),
    ensures
        n0 matches SubmitNext::Send(SubmitRequest::FetchAssignment),
        !gate_passes(assess_risks(content, a, now), level, i_understand) ==> (f1.stage == 3
            && n1 matches SubmitNext::Stop(SubmitError::Refused(_))),
        gate_passes(assess_risks(content, a, now), level, i_understand) ==> (n1 matches SubmitNext::Send(
            SubmitRequest::Post(post),
        ) ==> post.submission_type@ == content_type(content)),
{
}

/// Every post a flow makes carries its content's submission type, and every
/// receipt names its course and assignment.
pub proof fn law_post_and_receipt(before: SubmitFlow, reply: SubmitReply, after: SubmitFlow, r: SubmitNext)
    requires
        step_fits(before, reply, after, r),
    ensures
        r matches SubmitNext::Send(SubmitRequest::Post(post)) ==> post.submission_type@ == content_type(
            before.content,
        ),
        r matches SubmitNext::Done(rc) ==> rc.course_id == before.course_id && rc.assignment_id
            == before.assignment_id,
        r is Stop ==> after.stage == 3,
{
}

} // verus!
