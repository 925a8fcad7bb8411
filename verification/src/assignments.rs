//! Assignment submission: the preflight risk assessment and the
//! `write_level` gate applied to its risks.

use vstd::prelude::*;

use crate::config::WriteLevel;
use crate::num::{dec_int, dec_nat};
use crate::strs::{eq_ignore_ascii_case, join_seqs, last_index_of, split_char};
use crate::types::{RiskSeverity, RiskView, SubmitPreflight, SubmitRisk};

verus! {

// ───────────────────────────── time ─────────────────────────────

/// A point in time: seconds and nanoseconds since the Unix epoch, UTC.
#[derive(Debug, Clone, Copy)]
pub struct Timestamp {
    pub secs: i64,
    pub nanos: u32,
}

/// A timestamp that chrono can represent (years well inside ±262143) with a
/// sub-second part below one second.
pub open spec fn ts_valid(t: Timestamp) -> bool {
    t.nanos < 1_000_000_000 && -8_000_000_000_000 <= t.secs && t.secs <= 8_000_000_000_000
}

/// A timestamp that chrono can represent and render: the range of
/// `ts_valid`, with a sub-second part that may reach into a second one in the
/// last second of a minute (a leap second).
pub open spec fn ts_renderable(t: Timestamp) -> bool {
    &&& t.nanos < 1_000_000_000 || (t.nanos < 2_000_000_000 && t.secs % 60 == 59)
    &&& -8_000_000_000_000 <= t.secs && t.secs <= 8_000_000_000_000
}

/// `a` is strictly earlier than `b`.
pub open spec fn ts_before(a: Timestamp, b: Timestamp) -> bool {
    a.secs < b.secs || (a.secs == b.secs && a.nanos < b.nanos)
}

/// Whether `a` is strictly earlier than `b`.
pub fn is_before(a: Timestamp, b: Timestamp) -> (r: bool)
    ensures
        r == ts_before(a, b),
{
    a.secs < b.secs || (a.secs == b.secs && a.nanos < b.nanos)
}

/// What `DateTime::<Utc>::to_rfc3339` prints for a timestamp; it depends on
/// the seconds and nanoseconds alone.
pub uninterp spec fn spec_rfc3339(secs: i64, nanos: u32) -> Seq<char>;

/// `chrono::DateTime::from_timestamp(secs, nanos)` rendered by `to_rfc3339`.
/// The range in `ts_renderable`, chrono's own bounds on the nanoseconds,
/// keeps `from_timestamp` from returning `None`.
#[verifier::external_body]
pub(crate) fn rfc3339(secs: i64, nanos: u32) -> (r: String)
    requires
        ts_renderable(Timestamp { secs, nanos }),
    ensures
        r@ == spec_rfc3339(secs, nanos),
{
    chrono::DateTime::from_timestamp(secs, nanos).unwrap().to_rfc3339()
}

/// The RFC 3339 text of a timestamp.
pub open spec fn ts_text(t: Timestamp) -> Seq<char> {
    spec_rfc3339(t.secs, t.nanos)
}

/// `Option<Timestamp>` rendered as RFC 3339.
pub open spec fn opt_ts_text(t: Option<Timestamp>) -> Option<Seq<char>> {
    match t {
        Some(x) => Some(ts_text(x)),
        None => None,
    }
}

/// What `format!("{:?}", v)` prints for a list of strings (quoted, escaped,
/// comma-separated, in brackets); it depends on the strings alone.
pub uninterp spec fn spec_debug_list(items: Seq<Seq<char>>) -> Seq<char>;

/// The views of a list of strings.
pub open spec fn strs_view(v: Seq<String>) -> Seq<Seq<char>> {
    v.map_values(|s: String| s@)
}

/// `format!("{:?}", items)` for a list of strings.
#[verifier::external_body]
pub(crate) fn debug_list(items: &Vec<String>) -> (r: String)
    ensures
        r@ == spec_debug_list(strs_view(items@)),
{
    format!("{:?}", items)
}

// ───────────────────────────── content ─────────────────────────────

/// What the user wants to turn in. The variant fixes the Canvas
/// `submission_type`: `Files` → `online_upload`, `Text` → `online_text_entry`.
#[derive(Debug, Clone)]
pub enum SubmitContent {
    /// One or more local file paths, uploaded then attached as `online_upload`.
    Files(Vec<String>),
    /// An HTML / plain-text body submitted as `online_text_entry`.
    Text(String),
}

/// The Canvas `submission_type` a content maps to.
pub open spec fn content_type(c: SubmitContent) -> Seq<char> {
    match c {
        SubmitContent::Files(_) => "online_upload"@,
        SubmitContent::Text(_) => "online_text_entry"@,
    }
}

impl SubmitContent {
    /// The Canvas `submission_type` string this content maps to.
    pub fn submission_type(&self) -> (r: &'static str)
        ensures
            r@ == content_type(*self),
    {
        match self {
            SubmitContent::Files(_) => "online_upload",
            SubmitContent::Text(_) => "online_text_entry",
        }
    }
}

/// Knobs for a submission beyond the content itself.
#[derive(Debug, Clone)]
pub struct SubmitOptions {
    /// Optional comment delivered to the grader alongside the submission.
    pub comment: Option<String>,
    /// Acknowledge every `Soft` risk surfaced by preflight.
    pub i_understand: bool,
}

// ───────────────────────────── listing ─────────────────────────────

/// Optional filters for listing a course's assignments; all `None` means
/// unfiltered. `embed` names the associations Canvas should embed in each
/// assignment (its list parameter).
#[derive(Debug, Clone, Default)]
pub struct ListFilter {
    /// upcoming | past | overdue | undated | ungraded | unsubmitted | future
    pub bucket: Option<String>,
    pub search_term: Option<String>,
    pub embed: Option<Vec<String>>,
}

/// The scalar query parameters of a filter: `bucket`, then `search_term`,
/// each only where set.
pub open spec fn filter_query(bucket: Option<Seq<char>>, search_term: Option<Seq<char>>) -> Seq<
    (Seq<char>, Seq<char>),
> {
    (match bucket {
        Some(b) => seq![("bucket"@, b)],
        None => Seq::empty(),
    }) + (match search_term {
        Some(t) => seq![("search_term"@, t)],
        None => Seq::empty(),
    })
}

impl ListFilter {
    /// The filter that only picks a bucket.
    pub fn for_bucket(bucket: Option<&str>) -> (r: ListFilter)
        ensures
            match bucket {
                Some(b) => r.bucket matches Some(x) && x@ == b@,
                None => r.bucket is None,
            },
            r.search_term is None,
            r.embed is None,
    {
        ListFilter {
            bucket: match bucket {
                Some(b) => Some(crate::strs::owned(b)),
                None => None,
            },
            search_term: None,
            embed: None,
        }
    }

    /// The scalar query parameters this filter adds to a listing request.
    pub fn query(&self) -> (r: Vec<(String, String)>)
        ensures
            r@.map_values(|p: (String, String)| (p.0@, p.1@)) == filter_query(
                crate::views::opt_text(self.bucket),
                crate::views::opt_text(self.search_term),
            ),
    {
        let mut r: Vec<(String, String)> = Vec::new();
        if let Some(b) = &self.bucket {
            r.push((crate::strs::owned("bucket"), crate::strs::owned(b.as_str())));
        }
        if let Some(t) = &self.search_term {
            r.push((crate::strs::owned("search_term"), crate::strs::owned(t.as_str())));
        }
        proof {
            reveal_strlit("bucket");
            reveal_strlit("search_term");
            assert(r@.map_values(|p: (String, String)| (p.0@, p.1@)) =~= filter_query(
                crate::views::opt_text(self.bucket),
                crate::views::opt_text(self.search_term),
            ));
        }
        r
    }
}

// ───────────────────────────── the fetched assignment ─────────────────────────────

/// The caller's current submission, as Canvas includes it on an assignment.
#[derive(Debug, Clone)]
pub struct PriorSubmission {
    pub submitted_at: Option<String>,
    pub workflow_state: Option<String>,
    pub attempt: Option<i64>,
}

/// What the preflight reads of a Canvas assignment fetched with
/// `include[]=submission`.
#[derive(Debug, Clone)]
pub struct AssignmentFacts {
    pub name: Option<String>,
    pub submission_types: Option<Vec<String>>,
    pub locked_for_user: Option<bool>,
    pub lock_explanation: Option<String>,
    pub unlock_at: Option<Timestamp>,
    pub lock_at: Option<Timestamp>,
    pub due_at: Option<Timestamp>,
    pub allowed_extensions: Option<Vec<String>>,
    pub allowed_attempts: Option<i64>,
    pub submission: Option<PriorSubmission>,
}

/// Every timestamp of the assignment can be rendered.
pub open spec fn facts_valid(a: AssignmentFacts) -> bool {
    &&& (a.unlock_at matches Some(t) ==> ts_renderable(t))
    &&& (a.lock_at matches Some(t) ==> ts_renderable(t))
    &&& (a.due_at matches Some(t) ==> ts_renderable(t))
}

/// An optional list of strings, empty when absent.
pub open spec fn opt_strs(v: Option<Vec<String>>) -> Seq<Seq<char>> {
    match v {
        Some(x) => strs_view(x@),
        None => seq![],
    }
}

/// The user already has a submission: it has a `submitted_at`, or a
/// workflow state other than `unsubmitted`.
pub open spec fn has_existing(a: AssignmentFacts) -> bool {
    match a.submission {
        Some(s) => s.submitted_at is Some || (s.workflow_state matches Some(w) && w@
            != "unsubmitted"@),
        None => false,
    }
}

/// The attempt number of the current submission, 0 when unknown.
pub open spec fn prior_attempt(a: AssignmentFacts) -> i64 {
    match a.submission {
        Some(s) => match s.attempt {
            Some(n) => n,
            None => 0,
        },
        None => 0,
    }
}

// ───────────────────────────── paths ─────────────────────────────

/// The normal components of a `/`-separated path: empty and `.` pieces dropped.
pub open spec fn path_components(p: Seq<char>) -> Seq<Seq<char>> {
    split_char(p, '/').filter(|x: Seq<char>| x.len() > 0).filter(|x: Seq<char>| x != seq!['.'])
}

/// `Path::file_name`: the last normal component, none for `..`.
pub open spec fn spec_file_name(p: Seq<char>) -> Option<Seq<char>> {
    let c = path_components(p);
    if c.len() == 0 || c.last() == seq!['.', '.'] {
        None
    } else {
        Some(c.last())
    }
}

/// `Path::extension`: what follows the last `.` of the file name, when that
/// dot is not its first character.
pub open spec fn spec_extension(p: Seq<char>) -> Option<Seq<char>> {
    match spec_file_name(p) {
        Some(name) => {
            let i = last_index_of(name, '.');
            if i <= 0 {
                None
            } else {
                Some(name.subrange(i + 1, name.len() as int))
            }
        },
        None => None,
    }
}

/// The file at `p` has an extension that `allowed` lists (ignoring ASCII case).
pub open spec fn extension_allowed(p: Seq<char>, allowed: Seq<Seq<char>>) -> bool {
    match spec_extension(p) {
        Some(e) => exists|i: int| 0 <= i < allowed.len() && eq_ignore_ascii_case(allowed[i], e),
        None => false,
    }
}

fn is_dot(v: &Vec<char>) -> (r: bool)
    ensures
        r == (v@ == seq!['.']),
{
    if v.len() == 1 && v[0] == '.' {
        assert(v@ =~= seq!['.']);
        true
    } else {
        false
    }
}

fn is_dot_dot(v: &Vec<char>) -> (r: bool)
    ensures
        r == (v@ == seq!['.', '.']),
{
    if v.len() == 2 && v[0] == '.' && v[1] == '.' {
        assert(v@ =~= seq!['.', '.']);
        true
    } else {
        false
    }
}

/// The file name of a path, if any.
pub fn file_name(p: &str) -> (r: Option<Vec<char>>)
    ensures
        match r {
            Some(v) => spec_file_name(p@) == Some(v@),
            None => spec_file_name(p@) is None,
        },
{
    let v = crate::strs::chars_of(p);
    let parts = crate::strs::split_nonempty(&v, '/');
    let ghost s = parts@.map_values(|x: Vec<char>| x@);
    let ghost notdot = |x: Seq<char>| x != seq!['.'];
    let mut i = parts.len();
    assert(s.take(i as int) =~= s);
    while i > 0 && is_dot(&parts[i - 1])
        invariant
            i <= parts.len(),
            s == parts@.map_values(|x: Vec<char>| x@),
            notdot == (|x: Seq<char>| x != seq!['.']),
            s.filter(notdot) == s.take(i as int).filter(notdot),
        decreases i,
    {
        proof {
            assert(s[i - 1] == parts[i - 1]@);
            assert(s.take(i as int) =~= s.take(i - 1).push(s[i - 1]));
            crate::strs::lemma_filter_push(s.take(i - 1), notdot, s[i - 1]);
        }
        i = i - 1;
    }
    if i == 0 {
        assert(s.take(0).filter(notdot) =~= Seq::<Seq<char>>::empty()) by {
            reveal(Seq::filter);
        }
        return None;
    }
    proof {
        assert(s[i - 1] == parts[i - 1]@);
        assert(s.take(i as int) =~= s.take(i - 1).push(s[i - 1]));
        crate::strs::lemma_filter_push(s.take(i - 1), notdot, s[i - 1]);
    }
    let last = crate::strs::sub_chars(&parts[i - 1], 0, parts[i - 1].len());
    assert(last@ =~= parts[i - 1]@);
    if is_dot_dot(&last) {
        return None;
    }
    Some(last)
}

/// The extension of the file at `p`, if any.
pub fn extension(p: &str) -> (r: Option<Vec<char>>)
    ensures
        match r {
            Some(v) => spec_extension(p@) == Some(v@),
            None => spec_extension(p@) is None,
        },
{
    match file_name(p) {
        None => None,
        Some(name) => {
            proof {
                crate::strs::lemma_last_index_of(name@, '.');
            }
            match crate::strs::rfind_char(&name, '.') {
                None => None,
                Some(0) => None,
                Some(i) => Some(crate::strs::sub_chars(&name, i + 1, name.len())),
            }
        },
    }
}

/// Whether `allowed` lists the extension of the file at `p`.
pub fn extension_is_allowed(p: &str, allowed: &Vec<String>) -> (r: bool)
    ensures
        r == extension_allowed(p@, strs_view(allowed@)),
{
    match extension(p) {
        None => false,
        Some(e) => {
            let mut k: usize = 0;
            while k < allowed.len()
                invariant
                    k <= allowed.len(),
                    spec_extension(p@) == Some(e@),
                    forall|j: int|
                        0 <= j < k ==> !eq_ignore_ascii_case(strs_view(allowed@)[j], e@),
                decreases allowed.len() - k,
            {
                let a = crate::strs::chars_of(allowed[k].as_str());
                if crate::strs::eq_ignore_ascii_case_chars(&a, &e) {
                    assert(strs_view(allowed@)[k as int] == a@);
                    return true;
                }
                k = k + 1;
            }
            false
        },
    }
}

// ───────────────────────────── the risks ─────────────────────────────

/// A single risk, as a one-element sequence.
pub open spec fn one_risk(code: Seq<char>, severity: RiskSeverity, message: Seq<char>) -> Seq<
    RiskView,
> {
    seq![RiskView { code, severity, message }]
}

/// Message of the `type_mismatch` risk.
pub open spec fn type_mismatch_msg(accepted: Seq<Seq<char>>, want: Seq<char>) -> Seq<char> {
    "Assignment accepts "@ + spec_debug_list(accepted) + ", not `"@ + want
        + "` — Canvas will reject this submission."@
}

/// Message of the `locked` risk.
pub open spec fn locked_msg(explanation: Option<String>) -> Seq<char> {
    "Assignment is locked for you: "@ + match explanation {
        Some(e) => e@,
        None => "assignment is locked"@,
    }
}

/// Message of the `not_yet_unlocked` risk.
pub open spec fn unlock_msg(t: Timestamp) -> Seq<char> {
    "Assignment unlocks at "@ + ts_text(t) + " — submissions aren't open yet."@
}

/// Message of the `past_lock_date` risk.
pub open spec fn lock_msg(t: Timestamp) -> Seq<char> {
    "Submissions closed at "@ + ts_text(t) + " (lock date passed)."@
}

/// Message of the `disallowed_extension` risk.
pub open spec fn extension_msg(p: Seq<char>, allowed: Seq<Seq<char>>) -> Seq<char> {
    "`"@ + p + "` has an extension Canvas won't accept here (allowed: "@ + spec_debug_list(allowed)
        + ")."@
}

/// Message of the `attempts_exhausted` risk.
pub open spec fn attempts_msg(max: i64) -> Seq<char> {
    "All "@ + dec_int(max as int) + " allowed attempt(s) already used."@
}

/// Message of the `past_due` risk.
pub open spec fn past_due_msg(t: Timestamp) -> Seq<char> {
    "Past due ("@ + ts_text(t) + ") — the submission will be marked late."@
}

/// Message of the `overwrites_existing` risk.
pub open spec fn overwrite_msg(attempt: i64) -> Seq<char> {
    "You already submitted (attempt "@ + dec_int(attempt as int)
        + "). This adds a new attempt; the previous one stays in Canvas's history but is no longer the active submission."@
}

/// One `disallowed_extension` risk per path whose extension is not allowed.
pub open spec fn extension_risks(paths: Seq<Seq<char>>, allowed: Seq<Seq<char>>) -> Seq<RiskView>
    decreases paths.len(),
{
    if paths.len() == 0 {
        seq![]
    } else {
        extension_risks(paths.drop_last(), allowed) + if extension_allowed(
            paths.last(),
            allowed,
        ) {
            seq![]
        } else {
            one_risk("disallowed_extension"@, RiskSeverity::Hard, extension_msg(paths.last(), allowed))
        }
    }
}

/// Risks from the type check (hard: the assignment does not accept this
/// submission type) and the lock flag (hard).
pub open spec fn risks_type_and_lock(content: SubmitContent, a: AssignmentFacts) -> Seq<RiskView> {
    let want = content_type(content);
    let accepted = opt_strs(a.submission_types);
    (if accepted.contains(want) {
        seq![]
    } else {
        one_risk("type_mismatch"@, RiskSeverity::Hard, type_mismatch_msg(accepted, want))
    }) + (if a.locked_for_user == Some(true) {
        one_risk("locked"@, RiskSeverity::Hard, locked_msg(a.lock_explanation))
    } else {
        seq![]
    })
}

/// Risks from the dates: not yet unlocked (hard), past the lock date (hard).
pub open spec fn risks_window(a: AssignmentFacts, now: Timestamp) -> Seq<RiskView> {
    (match a.unlock_at {
        Some(u) => if ts_before(now, u) {
            one_risk("not_yet_unlocked"@, RiskSeverity::Hard, unlock_msg(u))
        } else {
            seq![]
        },
        None => seq![],
    }) + (match a.lock_at {
        Some(l) => if ts_before(l, now) {
            one_risk("past_lock_date"@, RiskSeverity::Hard, lock_msg(l))
        } else {
            seq![]
        },
        None => seq![],
    })
}

/// Risks from the file extensions, when the assignment restricts them (hard).
pub open spec fn risks_extensions(content: SubmitContent, a: AssignmentFacts) -> Seq<RiskView> {
    let allowed = opt_strs(a.allowed_extensions);
    match content {
        SubmitContent::Files(ps) => if allowed.len() > 0 {
            extension_risks(strs_view(ps@), allowed)
        } else {
            seq![]
        },
        SubmitContent::Text(_) => seq![],
    }
}

/// Risks from the attempt count (hard), the due date (soft) and an
/// existing submission (soft).
pub open spec fn risks_attempts_due_existing(a: AssignmentFacts, now: Timestamp) -> Seq<RiskView> {
    (match a.allowed_attempts {
        Some(max) => if max > 0 && prior_attempt(a) >= max {
            one_risk("attempts_exhausted"@, RiskSeverity::Hard, attempts_msg(max))
        } else {
            seq![]
        },
        None => seq![],
    }) + (match a.due_at {
        Some(d) => if ts_before(d, now) {
            one_risk("past_due"@, RiskSeverity::Soft, past_due_msg(d))
        } else {
            seq![]
        },
        None => seq![],
    }) + (if has_existing(a) {
        one_risk("overwrites_existing"@, RiskSeverity::Soft, overwrite_msg(prior_attempt(a)))
    } else {
        seq![]
    })
}

/// Every risk of submitting `content` to `a` at time `now`, in order.
pub open spec fn assess_risks(content: SubmitContent, a: AssignmentFacts, now: Timestamp) -> Seq<
    RiskView,
> {
    risks_type_and_lock(content, a) + risks_window(a, now) + risks_extensions(content, a)
        + risks_attempts_due_existing(a, now)
}

/// The views of a list of risks.
pub open spec fn risks_view(v: Seq<SubmitRisk>) -> Seq<RiskView> {
    v.map_values(|r: SubmitRisk| r@)
}

fn push_risk(risks: &mut Vec<SubmitRisk>, code: &str, severity: RiskSeverity, message: String)
    ensures
        risks_view(final(risks)@) == risks_view(old(risks)@).push(
            RiskView { code: code@, severity, message: message@ },
        ),
{
    let r = SubmitRisk { code: crate::strs::owned(code), severity, message };
    risks.push(r);
    assert(risks_view(risks@) =~= risks_view(old(risks)@).push(
        RiskView { code: code@, severity, message: message@ },
    ));
}

fn concat3(a: &str, b: &str, c: &str) -> (r: String)
    ensures
        r@ == a@ + b@ + c@,
{
    let mut r = crate::strs::owned(a);
    crate::strs::push_str(&mut r, b);
    crate::strs::push_str(&mut r, c);
    r
}

fn contains_string(v: &Vec<String>, t: &str) -> (r: bool)
    ensures
        r == strs_view(v@).contains(t@),
{
    let mut k: usize = 0;
    while k < v.len()
        invariant
            k <= v.len(),
            forall|j: int| 0 <= j < k ==> strs_view(v@)[j] != t@,
        decreases v.len() - k,
    {
        if crate::strs::str_eq(v[k].as_str(), t) {
            assert(strs_view(v@)[k as int] == t@);
            return true;
        }
        k = k + 1;
    }
    false
}

fn attempt_of(a: &AssignmentFacts) -> (r: i64)
    ensures
        r == prior_attempt(*a),
{
    match &a.submission {
        Some(s) => match s.attempt {
            Some(n) => n,
            None => 0,
        },
        None => 0,
    }
}

fn existing_of(a: &AssignmentFacts) -> (r: bool)
    ensures
        r == has_existing(*a),
{
    match &a.submission {
        Some(s) => {
            if s.submitted_at.is_some() {
                true
            } else {
                match &s.workflow_state {
                    Some(w) => !crate::strs::str_eq(w.as_str(), "unsubmitted"),
                    None => false,
                }
            }
        },
        None => false,
    }
}

fn push_extension_risks(risks: &mut Vec<SubmitRisk>, paths: &Vec<String>, allowed: &Vec<String>)
    ensures
        risks_view(final(risks)@) == risks_view(old(risks)@) + extension_risks(
            strs_view(paths@),
            strs_view(allowed@),
        ),
{
    let ghost ps = strs_view(paths@);
    let ghost al = strs_view(allowed@);
    let mut i: usize = 0;
    assert(risks_view(risks@) =~= risks_view(old(risks)@) + extension_risks(ps.take(0), al));
    while i < paths.len()
        invariant
            i <= paths.len(),
            ps == strs_view(paths@),
            al == strs_view(allowed@),
            risks_view(risks@) == risks_view(old(risks)@) + extension_risks(ps.take(i as int), al),
        decreases paths.len() - i,
    {
        let ghost before = risks_view(risks@);
        assert(ps.take(i + 1).drop_last() =~= ps.take(i as int));
        assert(ps.take(i + 1).last() == paths[i as int]@);
        if !extension_is_allowed(paths[i].as_str(), allowed) {
            let dl = debug_list(allowed);
            let mut msg = concat3("`", paths[i].as_str(), "` has an extension Canvas won't accept here (allowed: ");
            crate::strs::push_str(&mut msg, dl.as_str());
            crate::strs::push_str(&mut msg, ").");
            push_risk(risks, "disallowed_extension", RiskSeverity::Hard, msg);
            assert(risks_view(risks@) =~= risks_view(old(risks)@) + extension_risks(
                ps.take(i + 1),
                al,
            ));
        } else {
            assert(risks_view(risks@) =~= risks_view(old(risks)@) + extension_risks(
                ps.take(i + 1),
                al,
            ));
        }
        i = i + 1;
    }
    assert(ps.take(paths.len() as int) =~= ps);
}

fn push_type_and_lock(risks: &mut Vec<SubmitRisk>, content: &SubmitContent, a: &AssignmentFacts)
    ensures
        risks_view(final(risks)@) == risks_view(old(risks)@) + risks_type_and_lock(*content, *a),
{
    let want = content.submission_type();
    let empty: Vec<String> = Vec::new();
    let accepted: &Vec<String> = match &a.submission_types {
        Some(v) => v,
        None => &empty,
    };
    assert(strs_view(accepted@) == opt_strs(a.submission_types)) by {
        if a.submission_types is None {
            assert(strs_view(accepted@) =~= Seq::<Seq<char>>::empty());
        }
    }
    let ghost r0 = risks_view(risks@);
    if !contains_string(accepted, want) {
        let dl = debug_list(accepted);
        let mut msg = concat3("Assignment accepts ", dl.as_str(), ", not `");
        crate::strs::push_str(&mut msg, want);
        crate::strs::push_str(&mut msg, "` — Canvas will reject this submission.");
        push_risk(risks, "type_mismatch", RiskSeverity::Hard, msg);
    }
    let ghost r1 = risks_view(risks@);
    let ghost want_s = content_type(*content);
    let ghost acc_s = opt_strs(a.submission_types);
    assert(r1 =~= r0 + (if acc_s.contains(want_s) {
        Seq::<RiskView>::empty()
    } else {
        one_risk("type_mismatch"@, RiskSeverity::Hard, type_mismatch_msg(acc_s, want_s))
    }));
    let locked = match a.locked_for_user {
        Some(b) => b,
        None => false,
    };
    if locked {
        let why: &str = match &a.lock_explanation {
            Some(e) => e.as_str(),
            None => "assignment is locked",
        };
        let mut msg = crate::strs::owned("Assignment is locked for you: ");
        crate::strs::push_str(&mut msg, why);
        push_risk(risks, "locked", RiskSeverity::Hard, msg);
    }
    assert(risks_view(risks@) =~= r1 + (if a.locked_for_user == Some(true) {
        one_risk("locked"@, RiskSeverity::Hard, locked_msg(a.lock_explanation))
    } else {
        Seq::<RiskView>::empty()
    }));
    assert(risks_view(risks@) =~= r0 + risks_type_and_lock(*content, *a));
}

fn push_window(risks: &mut Vec<SubmitRisk>, a: &AssignmentFacts, now: Timestamp)
    requires
        facts_valid(*a),
    ensures
        risks_view(final(risks)@) == risks_view(old(risks)@) + risks_window(*a, now),
{
    let ghost r0 = risks_view(risks@);
    if let Some(unlock) = a.unlock_at {
        if is_before(now, unlock) {
            let t = rfc3339(unlock.secs, unlock.nanos);
            let msg = concat3("Assignment unlocks at ", t.as_str(), " — submissions aren't open yet.");
            push_risk(risks, "not_yet_unlocked", RiskSeverity::Hard, msg);
        }
    }
    if let Some(lock) = a.lock_at {
        if is_before(lock, now) {
            let t = rfc3339(lock.secs, lock.nanos);
            let msg = concat3("Submissions closed at ", t.as_str(), " (lock date passed).");
            push_risk(risks, "past_lock_date", RiskSeverity::Hard, msg);
        }
    }
    assert(risks_view(risks@) =~= r0 + risks_window(*a, now));
}

fn push_extensions(risks: &mut Vec<SubmitRisk>, content: &SubmitContent, a: &AssignmentFacts)
    ensures
        risks_view(final(risks)@) == risks_view(old(risks)@) + risks_extensions(*content, *a),
{
    let ghost r0 = risks_view(risks@);
    if let SubmitContent::Files(paths) = content {
        let empty: Vec<String> = Vec::new();
        let allowed: &Vec<String> = match &a.allowed_extensions {
            Some(v) => v,
            None => &empty,
        };
        assert(strs_view(allowed@) == opt_strs(a.allowed_extensions)) by {
            if a.allowed_extensions is None {
                assert(strs_view(allowed@) =~= Seq::<Seq<char>>::empty());
            }
        }
        if allowed.len() > 0 {
            push_extension_risks(risks, paths, allowed);
        }
    }
    assert(risks_view(risks@) =~= r0 + risks_extensions(*content, *a));
}

fn push_attempts_due_existing(risks: &mut Vec<SubmitRisk>, a: &AssignmentFacts, now: Timestamp)
    requires
        facts_valid(*a),
    ensures
        risks_view(final(risks)@) == risks_view(old(risks)@) + risks_attempts_due_existing(*a, now),
{
    let ghost r0 = risks_view(risks@);
    let used = attempt_of(a);
    if let Some(max) = a.allowed_attempts {
        if max > 0 && used >= max {
            let mut msg = crate::strs::owned("All ");
            crate::num::push_dec_i64(&mut msg, max);
            crate::strs::push_str(&mut msg, " allowed attempt(s) already used.");
            push_risk(risks, "attempts_exhausted", RiskSeverity::Hard, msg);
        }
    }
    let ghost r1 = risks_view(risks@);
    if let Some(due) = a.due_at {
        if is_before(due, now) {
            let t = rfc3339(due.secs, due.nanos);
            let msg = concat3("Past due (", t.as_str(), ") — the submission will be marked late.");
            push_risk(risks, "past_due", RiskSeverity::Soft, msg);
        }
    }
    let ghost r2 = risks_view(risks@);
    if existing_of(a) {
        let mut msg = crate::strs::owned("You already submitted (attempt ");
        crate::num::push_dec_i64(&mut msg, used);
        crate::strs::push_str(
            &mut msg,
            "). This adds a new attempt; the previous one stays in Canvas's history but is no longer the active submission.",
        );
        push_risk(risks, "overwrites_existing", RiskSeverity::Soft, msg);
    }
    assert(risks_view(risks@) =~= r0 + risks_attempts_due_existing(*a, now));
}

/// Pure risk assessment: given a fetched assignment, the intended content
/// and the current time, enumerate every condition that should block or warn
/// the submission.
pub fn assess(
    course_id: i64,
    assignment_id: i64,
    content: &SubmitContent,
    a: &AssignmentFacts,
    now: Timestamp,
) -> (pf: SubmitPreflight)
    requires
        facts_valid(*a),
    ensures
        pf.course_id == course_id,
        pf.assignment_id == assignment_id,
        pf.assignment_name@ == match a.name {
            Some(n) => n@,
            None => Seq::<char>::empty(),
        },
        pf.submission_type@ == content_type(*content),
        (match pf.due_at {
            Some(s) => Some(s@),
            None => None,
        }) == opt_ts_text(a.due_at),
        (match pf.lock_at {
            Some(s) => Some(s@),
            None => None,
        }) == opt_ts_text(a.lock_at),
        pf.has_existing_submission == has_existing(*a),
        risks_view(pf.risks@) == assess_risks(*content, *a, now),
{
    let want = content.submission_type();
    let mut risks: Vec<SubmitRisk> = Vec::new();
    push_type_and_lock(&mut risks, content, a);
    push_window(&mut risks, a, now);
    push_extensions(&mut risks, content, a);
    push_attempts_due_existing(&mut risks, a, now);
    assert(risks_view(risks@) =~= assess_risks(*content, *a, now));
    let has_existing_sub = existing_of(a);

    let assignment_name = match &a.name {
        Some(n) => n.clone(),
        None => String::new(),
    };
    let due_at = match a.due_at {
        Some(t) => Some(rfc3339(t.secs, t.nanos)),
        None => None,
    };
    let lock_at = match a.lock_at {
        Some(t) => Some(rfc3339(t.secs, t.nanos)),
        None => None,
    };
    SubmitPreflight {
        course_id,
        assignment_id,
        assignment_name,
        submission_type: crate::strs::owned(want),
        due_at,
        lock_at,
        has_existing_submission: has_existing_sub,
        risks,
    }
}

/// The assignment unlocks after `now`.
pub open spec fn not_yet_open(a: AssignmentFacts, now: Timestamp) -> bool {
    a.unlock_at matches Some(u) && ts_before(now, u)
}

/// The assignment's lock date is before `now`.
pub open spec fn lock_passed(a: AssignmentFacts, now: Timestamp) -> bool {
    a.lock_at matches Some(l) && ts_before(l, now)
}

/// The assignment's due date is before `now`.
pub open spec fn due_passed(a: AssignmentFacts, now: Timestamp) -> bool {
    a.due_at matches Some(d) && ts_before(d, now)
}

/// The assignment limits attempts and the current submission used the last.
pub open spec fn attempts_used_up(a: AssignmentFacts) -> bool {
    a.allowed_attempts matches Some(m) && m > 0 && prior_attempt(a) >= m
}

/// Some risk in `risks` has the code `c`.
pub open spec fn has_code(risks: Seq<RiskView>, c: Seq<char>) -> bool {
    exists|i: int| 0 <= i < risks.len() && (#[trigger] risks[i]).code == c
}

/// A risk is soft exactly when it is a late or a repeated submission.
pub open spec fn severity_fits_code(r: RiskView) -> bool {
    (r.severity == RiskSeverity::Soft) <==> (r.code == "past_due"@ || r.code
        == "overwrites_existing"@)
}

/// Every risk of `risks` is soft exactly when it is a late or a repeated
/// submission.
pub open spec fn severities_fit_codes(risks: Seq<RiskView>) -> bool {
    forall|i: int| 0 <= i < risks.len() ==> severity_fits_code(#[trigger] risks[i])
}

proof fn lemma_codes_concat(a: Seq<RiskView>, b: Seq<RiskView>, c: Seq<char>)
    ensures
        has_code(a + b, c) == (has_code(a, c) || has_code(b, c)),
        severities_fit_codes(a) && severities_fit_codes(b) ==> severities_fit_codes(a + b),
{
    if has_code(a + b, c) {
        let i = choose|i: int| 0 <= i < (a + b).len() && (#[trigger] (a + b)[i]).code == c;
        if i < a.len() {
            assert(a[i] == (a + b)[i]);
        } else {
            assert(b[i - a.len()] == (a + b)[i]);
        }
    }
    if has_code(a, c) {
        let i = choose|i: int| 0 <= i < a.len() && (#[trigger] a[i]).code == c;
        assert((a + b)[i] == a[i]);
    }
    if has_code(b, c) {
        let j = choose|j: int| 0 <= j < b.len() && (#[trigger] b[j]).code == c;
        assert((a + b)[a.len() + j] == b[j]);
    }
    if severities_fit_codes(a) && severities_fit_codes(b) {
        assert forall|i: int| 0 <= i < (a + b).len() implies severity_fits_code(#[trigger] (a + b)[i]) by {
            if i < a.len() {
                assert(severity_fits_code(a[i]));
            } else {
                assert(severity_fits_code(b[i - a.len()]));
            }
        }
    }
}

proof fn lemma_code_one()
    ensures
        forall|code: Seq<char>, severity: RiskSeverity, message: Seq<char>, c: Seq<char>| #[trigger]
            has_code(one_risk(code, severity, message), c) == (code == c),
        forall|c: Seq<char>| !#[trigger] has_code(Seq::<RiskView>::empty(), c),
{
    assert forall|code: Seq<char>, severity: RiskSeverity, message: Seq<char>, c: Seq<char>| #[trigger]
        has_code(one_risk(code, severity, message), c) == (code == c) by {
        if code == c {
            assert(one_risk(code, severity, message)[0].code == c);
        }
    }
}

proof fn lemma_fit_one(code: Seq<char>, severity: RiskSeverity, message: Seq<char>)
    requires
        severity_fits_code(RiskView { code, severity, message }),
    ensures
        severities_fit_codes(one_risk(code, severity, message)),
        severities_fit_codes(Seq::<RiskView>::empty()),
{
    assert(one_risk(code, severity, message)[0] == RiskView { code, severity, message });
}

proof fn lemma_extension_codes(paths: Seq<Seq<char>>, allowed: Seq<Seq<char>>)
    ensures
        forall|i: int|
            0 <= i < extension_risks(paths, allowed).len() ==> (#[trigger] extension_risks(
                paths,
                allowed,
            )[i]).code == "disallowed_extension"@ && extension_risks(paths, allowed)[i].severity
                == RiskSeverity::Hard,
    decreases paths.len(),
{
    if paths.len() > 0 {
        lemma_extension_codes(paths.drop_last(), allowed);
        let head = extension_risks(paths.drop_last(), allowed);
        let tail: Seq<RiskView> = if extension_allowed(paths.last(), allowed) {
            seq![]
        } else {
            one_risk("disallowed_extension"@, RiskSeverity::Hard, extension_msg(paths.last(), allowed))
        };
        assert(extension_risks(paths, allowed) == head + tail);
        assert forall|i: int| 0 <= i < (head + tail).len() implies (#[trigger] (head + tail)[i]).code
            == "disallowed_extension"@ && (head + tail)[i].severity == RiskSeverity::Hard by {
            if i >= head.len() {
                assert((head + tail)[i] == tail[i - head.len()]);
            }
        }
    }
}

proof fn lemma_codes_type_and_lock(content: SubmitContent, a: AssignmentFacts, c: Seq<char>)
    ensures
        has_code(risks_type_and_lock(content, a), c) == ((c == "type_mismatch"@ && !opt_strs(
            a.submission_types,
        ).contains(content_type(content))) || (c == "locked"@ && a.locked_for_user == Some(true))),
        severities_fit_codes(risks_type_and_lock(content, a)),
{
    reveal_strlit("type_mismatch");
    reveal_strlit("locked");
    reveal_strlit("past_due");
    reveal_strlit("overwrites_existing");
    lemma_code_one();
    let want = content_type(content);
    let accepted = opt_strs(a.submission_types);
    let t1: Seq<RiskView> = if accepted.contains(want) {
        seq![]
    } else {
        one_risk("type_mismatch"@, RiskSeverity::Hard, type_mismatch_msg(accepted, want))
    };
    let t2: Seq<RiskView> = if a.locked_for_user == Some(true) {
        one_risk("locked"@, RiskSeverity::Hard, locked_msg(a.lock_explanation))
    } else {
        seq![]
    };
    assert(risks_type_and_lock(content, a) == t1 + t2);
    lemma_codes_concat(t1, t2, c);
    assert("type_mismatch"@.len() != "past_due"@.len());
    assert("type_mismatch"@.len() != "overwrites_existing"@.len());
    assert("locked"@.len() != "past_due"@.len());
    assert("locked"@.len() != "overwrites_existing"@.len());
    lemma_fit_one("type_mismatch"@, RiskSeverity::Hard, type_mismatch_msg(accepted, want));
    lemma_fit_one("locked"@, RiskSeverity::Hard, locked_msg(a.lock_explanation));
}

proof fn lemma_codes_window(a: AssignmentFacts, now: Timestamp, c: Seq<char>)
    ensures
        has_code(risks_window(a, now), c) == ((c == "not_yet_unlocked"@ && not_yet_open(a, now)) || (c
            == "past_lock_date"@ && lock_passed(a, now))),
        severities_fit_codes(risks_window(a, now)),
{
    reveal_strlit("not_yet_unlocked");
    reveal_strlit("past_lock_date");
    reveal_strlit("past_due");
    reveal_strlit("overwrites_existing");
    lemma_code_one();
    let w1: Seq<RiskView> = match a.unlock_at {
        Some(u) => if ts_before(now, u) {
            one_risk("not_yet_unlocked"@, RiskSeverity::Hard, unlock_msg(u))
        } else {
            seq![]
        },
        None => seq![],
    };
    let w2: Seq<RiskView> = match a.lock_at {
        Some(l) => if ts_before(l, now) {
            one_risk("past_lock_date"@, RiskSeverity::Hard, lock_msg(l))
        } else {
            seq![]
        },
        None => seq![],
    };
    assert(risks_window(a, now) == w1 + w2);
    lemma_codes_concat(w1, w2, c);
    assert("not_yet_unlocked"@.len() == 16 && "past_lock_date"@.len() == 14);
    assert("past_due"@.len() == 8 && "overwrites_existing"@.len() == 19);
    if let Some(u) = a.unlock_at {
        lemma_fit_one("not_yet_unlocked"@, RiskSeverity::Hard, unlock_msg(u));
    } else {
        lemma_fit_one("not_yet_unlocked"@, RiskSeverity::Hard, seq![]);
    }
    if let Some(l) = a.lock_at {
        lemma_fit_one("past_lock_date"@, RiskSeverity::Hard, lock_msg(l));
    }
}

proof fn lemma_codes_attempts_due_existing(a: AssignmentFacts, now: Timestamp, c: Seq<char>)
    ensures
        has_code(risks_attempts_due_existing(a, now), c) == ((c == "attempts_exhausted"@
            && attempts_used_up(a)) || (c == "past_due"@ && due_passed(a, now)) || (c
            == "overwrites_existing"@ && has_existing(a))),
        severities_fit_codes(risks_attempts_due_existing(a, now)),
{
    reveal_strlit("attempts_exhausted");
    reveal_strlit("past_due");
    reveal_strlit("overwrites_existing");
    lemma_code_one();
    let x1: Seq<RiskView> = match a.allowed_attempts {
        Some(max) => if max > 0 && prior_attempt(a) >= max {
            one_risk("attempts_exhausted"@, RiskSeverity::Hard, attempts_msg(max))
        } else {
            seq![]
        },
        None => seq![],
    };
    let x2: Seq<RiskView> = match a.due_at {
        Some(d) => if ts_before(d, now) {
            one_risk("past_due"@, RiskSeverity::Soft, past_due_msg(d))
        } else {
            seq![]
        },
        None => seq![],
    };
    let x3: Seq<RiskView> = if has_existing(a) {
        one_risk("overwrites_existing"@, RiskSeverity::Soft, overwrite_msg(prior_attempt(a)))
    } else {
        seq![]
    };
    assert(risks_attempts_due_existing(a, now) == x1 + x2 + x3);
    lemma_codes_concat(x1, x2, c);
    lemma_codes_concat(x1 + x2, x3, c);
    assert("attempts_exhausted"@.len() == 18);
    assert("past_due"@.len() == 8 && "overwrites_existing"@.len() == 19);
    if let Some(max) = a.allowed_attempts {
        lemma_fit_one("attempts_exhausted"@, RiskSeverity::Hard, attempts_msg(max));
    } else {
        lemma_fit_one("attempts_exhausted"@, RiskSeverity::Hard, seq![]);
    }
    if let Some(d) = a.due_at {
        lemma_fit_one("past_due"@, RiskSeverity::Soft, past_due_msg(d));
    }
    lemma_fit_one("overwrites_existing"@, RiskSeverity::Soft, overwrite_msg(prior_attempt(a)));
}

proof fn lemma_codes_extensions(content: SubmitContent, a: AssignmentFacts, c: Seq<char>)
    ensures
        has_code(risks_extensions(content, a), c) ==> c == "disallowed_extension"@,
        severities_fit_codes(risks_extensions(content, a)),
{
    reveal_strlit("disallowed_extension");
    reveal_strlit("past_due");
    reveal_strlit("overwrites_existing");
    let e = risks_extensions(content, a);
    match content {
        SubmitContent::Files(ps) => {
            lemma_extension_codes(strs_view(ps@), opt_strs(a.allowed_extensions));
        },
        SubmitContent::Text(_) => {},
    }
    assert(forall|i: int| 0 <= i < e.len() ==> (#[trigger] e[i]).code == "disallowed_extension"@
        && e[i].severity == RiskSeverity::Hard);
    if has_code(e, c) {
        let i = choose|i: int| 0 <= i < e.len() && (#[trigger] e[i]).code == c;
        assert(e[i].code == "disallowed_extension"@);
    }
    assert("disallowed_extension"@.len() != "past_due"@.len());
    assert("disallowed_extension"@.len() != "overwrites_existing"@.len());
    assert forall|i: int| 0 <= i < e.len() implies severity_fits_code(#[trigger] e[i]) by {
        assert(e[i].code == "disallowed_extension"@);
    }
}

/// The codes of an assessment, code by code, are its distinct reasons.
proof fn lemma_assess_codes(content: SubmitContent, a: AssignmentFacts, now: Timestamp, c: Seq<char>)
    requires
        c != "disallowed_extension"@,
    ensures
        has_code(assess_risks(content, a, now), c) == ((c == "type_mismatch"@ && !opt_strs(
            a.submission_types,
        ).contains(content_type(content))) || (c == "locked"@ && a.locked_for_user == Some(true))
            || (c == "not_yet_unlocked"@ && not_yet_open(a, now)) || (c == "past_lock_date"@
            && lock_passed(a, now)) || (c == "attempts_exhausted"@ && attempts_used_up(a)) || (c
            == "past_due"@ && due_passed(a, now)) || (c == "overwrites_existing"@ && has_existing(
            a,
        ))),
        severities_fit_codes(assess_risks(content, a, now)),
{
    let t = risks_type_and_lock(content, a);
    let w = risks_window(a, now);
    let e = risks_extensions(content, a);
    let x = risks_attempts_due_existing(a, now);
    lemma_codes_type_and_lock(content, a, c);
    lemma_codes_window(a, now, c);
    lemma_codes_extensions(content, a, c);
    lemma_codes_attempts_due_existing(a, now, c);
    lemma_codes_concat(t, w, c);
    lemma_codes_concat(t + w, e, c);
    lemma_codes_concat(t + w + e, x, c);
}

/// Which codes an assessment lists, code by code: a type the assignment does
/// not accept, a lock for the user, a start in the future, a lock date or a
/// due date in the past, an exhausted attempt count, an existing submission;
/// and the only soft risks are a late and a repeated submission.
pub proof fn law_risk_codes(content: SubmitContent, a: AssignmentFacts, now: Timestamp)
    ensures
        has_code(assess_risks(content, a, now), "type_mismatch"@) == !opt_strs(
            a.submission_types,
        ).contains(content_type(content)),
        has_code(assess_risks(content, a, now), "locked"@) == (a.locked_for_user == Some(true)),
        has_code(assess_risks(content, a, now), "not_yet_unlocked"@) == not_yet_open(a, now),
        has_code(assess_risks(content, a, now), "past_lock_date"@) == lock_passed(a, now),
        has_code(assess_risks(content, a, now), "past_due"@) == due_passed(a, now),
        has_code(assess_risks(content, a, now), "attempts_exhausted"@) == attempts_used_up(a),
        has_code(assess_risks(content, a, now), "overwrites_existing"@) == has_existing(a),
        severities_fit_codes(assess_risks(content, a, now)),
{
    reveal_strlit("type_mismatch");
    reveal_strlit("locked");
    reveal_strlit("not_yet_unlocked");
    reveal_strlit("past_lock_date");
    reveal_strlit("past_due");
    reveal_strlit("attempts_exhausted");
    reveal_strlit("overwrites_existing");
    reveal_strlit("disallowed_extension");
    let c1 = "type_mismatch"@;
    let c2 = "locked"@;
    let c3 = "not_yet_unlocked"@;
    let c4 = "past_lock_date"@;
    let c5 = "past_due"@;
    let c6 = "attempts_exhausted"@;
    let c7 = "overwrites_existing"@;
    let cx = "disallowed_extension"@;
    assert(c1.len() == 13 && c2.len() == 6 && c3.len() == 16 && c4.len() == 14 && c5.len() == 8
        && c6.len() == 18 && c7.len() == 19 && cx.len() == 20);
    assert(c3 != c4);
    lemma_assess_codes(content, a, now, c1);
    lemma_assess_codes(content, a, now, c2);
    lemma_assess_codes(content, a, now, c3);
    lemma_assess_codes(content, a, now, c4);
    lemma_assess_codes(content, a, now, c5);
    lemma_assess_codes(content, a, now, c6);
    lemma_assess_codes(content, a, now, c7);
}

} // verus!

verus! {

// ───────────────────────────── the write_level gate ─────────────────────────────

/// How a risk is listed in a refusal: `  - [code] message`.
pub open spec fn bullet(r: RiskView) -> Seq<char> {
    "  - ["@ + r.code + "] "@ + r.message
}

/// The risks of one severity, in order.
pub open spec fn with_severity(risks: Seq<RiskView>, sev: RiskSeverity) -> Seq<RiskView> {
    risks.filter(|r: RiskView| r.severity == sev)
}

/// The bullets of the risks of one severity, in order.
pub open spec fn bullets(risks: Seq<RiskView>, sev: RiskSeverity) -> Seq<Seq<char>> {
    with_severity(risks, sev).map_values(|r: RiskView| bullet(r))
}

/// Some risk has severity `sev`.
pub open spec fn any_severity(risks: Seq<RiskView>, sev: RiskSeverity) -> bool {
    exists|i: int| 0 <= i < risks.len() && risks[i].severity == sev
}

/// A submission gets through: no hard risk, and either no soft risk
/// or soft risks acknowledged at `guarded`.
pub open spec fn gate_passes(risks: Seq<RiskView>, level: WriteLevel, i_understand: bool) -> bool {
    !any_severity(risks, RiskSeverity::Hard) && (!any_severity(risks, RiskSeverity::Soft) || (
    level == WriteLevel::Guarded && i_understand))
}

/// Why `enforce_gate` refused a submission.
#[derive(Debug, Clone)]
pub enum GateRefusal {
    /// "Will-fail" risks Canvas would reject; one bullet per hard risk.
    Blocked(Vec<String>),
    /// "Danger" risks not cleared at this level; one bullet per soft risk.
    Held(Vec<String>, WriteLevel),
}

fn collect_bullets(risks: &Vec<SubmitRisk>, sev: RiskSeverity) -> (b: Vec<String>)
    ensures
        strs_view(b@) == bullets(risks_view(risks@), sev),
        b.len() == 0 <==> !any_severity(risks_view(risks@), sev),
{
    let ghost rv = risks_view(risks@);
    let ghost pred = |r: RiskView| r.severity == sev;
    let mut b: Vec<String> = Vec::new();
    let mut i: usize = 0;
    assert(rv.take(0).filter(pred) =~= Seq::<RiskView>::empty()) by {
        reveal(Seq::filter);
    }
    assert(strs_view(b@) =~= rv.take(0).filter(pred).map_values(|r: RiskView| bullet(r)));
    while i < risks.len()
        invariant
            i <= risks.len(),
            rv == risks_view(risks@),
            pred == (|r: RiskView| r.severity == sev),
            strs_view(b@) == rv.take(i as int).filter(pred).map_values(|r: RiskView| bullet(r)),
            b.len() == 0 <==> !(exists|j: int| 0 <= j < i && rv[j].severity == sev),
        decreases risks.len() - i,
    {
        let ghost old_b = strs_view(b@);
        proof {
            assert(rv.take(i + 1) =~= rv.take(i as int).push(rv[i as int]));
            crate::strs::lemma_filter_push(rv.take(i as int), pred, rv[i as int]);
        }
        if risks[i].severity == sev {
            let mut line = crate::strs::owned("  - [");
            crate::strs::push_str(&mut line, risks[i].code.as_str());
            crate::strs::push_str(&mut line, "] ");
            crate::strs::push_str(&mut line, risks[i].message.as_str());
            b.push(line);
            assert(strs_view(b@) =~= old_b.push(bullet(rv[i as int])));
            assert(rv.take(i as int).filter(pred).push(rv[i as int]).map_values(
                |r: RiskView| bullet(r),
            ) =~= rv.take(i as int).filter(pred).map_values(|r: RiskView| bullet(r)).push(
                bullet(rv[i as int]),
            ));
        }
        i = i + 1;
    }
    assert(rv.take(risks.len() as int) =~= rv);
    b
}

/// Apply the `write_level` policy to the preflight risks.
///
///   Safe    — any risk aborts; `i_understand` is powerless.
///   Guarded — hard risks abort; soft risks abort unless `i_understand` is set.
pub fn enforce_gate(risks: &Vec<SubmitRisk>, level: WriteLevel, i_understand: bool) -> (r: Result<
    (),
    GateRefusal,
>)
    ensures
        r is Ok <==> gate_passes(risks_view(risks@), level, i_understand),
        match r {
            Ok(()) => true,
            Err(GateRefusal::Blocked(b)) => any_severity(risks_view(risks@), RiskSeverity::Hard)
                && strs_view(b@) == bullets(risks_view(risks@), RiskSeverity::Hard),
            Err(GateRefusal::Held(b, l)) => !any_severity(risks_view(risks@), RiskSeverity::Hard)
                && any_severity(risks_view(risks@), RiskSeverity::Soft) && l == level && strs_view(b@)
                == bullets(risks_view(risks@), RiskSeverity::Soft),
        },
{
    let hard = collect_bullets(risks, RiskSeverity::Hard);
    if hard.len() > 0 {
        return Err(GateRefusal::Blocked(hard));
    }
    let soft = collect_bullets(risks, RiskSeverity::Soft);
    if soft.len() > 0 {
        let cleared = level == WriteLevel::Guarded && i_understand;
        if !cleared {
            return Err(GateRefusal::Held(soft, level));
        }
    }
    Ok(())
}

/// The hint shown with held risks.
pub open spec fn held_hint(level: WriteLevel) -> Seq<char> {
    if level == WriteLevel::Safe {
        "write_level is `safe`, which blocks every risky submission — raise it to `guarded` and pass i_understand to proceed"@
    } else {
        "pass i_understand to proceed"@
    }
}

/// The text of a refusal.
pub open spec fn refusal_text(r: GateRefusal) -> Seq<char> {
    match r {
        GateRefusal::Blocked(b) => "Submission refused — "@ + dec_nat(b.len() as nat)
            + " blocking issue(s) Canvas would reject:\n"@ + join_seqs(strs_view(b@), "\n"@),
        GateRefusal::Held(b, l) => "Submission held — "@ + dec_nat(b.len() as nat) + " risk(s) ("@
            + held_hint(l) + "):\n"@ + join_seqs(strs_view(b@), "\n"@),
    }
}

impl GateRefusal {
    /// The error message for this refusal.
    pub fn message(&self) -> (m: String)
        ensures
            m@ == refusal_text(*self),
    {
        match self {
            GateRefusal::Blocked(b) => {
                let mut m = crate::strs::owned("Submission refused — ");
                crate::num::push_dec_u64(&mut m, b.len() as u64);
                crate::strs::push_str(&mut m, " blocking issue(s) Canvas would reject:\n");
                let j = crate::strs::join_strings(b, "\n");
                crate::strs::push_str(&mut m, j.as_str());
                m
            },
            GateRefusal::Held(b, l) => {
                let mut m = crate::strs::owned("Submission held — ");
                crate::num::push_dec_u64(&mut m, b.len() as u64);
                crate::strs::push_str(&mut m, " risk(s) (");
                if *l == WriteLevel::Safe {
                    crate::strs::push_str(
                        &mut m,
                        "write_level is `safe`, which blocks every risky submission — raise it to `guarded` and pass i_understand to proceed",
                    );
                } else {
                    crate::strs::push_str(&mut m, "pass i_understand to proceed");
                }
                crate::strs::push_str(&mut m, "):\n");
                let j = crate::strs::join_strings(b, "\n");
                crate::strs::push_str(&mut m, j.as_str());
                m
            },
        }
    }
}

// ───────────────────────────── laws of enforce_gate ─────────────────────────────

/// A hard risk aborts the submission at every level, acknowledged or not.
pub proof fn law_hard_risk_always_aborts(risks: Seq<RiskView>, level: WriteLevel, i_understand: bool)
    requires
        any_severity(risks, RiskSeverity::Hard),
    ensures
        !gate_passes(risks, level, i_understand),
{
}

/// `safe` blocks every soft risk, even when it is acknowledged.
pub proof fn law_safe_blocks_soft_risk(risks: Seq<RiskView>, i_understand: bool)
    requires
        any_severity(risks, RiskSeverity::Soft),
    ensures
        !gate_passes(risks, WriteLevel::Safe, i_understand),
{
}

/// At `guarded`, soft risks alone pass exactly when they are acknowledged.
pub proof fn law_guarded_soft_needs_ack(risks: Seq<RiskView>, i_understand: bool)
    requires
        !any_severity(risks, RiskSeverity::Hard),
        any_severity(risks, RiskSeverity::Soft),
    ensures
        gate_passes(risks, WriteLevel::Guarded, i_understand) == i_understand,
{
}

/// A clean preflight passes at every level.
pub proof fn law_clean_passes(level: WriteLevel, i_understand: bool)
    ensures
        gate_passes(Seq::<RiskView>::empty(), level, i_understand),
{
}

/// Levels are ordinal: what `safe` lets through, `guarded` lets through too.
pub proof fn law_guarded_allows_what_safe_allows(risks: Seq<RiskView>, i_understand: bool)
    requires
        gate_passes(risks, WriteLevel::Safe, i_understand),
    ensures
        gate_passes(risks, WriteLevel::Guarded, i_understand),
{
}

} // verus!

verus! {

// ───────────────────────────── before writing ─────────────────────────────

/// Why a submission stops before anything is written.
#[derive(Debug, Clone)]
pub enum SubmitError {
    /// `Files` with an empty list.
    NoFiles,
    /// A file that does not exist locally.
    FileNotFound(String),
    /// A text body that is empty once trimmed.
    EmptyText,
    /// `write_level` is `none`.
    WritesDisabled,
    /// The preflight gate refused.
    Refused(GateRefusal),
    /// A request to Canvas failed, with its message.
    Request(String),
}

/// The text of a submit error.
pub open spec fn submit_error_text(e: SubmitError) -> Seq<char> {
    match e {
        SubmitError::NoFiles => "No files given to submit."@,
        SubmitError::FileNotFound(p) => "File not found: "@ + p@,
        SubmitError::EmptyText => "Refusing to submit an empty text body."@,
        SubmitError::WritesDisabled => "Writes are disabled (write_level = none). Enable submission by either:\n  - set env NTUCOOL_WRITE_LEVEL=guarded   (one-off)\n  - add {\"write_level\": \"guarded\"} to .ntucool.json in your project\nLevels: safe (clean submissions only) | guarded (risky ones need i_understand) | unguarded (no checks)."@,
        SubmitError::Refused(g) => refusal_text(g),
        SubmitError::Request(m) => m@,
    }
}

impl SubmitError {
    /// The error message for this error.
    pub fn message(&self) -> (m: String)
        ensures
            m@ == submit_error_text(*self),
    {
        match self {
            SubmitError::NoFiles => crate::strs::owned("No files given to submit."),
            SubmitError::FileNotFound(p) => {
                let mut m = crate::strs::owned("File not found: ");
                crate::strs::push_str(&mut m, p.as_str());
                m
            },
            SubmitError::EmptyText => crate::strs::owned("Refusing to submit an empty text body."),
            SubmitError::WritesDisabled => crate::strs::owned(
                "Writes are disabled (write_level = none). Enable submission by either:\n  - set env NTUCOOL_WRITE_LEVEL=guarded   (one-off)\n  - add {\"write_level\": \"guarded\"} to .ntucool.json in your project\nLevels: safe (clean submissions only) | guarded (risky ones need i_understand) | unguarded (no checks).",
            ),
            SubmitError::Refused(g) => g.message(),
            SubmitError::Request(m) => crate::strs::owned(m.as_str()),
        }
    }
}

/// The text of a content-flag error.
pub open spec fn content_arg_text(e: ContentArgError) -> Seq<char> {
    match e {
        ContentArgError::Both => "Pass either file path(s) or --text, not both."@,
        ContentArgError::Neither => "Nothing to submit — give file path(s) or --text."@,
    }
}

impl ContentArgError {
    /// The error message for this error.
    pub fn message(&self) -> (m: &'static str)
        ensures
            m@ == content_arg_text(*self),
    {
        match self {
            ContentArgError::Both => "Pass either file path(s) or --text, not both.",
            ContentArgError::Neither => "Nothing to submit — give file path(s) or --text.",
        }
    }
}

/// The first index `i` with `!present[i]`, if any.
pub open spec fn first_missing(present: Seq<bool>, i: int) -> bool {
    0 <= i < present.len() && !present[i] && forall|j: int| 0 <= j < i ==> present[j]
}

/// The cheap local checks a submission must pass before any network write.
/// `present[i]` tells whether the i-th file exists on disk.
pub fn validate_content(content: &SubmitContent, present: &Vec<bool>) -> (r: Result<(), SubmitError>)
    requires
        content matches SubmitContent::Files(ps) ==> present.len() == ps.len(),
    ensures
        match *content {
            SubmitContent::Files(ps) => if ps.len() == 0 {
                r matches Err(SubmitError::NoFiles)
            } else if forall|i: int| 0 <= i < present.len() ==> present@[i] {
                r is Ok
            } else {
                r matches Err(SubmitError::FileNotFound(p)) && exists|i: int|
                    #[trigger] first_missing(present@, i) && p@ == ps@[i]@
            },
            SubmitContent::Text(body) => if crate::strs::spec_trim(body@).len() == 0 {
                r matches Err(SubmitError::EmptyText)
            } else {
                r is Ok
            },
        },
{
    match content {
        SubmitContent::Files(paths) => {
            if paths.len() == 0 {
                return Err(SubmitError::NoFiles);
            }
            let mut i: usize = 0;
            while i < paths.len()
                invariant
                    i <= paths.len() == present.len(),
                    *content == SubmitContent::Files(*paths),
                    forall|j: int| 0 <= j < i ==> present@[j],
                decreases paths.len() - i,
            {
                if !present[i] {
                    let p = crate::strs::owned(paths[i].as_str());
                    assert(first_missing(present@, i as int) && p@ == paths@[i as int]@);
                    return Err(SubmitError::FileNotFound(p));
                }
                i = i + 1;
            }
            Ok(())
        },
        SubmitContent::Text(body) => {
            if crate::strs::is_blank(body.as_str()) {
                Err(SubmitError::EmptyText)
            } else {
                Ok(())
            }
        },
    }
}

/// Whether the write path runs the preflight at `level`: `none` refuses all
/// writes, `unguarded` skips the preflight, every other level runs it.
pub fn preflight_required(level: WriteLevel) -> (r: Result<bool, SubmitError>)
    ensures
        level == WriteLevel::Off ==> r matches Err(SubmitError::WritesDisabled),
        level != WriteLevel::Off ==> r == Ok::<bool, SubmitError>(level != WriteLevel::Unguarded),
{
    match level {
        WriteLevel::Off => Err(SubmitError::WritesDisabled),
        WriteLevel::Unguarded => Ok(false),
        _ => Ok(true),
    }
}

/// What the write path does first with a submission.
#[derive(Debug)]
pub enum SubmitStep {
    /// Stop with this error; nothing is fetched or sent.
    Refuse(SubmitError),
    /// Fetch the assignment and apply the preflight gate before sending.
    Preflight,
    /// Send right away: `unguarded` skips the preflight.
    Send,
}

/// The content passes the local checks: at least one file, all of them
/// present, or a text that is not blank.
pub open spec fn content_ok(content: SubmitContent, present: Seq<bool>) -> bool {
    match content {
        SubmitContent::Files(ps) => ps.len() > 0 && forall|i: int|
            0 <= i < present.len() ==> present[i],
        SubmitContent::Text(body) => crate::strs::spec_trim(body@).len() > 0,
    }
}

/// `e` is the error the local checks give for this content.
pub open spec fn content_refusal(content: SubmitContent, present: Seq<bool>, e: SubmitError) -> bool {
    match content {
        SubmitContent::Files(ps) => if ps.len() == 0 {
            e is NoFiles
        } else {
            e matches SubmitError::FileNotFound(p) && exists|i: int|
                #[trigger] first_missing(present, i) && p@ == ps@[i]@
        },
        SubmitContent::Text(_) => e is EmptyText,
    }
}

/// The first step for a submission: the local checks' error, else the
/// refusal of `none`, else send at once under `unguarded`, else preflight.
pub open spec fn first_step_fits(
    content: SubmitContent,
    present: Seq<bool>,
    level: WriteLevel,
    step: SubmitStep,
) -> bool {
    if !content_ok(content, present) {
        step matches SubmitStep::Refuse(e) && content_refusal(content, present, e)
    } else {
        match level {
            WriteLevel::Off => step matches SubmitStep::Refuse(SubmitError::WritesDisabled),
            WriteLevel::Unguarded => step is Send,
            _ => step is Preflight,
        }
    }
}

/// The first step of the write path: the cheap local checks, then the write
/// level. `present[i]` tells whether the i-th file exists on disk.
pub fn first_submit_step(content: &SubmitContent, present: &Vec<bool>, level: WriteLevel) -> (r:
    SubmitStep)
    requires
        content matches SubmitContent::Files(ps) ==> present.len() == ps.len(),
    ensures
        first_step_fits(*content, present@, level, r),
{
    match validate_content(content, present) {
        Err(e) => SubmitStep::Refuse(e),
        Ok(()) => match preflight_required(level) {
            Err(e) => SubmitStep::Refuse(e),
            Ok(true) => SubmitStep::Preflight,
            Ok(false) => SubmitStep::Send,
        },
    }
}

/// A submission with no files, a missing file or a blank text, or one made
/// while writes are off, is refused before anything is fetched or sent.
pub proof fn law_refused_before_any_request(
    content: SubmitContent,
    present: Seq<bool>,
    level: WriteLevel,
    step: SubmitStep,
)
    requires
        first_step_fits(content, present, level, step),
    ensures
        !content_ok(content, present) || level == WriteLevel::Off ==> step is Refuse,
        content_ok(content, present) && level != WriteLevel::Off ==> !(step is Refuse),
{
}

/// The grader comment actually sent: the option's text when it is not blank.
pub fn comment_to_send(comment: &Option<String>) -> (r: Option<String>)
    ensures
        match *comment {
            Some(c) => if crate::strs::spec_trim(c@).len() == 0 {
                r is None
            } else {
                r matches Some(x) && x@ == c@
            },
            None => r is None,
        },
{
    match comment {
        Some(c) => {
            if crate::strs::is_blank(c.as_str()) {
                None
            } else {
                Some(crate::strs::owned(c.as_str()))
            }
        },
        None => None,
    }
}

// ───────────────────────────── the interactive gate ─────────────────────────────

/// What the command line does with a preflight before submitting.
#[derive(Debug, Clone)]
pub enum ConfirmStep {
    /// Refuse with this message.
    Refuse(String),
    /// Ask the user this yes/no question first.
    Ask(String),
    /// Submit without asking.
    Proceed,
}

/// The prompt when asking for confirmation.
pub open spec fn confirm_prompt(soft_count: nat) -> Seq<char> {
    if soft_count == 0 {
        "Submit now? (this is irreversible)"@
    } else {
        "Submit anyway, accepting the "@ + dec_nat(soft_count) + " risk(s) above?"@
    }
}

/// The interactive gate: hard risks refuse unless `unguarded`; soft risks
/// refuse at `safe`; otherwise the user confirms, unless the level is
/// `unguarded` or the risks were acknowledged up front.
pub fn confirm_step(risks: &Vec<SubmitRisk>, level: WriteLevel, i_understand: bool) -> (r:
    ConfirmStep)
    requires
        level != WriteLevel::Off,
    ensures
        ({
            let rv = risks_view(risks@);
            let hard = with_severity(rv, RiskSeverity::Hard).len();
            let soft = with_severity(rv, RiskSeverity::Soft).len();
            if hard > 0 && level != WriteLevel::Unguarded {
                r matches ConfirmStep::Refuse(m) && m@ == "submission refused ("@ + dec_nat(hard)
                    + " blocking issue(s))"@
            } else if soft > 0 && level == WriteLevel::Safe {
                r matches ConfirmStep::Refuse(m) && m@
                    == "submission refused — write_level is `safe`; raise it to `guarded` (and pass --i-understand) to submit despite the risk(s) above"@
            } else if level != WriteLevel::Unguarded && !i_understand {
                r matches ConfirmStep::Ask(p) && p@ == confirm_prompt(soft)
            } else {
                r is Proceed
            }
        }),
{
    let hard = collect_bullets(risks, RiskSeverity::Hard);
    let soft = collect_bullets(risks, RiskSeverity::Soft);
    proof {
        let rv = risks_view(risks@);
        assert(strs_view(hard@).len() == hard.len());
        assert(strs_view(soft@).len() == soft.len());
    }
    if hard.len() > 0 && level != WriteLevel::Unguarded {
        let mut m = crate::strs::owned("submission refused (");
        crate::num::push_dec_u64(&mut m, hard.len() as u64);
        crate::strs::push_str(&mut m, " blocking issue(s))");
        return ConfirmStep::Refuse(m);
    }
    if soft.len() > 0 && level == WriteLevel::Safe {
        return ConfirmStep::Refuse(
            crate::strs::owned(
                "submission refused — write_level is `safe`; raise it to `guarded` (and pass --i-understand) to submit despite the risk(s) above",
            ),
        );
    }
    if level != WriteLevel::Unguarded && !i_understand {
        if soft.len() == 0 {
            return ConfirmStep::Ask(crate::strs::owned("Submit now? (this is irreversible)"));
        }
        let mut p = crate::strs::owned("Submit anyway, accepting the ");
        crate::num::push_dec_u64(&mut p, soft.len() as u64);
        crate::strs::push_str(&mut p, " risk(s) above?");
        return ConfirmStep::Ask(p);
    }
    ConfirmStep::Proceed
}

/// What the command line submits: `--text` alone, or file paths alone.
#[derive(Debug, Clone, Copy, PartialEq, Eq, Structural)]
pub enum ContentArgError {
    /// Both file paths and `--text` were given.
    Both,
    /// Neither file paths nor `--text` were given.
    Neither,
}

/// The content the command-line flags describe.
pub fn content_from_args(files: Vec<String>, text: Option<String>) -> (r: Result<
    SubmitContent,
    ContentArgError,
>)
    ensures
        match text {
            Some(t) => if files.len() == 0 {
                r matches Ok(SubmitContent::Text(x)) && x == t
            } else {
                r == Err::<SubmitContent, ContentArgError>(ContentArgError::Both)
            },
            None => if files.len() == 0 {
                r == Err::<SubmitContent, ContentArgError>(ContentArgError::Neither)
            } else {
                r matches Ok(SubmitContent::Files(x)) && x == files
            },
        },
{
    match text {
        Some(t) => {
            if files.len() == 0 {
                Ok(SubmitContent::Text(t))
            } else {
                Err(ContentArgError::Both)
            }
        },
        None => {
            if files.len() == 0 {
                Err(ContentArgError::Neither)
            } else {
                Ok(SubmitContent::Files(files))
            }
        },
    }
}

} // verus!

verus! {

/// The last dot of `stem + "." + ext`, when `ext` holds no dot, is the one
/// between them.
proof fn lemma_last_dot(stem: Seq<char>, ext: Seq<char>)
    requires
        forall|k: int| 0 <= k < ext.len() ==> ext[k] != '.',
    ensures
        last_index_of(stem + seq!['.'] + ext, '.') == stem.len(),
{
    let n = stem + seq!['.'] + ext;
    crate::strs::lemma_last_index_of(n, '.');
    let l = last_index_of(n, '.');
    assert(n[stem.len() as int] == '.');
    if l > stem.len() {
        assert(n[l] == ext[l - stem.len() - 1]);
    }
}

/// A file's extension is what follows the last dot of its name: it holds
/// no dot, and the name is a non-empty stem, a dot and the extension.
pub proof fn law_extension_follows_last_dot(p: Seq<char>)
    ensures
        spec_extension(p) matches Some(e) ==> forall|k: int| 0 <= k < e.len() ==> e[k] != '.',
        spec_extension(p) is Some ==> exists|stem: Seq<char>|
            stem.len() > 0 && spec_file_name(p) == Some(
                #[trigger] (stem + seq!['.'] + spec_extension(p)->0),
            ),
{
    if let Some(name) = spec_file_name(p) {
        crate::strs::lemma_last_index_of(name, '.');
        let i = last_index_of(name, '.');
        if i > 0 {
            let e = name.subrange(i + 1, name.len() as int);
            let stem = name.subrange(0, i);
            assert forall|k: int| 0 <= k < e.len() implies e[k] != '.' by {
                assert(e[k] == name[i + 1 + k]);
            }
            assert(stem + seq!['.'] + e =~= name);
            assert(stem.len() > 0 && spec_file_name(p) == Some(stem + seq!['.'] + e));
            assert(spec_extension(p) == Some(e));
            assert(stem.len() > 0 && spec_file_name(p) == Some(stem + seq!['.'] + spec_extension(p)->0));
        }
    }
}

/// A file whose name is a dot and a dotless text (a hidden file such as
/// `.bashrc`) has no extension.
pub proof fn law_hidden_file_has_no_extension(p: Seq<char>, rest: Seq<char>)
    requires
        forall|k: int| 0 <= k < rest.len() ==> rest[k] != '.',
        spec_file_name(p) == Some(seq!['.'] + rest),
    ensures
        spec_extension(p) is None,
{
    lemma_last_dot(Seq::<char>::empty(), rest);
    assert(Seq::<char>::empty() + seq!['.'] + rest =~= seq!['.'] + rest);
}

/// Whether an extension is allowed does not depend on ASCII case, neither
/// of the file's extension nor of the allowed list: two lists that agree up
/// to ASCII case allow the same files.
pub proof fn law_extension_case_insensitive(p: Seq<char>, a: Seq<Seq<char>>, b: Seq<Seq<char>>)
    requires
        a.len() == b.len(),
        forall|i: int| 0 <= i < a.len() ==> crate::strs::ascii_lower_seq(#[trigger] a[i]) == crate::strs::ascii_lower_seq(b[i]),
    ensures
        extension_allowed(p, a) == extension_allowed(p, b),
{
    if let Some(e) = spec_extension(p) {
        if extension_allowed(p, a) {
            let i = choose|i: int| 0 <= i < a.len() && eq_ignore_ascii_case(a[i], e);
            assert(eq_ignore_ascii_case(b[i], e));
        }
        if extension_allowed(p, b) {
            let i = choose|i: int| 0 <= i < b.len() && eq_ignore_ascii_case(b[i], e);
            assert(crate::strs::ascii_lower_seq(a[i]) == crate::strs::ascii_lower_seq(b[i]));
            assert(eq_ignore_ascii_case(a[i], e));
        }
    }
}

/// A file named by a non-empty stem, a dot and a dotless extension has that
/// extension: `report.v2.pdf` has the extension `pdf`.
pub proof fn law_extension_of_name(p: Seq<char>, stem: Seq<char>, ext: Seq<char>)
    requires
        stem.len() > 0,
        forall|k: int| 0 <= k < ext.len() ==> ext[k] != '.',
        spec_file_name(p) == Some(stem + seq!['.'] + ext),
    ensures
        spec_extension(p) == Some(ext),
{
    lemma_last_dot(stem, ext);
    let n = stem + seq!['.'] + ext;
    assert(n.subrange(stem.len() as int + 1, n.len() as int) =~= ext);
}

} // verus!
