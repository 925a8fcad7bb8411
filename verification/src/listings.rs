//! What the command line prints for announcements, discussions,
//! assignments, users, grades and submissions, and the summaries the tool
//! layer hands out for topics, profiles and users. Fetching and printing
//! are left to the caller; numbers Canvas sends as floats arrive already
//! printed.

use vstd::prelude::*;

use crate::assignments::{opt_ts_text, ts_valid, Timestamp};
use crate::modules::text_or;
use crate::num::dec_int;
use crate::screens::lines_view;
use crate::strs::spec_trim;
use crate::text::html_text;
use crate::types::{AnnouncementSummary, DiscussionSummary, ProfileSummary, UserSummary};
use crate::views::spec_utc_format;

verus! {

/// A discussion topic (or announcement) as Canvas describes it.
#[derive(Debug, Clone)]
pub struct Topic {
    pub id: Option<i64>,
    pub title: Option<String>,
    pub user_name: Option<String>,
    pub posted_at: Option<Timestamp>,
    pub html_url: Option<String>,
    /// The body, in HTML.
    pub message: Option<String>,
    /// The number of replies.
    pub discussion_subentry_count: Option<i64>,
}

/// The timestamps of a topic can be printed.
pub open spec fn topic_valid(t: Topic) -> bool {
    t.posted_at matches Some(p) ==> ts_valid(p)
}

// ───────────────────────────── cells ─────────────────────────────

/// A date cell: `YYYY-MM-DD HH:MM` in UTC, or `-`.
pub open spec fn date_text(t: Option<Timestamp>) -> Seq<char> {
    match t {
        Some(x) => spec_utc_format(x.secs, x.nanos, "%Y-%m-%d %H:%M"@),
        None => "-"@,
    }
}

/// A date cell (see `date_text`).
pub fn date_cell(t: Option<Timestamp>) -> (r: String)
    requires
        t matches Some(x) ==> ts_valid(x),
    ensures
        r@ == date_text(t),
{
    match t {
        Some(x) => crate::views::utc_format(x, "%Y-%m-%d %H:%M"),
        None => crate::strs::owned("-"),
    }
}

/// An id cell: the number, or nothing.
pub open spec fn id_text(id: Option<i64>) -> Seq<char> {
    match id {
        Some(n) => dec_int(n as int),
        None => ""@,
    }
}

/// An id cell (see `id_text`).
pub fn id_cell(id: Option<i64>) -> (r: String)
    ensures
        r@ == id_text(id),
{
    match id {
        Some(n) => crate::num::i64_to_string(n),
        None => {
            proof {
                reveal_strlit("");
            }
            String::new()
        },
    }
}

/// A count cell: the number, or `0`.
pub open spec fn count_text(n: Option<i64>) -> Seq<char> {
    dec_int(
        match n {
            Some(c) => c as int,
            None => 0,
        },
    )
}

fn count_cell(n: Option<i64>) -> (r: String)
    ensures
        r@ == count_text(n),
{
    crate::num::i64_to_string(
        match n {
            Some(c) => c,
            None => 0,
        },
    )
}

fn text_or_exec(o: &Option<String>, dflt: &str) -> (r: String)
    ensures
        r@ == text_or(*o, dflt@),
{
    crate::modules::text_or_exec(o, dflt)
}

fn labelled(label: &str, value: &str) -> (r: String)
    ensures
        r@ == label@ + value@,
{
    let mut r = crate::strs::owned(label);
    crate::strs::push_str(&mut r, value);
    r
}

// ───────────────────────────── topics ─────────────────────────────

/// A row of `cool announcement list`: id, title and when it was posted.
pub fn announcement_table_row(t: &Topic) -> (r: Vec<String>)
    requires
        topic_valid(*t),
    ensures
        lines_view(r@) == seq![id_text(t.id), text_or(t.title, ""@), date_text(t.posted_at)],
{
    let r = vec![id_cell(t.id), text_or_exec(&t.title, ""), date_cell(t.posted_at)];
    assert(lines_view(r@) =~= seq![id_text(t.id), text_or(t.title, ""@), date_text(t.posted_at)]);
    r
}

/// A row of `cool discussion list`: id, title, when it was posted and its
/// number of replies.
pub fn discussion_table_row(t: &Topic) -> (r: Vec<String>)
    requires
        topic_valid(*t),
    ensures
        lines_view(r@) == seq![
            id_text(t.id),
            text_or(t.title, ""@),
            date_text(t.posted_at),
            count_text(t.discussion_subentry_count),
        ],
{
    let r = vec![
        id_cell(t.id),
        text_or_exec(&t.title, ""),
        date_cell(t.posted_at),
        count_cell(t.discussion_subentry_count),
    ];
    assert(lines_view(r@) =~= seq![
        id_text(t.id),
        text_or(t.title, ""@),
        date_text(t.posted_at),
        count_text(t.discussion_subentry_count),
    ]);
    r
}

/// The header lines of `cool announcement show` and (with the reply
/// count) `cool discussion show`.
pub open spec fn topic_header(t: Topic, with_replies: bool) -> Seq<Seq<char>> {
    let base = seq![
        "ID:        "@ + id_text(t.id),
        "Title:     "@ + text_or(t.title, "(unknown)"@),
        "Author:    "@ + text_or(t.user_name, "(unknown)"@),
        "Posted At: "@ + date_text(t.posted_at),
    ];
    if with_replies {
        base.push("Replies:   "@ + count_text(t.discussion_subentry_count))
    } else {
        base
    }
}

/// The header lines of a topic (see `topic_header`).
pub fn topic_header_lines(t: &Topic, with_replies: bool) -> (r: Vec<String>)
    requires
        topic_valid(*t),
    ensures
        lines_view(r@) == topic_header(*t, with_replies),
{
    let id = id_cell(t.id);
    let title = text_or_exec(&t.title, "(unknown)");
    let author = text_or_exec(&t.user_name, "(unknown)");
    let posted = date_cell(t.posted_at);
    let mut r = vec![
        labelled("ID:        ", id.as_str()),
        labelled("Title:     ", title.as_str()),
        labelled("Author:    ", author.as_str()),
        labelled("Posted At: ", posted.as_str()),
    ];
    if with_replies {
        let n = count_cell(t.discussion_subentry_count);
        r.push(labelled("Replies:   ", n.as_str()));
    }
    assert(lines_view(r@) =~= topic_header(*t, with_replies));
    r
}

/// The text of an HTML body, trimmed; nothing when the body is missing or
/// has no visible text.
pub open spec fn body_text(html: Option<String>) -> Option<Seq<char>> {
    match html {
        Some(h) => if spec_trim(html_text(h@)).len() == 0 {
            None
        } else {
            Some(spec_trim(html_text(h@)))
        },
        None => None,
    }
}

/// The text printed under a topic or an assignment (see `body_text`).
pub fn body_of(html: &Option<String>) -> (r: Option<String>)
    ensures
        crate::views::opt_text(r) == body_text(*html),
{
    match html {
        Some(h) => {
            let text = crate::text::html_to_text(h.as_str());
            let t = crate::strs::trim(text.as_str());
            if crate::strs::chars_of(t.as_str()).len() == 0 {
                None
            } else {
                Some(t)
            }
        },
        None => None,
    }
}

/// The summary of a discussion topic: nothing without an id; the title
/// defaults to empty and the posting time is printed in RFC 3339.
pub open spec fn discussion_summary_of(t: Topic, course_id: i64) -> Option<(i64, i64, Seq<char>, Option<Seq<char>>, Option<Seq<char>>, Option<Seq<char>>)> {
    match t.id {
        Some(id) => Some(
            (
                id,
                course_id,
                text_or(t.title, ""@),
                opt_ts_text(t.posted_at),
                crate::views::opt_text(t.user_name),
                crate::views::opt_text(t.html_url),
            ),
        ),
        None => None,
    }
}

/// The plain view of a discussion summary.
pub open spec fn discussion_view(d: DiscussionSummary) -> (i64, i64, Seq<char>, Option<Seq<char>>, Option<Seq<char>>, Option<Seq<char>>) {
    (
        d.id,
        d.course_id,
        d.title@,
        crate::views::opt_text(d.posted_at),
        crate::views::opt_text(d.author_name),
        crate::views::opt_text(d.html_url),
    )
}

/// The plain view of an announcement summary.
pub open spec fn announcement_view(a: AnnouncementSummary) -> (i64, i64, Seq<char>, Option<Seq<char>>, Option<Seq<char>>, Option<Seq<char>>) {
    (
        a.id,
        a.course_id,
        a.title@,
        crate::views::opt_text(a.posted_at),
        crate::views::opt_text(a.author_name),
        crate::views::opt_text(a.html_url),
    )
}

fn posted_text(t: Option<Timestamp>) -> (r: Option<String>)
    requires
        t matches Some(x) ==> ts_valid(x),
    ensures
        crate::views::opt_text(r) == opt_ts_text(t),
{
    match t {
        Some(x) => Some(crate::assignments::rfc3339(x.secs, x.nanos)),
        None => None,
    }
}

fn copy_opt(o: &Option<String>) -> (r: Option<String>)
    ensures
        crate::views::opt_text(r) == crate::views::opt_text(*o),
{
    match o {
        Some(s) => Some(s.clone()),
        None => None,
    }
}

/// The summary of a discussion topic (see `discussion_summary_of`).
pub fn discussion_summary(t: &Topic, course_id: i64) -> (r: Option<DiscussionSummary>)
    requires
        topic_valid(*t),
    ensures
        match r {
            Some(d) => discussion_summary_of(*t, course_id) == Some(discussion_view(d)),
            None => discussion_summary_of(*t, course_id) is None,
        },
{
    match t.id {
        Some(id) => Some(
            DiscussionSummary {
                id,
                course_id,
                title: text_or_exec(&t.title, ""),
                posted_at: posted_text(t.posted_at),
                author_name: copy_opt(&t.user_name),
                html_url: copy_opt(&t.html_url),
            },
        ),
        None => None,
    }
}

/// The summary of an announcement: the same fields as a discussion's.
pub fn announcement_summary(t: &Topic, course_id: i64) -> (r: Option<AnnouncementSummary>)
    requires
        topic_valid(*t),
    ensures
        match r {
            Some(a) => discussion_summary_of(*t, course_id) == Some(announcement_view(a)),
            None => discussion_summary_of(*t, course_id) is None,
        },
{
    match t.id {
        Some(id) => Some(
            AnnouncementSummary {
                id,
                course_id,
                title: text_or_exec(&t.title, ""),
                posted_at: posted_text(t.posted_at),
                author_name: copy_opt(&t.user_name),
                html_url: copy_opt(&t.html_url),
            },
        ),
        None => None,
    }
}

/// The summaries of a course's discussion topics, skipping topics without
/// an id, in order.
pub open spec fn discussion_summaries_of(ts: Seq<Topic>, course_id: i64) -> Seq<(i64, i64, Seq<char>, Option<Seq<char>>, Option<Seq<char>>, Option<Seq<char>>)>
    decreases ts.len(),
{
    if ts.len() == 0 {
        seq![]
    } else {
        let rest = discussion_summaries_of(ts.drop_last(), course_id);
        match discussion_summary_of(ts.last(), course_id) {
            Some(s) => rest.push(s),
            None => rest,
        }
    }
}

/// The summaries of a course's discussion topics (see
/// `discussion_summaries_of`).
pub fn discussion_summaries(ts: &Vec<Topic>, course_id: i64) -> (r: Vec<DiscussionSummary>)
    requires
        forall|i: int| 0 <= i < ts@.len() ==> topic_valid(#[trigger] ts@[i]),
    ensures
        r@.map_values(|d: DiscussionSummary| discussion_view(d)) == discussion_summaries_of(ts@, course_id),
{
    let mut r: Vec<DiscussionSummary> = Vec::new();
    let mut i: usize = 0;
    while i < ts.len()
        invariant
            i <= ts.len(),
            forall|j: int| 0 <= j < ts@.len() ==> topic_valid(#[trigger] ts@[j]),
            r@.map_values(|d: DiscussionSummary| discussion_view(d)) == discussion_summaries_of(
                ts@.take(i as int),
                course_id,
            ),
        decreases ts.len() - i,
    {
        assert(ts@.take(i + 1).drop_last() =~= ts@.take(i as int));
        let ghost before = r@;
        match discussion_summary(&ts[i], course_id) {
            Some(d) => {
                r.push(d);
                assert(r@.map_values(|d: DiscussionSummary| discussion_view(d)) =~= before.map_values(
                    |d: DiscussionSummary| discussion_view(d),
                ).push(discussion_view(d)));
            },
            None => {},
        }
        i = i + 1;
    }
    assert(ts@.take(ts.len() as int) =~= ts@);
    r
}

/// What chrono's `DateTime::parse_from_rfc3339` reads from a text, as the
/// UTC instant it names (seconds, nanoseconds); `None` when the text is not
/// RFC 3339. It depends on the text alone.
pub uninterp spec fn spec_parse_rfc3339(s: Seq<char>) -> Option<(i64, u32)>;

/// Reads an RFC 3339 timestamp with `chrono::DateTime::parse_from_rfc3339`
/// and gives the UTC instant it names.
#[verifier::external_body]
fn parse_rfc3339(s: &str) -> (r: Option<(i64, u32)>)
    ensures
        r == spec_parse_rfc3339(s@),
{
    chrono::DateTime::parse_from_rfc3339(s).ok().map(|t| (t.timestamp(), t.timestamp_subsec_nanos()))
}

/// A `since` threshold: the instant it names when it reads as RFC 3339,
/// else its bare text.
#[derive(Debug, Clone)]
pub enum Since {
    Instant(Timestamp),
    Text(String),
}

/// A `since` threshold as plain values.
pub enum SinceView {
    Instant(Timestamp),
    Text(Seq<char>),
}

/// The plain view of an optional threshold.
pub open spec fn since_view(s: Option<Since>) -> Option<SinceView> {
    match s {
        None => None,
        Some(Since::Instant(t)) => Some(SinceView::Instant(t)),
        Some(Since::Text(x)) => Some(SinceView::Text(x@)),
    }
}

/// How a `since` text is read: as the instant it names when it is RFC 3339,
/// else as text.
pub open spec fn since_of(s: Option<String>) -> Option<SinceView> {
    match s {
        None => None,
        Some(x) => Some(
            match spec_parse_rfc3339(x@) {
                Some((secs, nanos)) => SinceView::Instant(Timestamp { secs, nanos }),
                None => SinceView::Text(x@),
            },
        ),
    }
}

/// Whether an announcement passes the `since` threshold: without one every
/// announcement does; with an instant, those posted at or after it; with a
/// text that names no instant, those whose RFC 3339 posting time does not
/// sort before the text. Never one without a posting time.
pub open spec fn passes_since(posted_at: Option<Timestamp>, since: Option<SinceView>) -> bool {
    match since {
        None => true,
        Some(SinceView::Instant(th)) => match posted_at {
            Some(p) => !crate::assignments::ts_before(p, th),
            None => false,
        },
        Some(SinceView::Text(th)) => match posted_at {
            Some(p) => !crate::strs::seq_lt(crate::assignments::ts_text(p), th),
            None => false,
        },
    }
}

/// The announcements of several courses, each course's topics in order,
/// keeping those that pass `since` and have an id.
pub open spec fn announcement_summaries_of(per_course: Seq<(i64, Seq<Topic>)>, since: Option<SinceView>) -> Seq<(i64, i64, Seq<char>, Option<Seq<char>>, Option<Seq<char>>, Option<Seq<char>>)>
    decreases per_course.len(),
{
    if per_course.len() == 0 {
        seq![]
    } else {
        announcement_summaries_of(per_course.drop_last(), since) + discussion_summaries_of(
            per_course.last().1.filter(|t: Topic| passes_since(t.posted_at, since)),
            per_course.last().0,
        )
    }
}

/// The plain view of a course's topics.
pub open spec fn per_course_view(v: Seq<(i64, Vec<Topic>)>) -> Seq<(i64, Seq<Topic>)> {
    v.map_values(|p: (i64, Vec<Topic>)| (p.0, p.1@))
}

/// The announcement summaries of several courses, keeping those that pass
/// `since` when it is given (see `announcement_summaries_of` and `since_of`).
pub fn announcement_summaries(per_course: &Vec<(i64, Vec<Topic>)>, since: &Option<String>) -> (r: Vec<
    AnnouncementSummary,
>)
    requires
        forall|c: int, i: int|
            0 <= c < per_course@.len() && 0 <= i < per_course@[c].1@.len() ==> topic_valid(
                #[trigger] per_course@[c].1@[i],
            ),
    ensures
        r@.map_values(|a: AnnouncementSummary| announcement_view(a)) == announcement_summaries_of(
            per_course_view(per_course@),
            since_of(*since),
        ),
{
    let threshold = match since {
        None => None,
        Some(s) => match parse_rfc3339(s.as_str()) {
            None => Some(Since::Text(crate::strs::owned(s.as_str()))),
            Some((secs, nanos)) => Some(Since::Instant(Timestamp { secs, nanos })),
        },
    };
    summaries_since(per_course, &threshold)
}

/// The announcement summaries of several courses, with the threshold read.
fn summaries_since(per_course: &Vec<(i64, Vec<Topic>)>, threshold: &Option<Since>) -> (r: Vec<AnnouncementSummary>)
    requires
        forall|c: int, i: int|
            0 <= c < per_course@.len() && 0 <= i < per_course@[c].1@.len() ==> topic_valid(
                #[trigger] per_course@[c].1@[i],
            ),
    ensures
        r@.map_values(|a: AnnouncementSummary| announcement_view(a)) == announcement_summaries_of(
            per_course_view(per_course@),
            since_view(*threshold),
        ),
{
    let ghost since = since_view(*threshold);
    let mut r: Vec<AnnouncementSummary> = Vec::new();
    let mut c: usize = 0;
    while c < per_course.len()
        invariant
            c <= per_course.len(),
            since == since_view(*threshold),
            forall|c2: int, i: int|
                0 <= c2 < per_course@.len() && 0 <= i < per_course@[c2].1@.len() ==> topic_valid(
                    #[trigger] per_course@[c2].1@[i],
                ),
            r@.map_values(|a: AnnouncementSummary| announcement_view(a)) == announcement_summaries_of(
                per_course_view(per_course@).take(c as int),
                since,
            ),
        decreases per_course.len() - c,
    {
        let cid = per_course[c].0;
        let topics = &per_course[c].1;
        let ghost start = r@.map_values(|a: AnnouncementSummary| announcement_view(a));
        let ghost kept: Seq<Topic> = Seq::empty();
        let mut i: usize = 0;
        assert(topics@.take(0).filter(|t: Topic| passes_since(t.posted_at, since)) =~= Seq::<Topic>::empty())
            by {
            reveal(Seq::filter);
        }
        assert(r@.map_values(|a: AnnouncementSummary| announcement_view(a)) =~= start + discussion_summaries_of(
            Seq::<Topic>::empty(),
            cid,
        ));
        while i < topics.len()
            invariant
                i <= topics.len(),
                c < per_course.len(),
                since == since_view(*threshold),
                topics == &per_course@[c as int].1,
                cid == per_course@[c as int].0,
                forall|j: int| 0 <= j < topics@.len() ==> topic_valid(#[trigger] topics@[j]),
                r@.map_values(|a: AnnouncementSummary| announcement_view(a)) == start
                    + discussion_summaries_of(
                    topics@.take(i as int).filter(|t: Topic| passes_since(t.posted_at, since)),
                    cid,
                ),
            decreases topics.len() - i,
        {
            proof {
                assert(topic_valid(per_course@[c as int].1@[i as int]));
            }
            let t = &topics[i];
            let pass = match threshold {
                None => true,
                Some(Since::Instant(th)) => match t.posted_at {
                    Some(p) => !crate::assignments::is_before(p, *th),
                    None => false,
                },
                Some(Since::Text(th)) => match t.posted_at {
                    Some(p) => {
                        let posted = crate::assignments::rfc3339(p.secs, p.nanos);
                        !crate::strs::str_lt(posted.as_str(), th.as_str())
                    },
                    None => false,
                },
            };
            let ghost old_filtered = topics@.take(i as int).filter(
                |t: Topic| passes_since(t.posted_at, since),
            );
            proof {
                assert(topics@.take(i + 1).drop_last() =~= topics@.take(i as int));
                crate::strs::lemma_filter_push(
                    topics@.take(i as int),
                    |t: Topic| passes_since(t.posted_at, since),
                    topics@[i as int],
                );
                assert(topics@.take(i as int).push(topics@[i as int]) =~= topics@.take(i + 1));
            }
            if pass {
                let ghost before = r@;
                match announcement_summary(t, cid) {
                    Some(a) => {
                        r.push(a);
                        proof {
                            let nf = topics@.take(i + 1).filter(
                                |t: Topic| passes_since(t.posted_at, since),
                            );
                            assert(nf == old_filtered.push(topics@[i as int]));
                            assert(nf.drop_last() =~= old_filtered);
                            assert(r@.map_values(|a: AnnouncementSummary| announcement_view(a))
                                =~= before.map_values(|a: AnnouncementSummary| announcement_view(a)).push(
                                announcement_view(a),
                            ));
                        }
                    },
                    None => {
                        proof {
                            let nf = topics@.take(i + 1).filter(
                                |t: Topic| passes_since(t.posted_at, since),
                            );
                            assert(nf.drop_last() =~= old_filtered);
                        }
                    },
                }
            }
            i = i + 1;
        }
        proof {
            assert(topics@.take(topics.len() as int) =~= topics@);
            let pv = per_course_view(per_course@);
            assert(pv.take(c + 1).drop_last() =~= pv.take(c as int));
            assert(pv.take(c + 1).last() == (cid, topics@));
        }
        c = c + 1;
    }
    assert(per_course_view(per_course@).take(per_course.len() as int) =~= per_course_view(per_course@));
    r
}

// ───────────────────────────── assignments ─────────────────────────────

/// A row of `cool assignment list`: id, name, due date and points (as
/// printed, `-` when none).
pub fn assignment_table_row(
    id: Option<i64>,
    name: &Option<String>,
    due_at: Option<Timestamp>,
    points: &Option<String>,
) -> (r: Vec<String>)
    requires
        due_at matches Some(d) ==> ts_valid(d),
    ensures
        lines_view(r@) == seq![id_text(id), text_or(*name, ""@), date_text(due_at), text_or(*points, "-"@)],
{
    let r = vec![id_cell(id), text_or_exec(name, ""), date_cell(due_at), text_or_exec(points, "-")];
    assert(lines_view(r@) =~= seq![id_text(id), text_or(*name, ""@), date_text(due_at), text_or(*points, "-"@)]);
    r
}

/// The lines of `cool assignment info`: id, name (`(unknown)`), due date
/// and points (`-`).
pub fn assignment_info_lines(
    id: Option<i64>,
    name: &Option<String>,
    due_at: Option<Timestamp>,
    points: &Option<String>,
) -> (r: Vec<String>)
    requires
        due_at matches Some(d) ==> ts_valid(d),
    ensures
        lines_view(r@) == seq![
            "ID:          "@ + id_text(id),
            "Name:        "@ + text_or(*name, "(unknown)"@),
            "Due:         "@ + date_text(due_at),
            "Points:      "@ + text_or(*points, "-"@),
        ],
{
    let i = id_cell(id);
    let n = text_or_exec(name, "(unknown)");
    let d = date_cell(due_at);
    let p = text_or_exec(points, "-");
    let r = vec![
        labelled("ID:          ", i.as_str()),
        labelled("Name:        ", n.as_str()),
        labelled("Due:         ", d.as_str()),
        labelled("Points:      ", p.as_str()),
    ];
    assert(lines_view(r@) =~= seq![
        "ID:          "@ + id_text(id),
        "Name:        "@ + text_or(*name, "(unknown)"@),
        "Due:         "@ + date_text(due_at),
        "Points:      "@ + text_or(*points, "-"@),
    ]);
    r
}

// ───────────────────────────── profiles and users ─────────────────────────────

/// The logged-in user's profile as Canvas describes it.
#[derive(Debug, Clone)]
pub struct RawProfile {
    pub id: Option<i64>,
    pub name: Option<String>,
    pub login_id: Option<String>,
    pub primary_email: Option<String>,
}

/// The profile summary: id 0 and an empty name when Canvas leaves them out.
pub fn whoami_summary(p: &RawProfile) -> (r: ProfileSummary)
    ensures
        r.id == match p.id {
            Some(i) => i,
            None => 0,
        },
        r.name@ == text_or(p.name, ""@),
        crate::views::opt_text(r.login_id) == crate::views::opt_text(p.login_id),
        crate::views::opt_text(r.primary_email) == crate::views::opt_text(p.primary_email),
{
    ProfileSummary {
        id: match p.id {
            Some(i) => i,
            None => 0,
        },
        name: text_or_exec(&p.name, ""),
        login_id: copy_opt(&p.login_id),
        primary_email: copy_opt(&p.primary_email),
    }
}

/// The lines of `cool whoami`: name, login and e-mail, `(unknown)` when
/// missing.
pub fn whoami_lines(p: &RawProfile) -> (r: Vec<String>)
    ensures
        lines_view(r@) == seq![
            "Name:  "@ + text_or(p.name, "(unknown)"@),
            "Login: "@ + text_or(p.login_id, "(unknown)"@),
            "Email: "@ + text_or(p.primary_email, "(unknown)"@),
        ],
{
    let n = text_or_exec(&p.name, "(unknown)");
    let l = text_or_exec(&p.login_id, "(unknown)");
    let e = text_or_exec(&p.primary_email, "(unknown)");
    let r = vec![labelled("Name:  ", n.as_str()), labelled("Login: ", l.as_str()), labelled("Email: ", e.as_str())];
    assert(lines_view(r@) =~= seq![
        "Name:  "@ + text_or(p.name, "(unknown)"@),
        "Login: "@ + text_or(p.login_id, "(unknown)"@),
        "Email: "@ + text_or(p.primary_email, "(unknown)"@),
    ]);
    r
}

/// A user as Canvas describes it.
#[derive(Debug, Clone)]
pub struct RawUser {
    pub id: Option<i64>,
    pub name: Option<String>,
    pub short_name: Option<String>,
    pub sortable_name: Option<String>,
    pub login_id: Option<String>,
    pub email: Option<String>,
    pub avatar_url: Option<String>,
}

/// The summary of user `user_id`: the id asked for when Canvas leaves it
/// out, an empty name when it has none, the other fields as given.
pub fn users_get(user_id: i64, u: &RawUser) -> (r: UserSummary)
    ensures
        r.id == match u.id {
            Some(i) => i,
            None => user_id,
        },
        r.name@ == text_or(u.name, ""@),
        crate::views::opt_text(r.short_name) == crate::views::opt_text(u.short_name),
        crate::views::opt_text(r.sortable_name) == crate::views::opt_text(u.sortable_name),
        crate::views::opt_text(r.login_id) == crate::views::opt_text(u.login_id),
        crate::views::opt_text(r.email) == crate::views::opt_text(u.email),
        crate::views::opt_text(r.avatar_url) == crate::views::opt_text(u.avatar_url),
{
    UserSummary {
        id: match u.id {
            Some(i) => i,
            None => user_id,
        },
        name: text_or_exec(&u.name, ""),
        short_name: copy_opt(&u.short_name),
        sortable_name: copy_opt(&u.sortable_name),
        login_id: copy_opt(&u.login_id),
        email: copy_opt(&u.email),
        avatar_url: copy_opt(&u.avatar_url),
    }
}

/// `label` and the value, when there is one.
pub open spec fn optional_line(label: Seq<char>, v: Option<String>) -> Seq<Seq<char>> {
    match v {
        Some(s) => seq![label + s@],
        None => seq![],
    }
}

/// The lines of `cool user get`: id and name; short and sortable names
/// when known; login and e-mail (`(hidden)` when not shown); the avatar
/// when known.
pub open spec fn user_text(u: UserSummary) -> Seq<Seq<char>> {
    seq!["ID:        "@ + dec_int(u.id as int), "Name:      "@ + u.name@] + optional_line(
        "Short:     "@,
        u.short_name,
    ) + optional_line("Sortable:  "@, u.sortable_name) + seq![
        "Login:     "@ + text_or(u.login_id, "(hidden)"@),
        "Email:     "@ + text_or(u.email, "(hidden)"@),
    ] + optional_line("Avatar:    "@, u.avatar_url)
}

fn push_optional(r: &mut Vec<String>, label: &str, v: &Option<String>)
    ensures
        lines_view(final(r)@) == lines_view(old(r)@) + optional_line(label@, *v),
{
    match v {
        Some(s) => {
            let ghost before = r@;
            r.push(labelled(label, s.as_str()));
            assert(lines_view(r@) =~= lines_view(before) + optional_line(label@, *v));
        },
        None => {
            assert(lines_view(r@) =~= lines_view(r@) + optional_line(label@, *v));
        },
    }
}

/// The lines of `cool user get` (see `user_text`).
pub fn user_lines(u: &UserSummary) -> (r: Vec<String>)
    ensures
        lines_view(r@) == user_text(*u),
{
    let id = crate::num::i64_to_string(u.id);
    let mut r = vec![labelled("ID:        ", id.as_str()), labelled("Name:      ", u.name.as_str())];
    let ghost s0 = lines_view(r@);
    assert(s0 =~= seq!["ID:        "@ + dec_int(u.id as int), "Name:      "@ + u.name@]);
    push_optional(&mut r, "Short:     ", &u.short_name);
    push_optional(&mut r, "Sortable:  ", &u.sortable_name);
    let login = text_or_exec(&u.login_id, "(hidden)");
    let email = text_or_exec(&u.email, "(hidden)");
    let ghost s1 = lines_view(r@);
    r.push(labelled("Login:     ", login.as_str()));
    r.push(labelled("Email:     ", email.as_str()));
    assert(lines_view(r@) =~= s1 + seq![
        "Login:     "@ + text_or(u.login_id, "(hidden)"@),
        "Email:     "@ + text_or(u.email, "(hidden)"@),
    ]);
    push_optional(&mut r, "Avatar:    ", &u.avatar_url);
    assert(lines_view(r@) =~= user_text(*u));
    r
}

// ───────────────────────────── grades and submissions ─────────────────────────────

/// The two lines of a course's grade: `[<id>] <name>`, then the current and
/// final score (printed to one decimal) and letter grade, `—` for any that
/// is missing.
pub open spec fn grade_text(
    course_id: i64,
    course_name: Option<String>,
    current_score: Option<String>,
    current_grade: Option<String>,
    final_score: Option<String>,
    final_grade: Option<String>,
) -> Seq<char> {
    "["@ + dec_int(course_id as int) + "] "@ + text_or(course_name, "(unknown)"@) + "\n    current: "@
        + text_or(current_score, "—"@) + " ("@ + text_or(current_grade, "—"@) + ")    final: "@
        + text_or(final_score, "—"@) + " ("@ + text_or(final_grade, "—"@) + ")"@
}

/// The lines of one grade (see `grade_text`).
pub fn grade_entry_text(
    course_id: i64,
    course_name: &Option<String>,
    current_score: &Option<String>,
    current_grade: &Option<String>,
    final_score: &Option<String>,
    final_grade: &Option<String>,
) -> (r: String)
    ensures
        r@ == grade_text(
            course_id,
            *course_name,
            *current_score,
            *current_grade,
            *final_score,
            *final_grade,
        ),
{
    let mut r = crate::strs::owned("[");
    crate::num::push_dec_i64(&mut r, course_id);
    crate::strs::push_str(&mut r, "] ");
    crate::strs::push_str(&mut r, text_or_exec(course_name, "(unknown)").as_str());
    crate::strs::push_str(&mut r, "\n    current: ");
    crate::strs::push_str(&mut r, text_or_exec(current_score, "—").as_str());
    crate::strs::push_str(&mut r, " (");
    crate::strs::push_str(&mut r, text_or_exec(current_grade, "—").as_str());
    crate::strs::push_str(&mut r, ")    final: ");
    crate::strs::push_str(&mut r, text_or_exec(final_score, "—").as_str());
    crate::strs::push_str(&mut r, " (");
    crate::strs::push_str(&mut r, text_or_exec(final_grade, "—").as_str());
    crate::strs::push_str(&mut r, ")");
    r
}

/// The score of a submission: `score/points`, the score alone, `—/points`,
/// or `—`.
pub open spec fn score_text(score: Option<String>, points: Option<String>) -> Seq<char> {
    match (score, points) {
        (Some(s), Some(p)) => s@ + "/"@ + p@,
        (Some(s), None) => s@,
        (None, Some(p)) => "—/"@ + p@,
        (None, None) => "—"@,
    }
}

/// The flags of a submission that are set, among `late`, `missing` and
/// `excused`, joined by commas.
pub open spec fn flags_text(late: bool, missing: bool, excused: bool) -> Seq<char> {
    let fs = (if late {
        seq!["late"@]
    } else {
        seq![]
    }) + (if missing {
        seq!["missing"@]
    } else {
        seq![]
    }) + (if excused {
        seq!["excused"@]
    } else {
        seq![]
    });
    crate::strs::join_seqs(fs, ","@)
}

/// The line of one of my submissions: `[c<course> a<assignment>] <name> —
/// <score> (<state>)`, then ` [<flags>]` when any flag is set.
pub open spec fn submission_text(
    course_id: i64,
    assignment_id: i64,
    name: Option<String>,
    score: Option<String>,
    points: Option<String>,
    state: Option<String>,
    late: Option<bool>,
    missing: Option<bool>,
    excused: Option<bool>,
) -> Seq<char> {
    let flags = flags_text(late == Some(true), missing == Some(true), excused == Some(true));
    "[c"@ + dec_int(course_id as int) + " a"@ + dec_int(assignment_id as int) + "] "@ + text_or(
        name,
        "(unknown)"@,
    ) + " — "@ + score_text(score, points) + " ("@ + text_or(state, "?"@) + ")"@ + if flags.len()
        == 0 {
        ""@
    } else {
        " ["@ + flags + "]"@
    }
}

/// The line of one of my submissions (see `submission_text`); the score and
/// points arrive as printed.
pub fn submission_line(
    course_id: i64,
    assignment_id: i64,
    name: &Option<String>,
    score: &Option<String>,
    points: &Option<String>,
    state: &Option<String>,
    late: Option<bool>,
    missing: Option<bool>,
    excused: Option<bool>,
) -> (r: String)
    ensures
        r@ == submission_text(
            course_id,
            assignment_id,
            *name,
            *score,
            *points,
            *state,
            late,
            missing,
            excused,
        ),
{
    proof {
        reveal_strlit("");
    }
    let mut r = crate::strs::owned("[c");
    crate::num::push_dec_i64(&mut r, course_id);
    crate::strs::push_str(&mut r, " a");
    crate::num::push_dec_i64(&mut r, assignment_id);
    crate::strs::push_str(&mut r, "] ");
    crate::strs::push_str(&mut r, text_or_exec(name, "(unknown)").as_str());
    crate::strs::push_str(&mut r, " — ");
    match (score, points) {
        (Some(s), Some(p)) => {
            crate::strs::push_str(&mut r, s.as_str());
            crate::strs::push_str(&mut r, "/");
            crate::strs::push_str(&mut r, p.as_str());
        },
        (Some(s), None) => crate::strs::push_str(&mut r, s.as_str()),
        (None, Some(p)) => {
            crate::strs::push_str(&mut r, "—/");
            crate::strs::push_str(&mut r, p.as_str());
        },
        (None, None) => crate::strs::push_str(&mut r, "—"),
    }
    crate::strs::push_str(&mut r, " (");
    crate::strs::push_str(&mut r, text_or_exec(state, "?").as_str());
    crate::strs::push_str(&mut r, ")");
    let mut flags: Vec<String> = Vec::new();
    if late == Some(true) {
        flags.push(crate::strs::owned("late"));
    }
    if missing == Some(true) {
        flags.push(crate::strs::owned("missing"));
    }
    if excused == Some(true) {
        flags.push(crate::strs::owned("excused"));
    }
    let joined = crate::strs::join_strings(&flags, ",");
    proof {
        let fs = (if late == Some(true) {
            seq!["late"@]
        } else {
            seq![]
        }) + (if missing == Some(true) {
            seq!["missing"@]
        } else {
            seq![]
        }) + (if excused == Some(true) {
            seq!["excused"@]
        } else {
            seq![]
        });
        assert(flags@.map_values(|s: String| s@) =~= fs);
    }
    if crate::strs::chars_of(joined.as_str()).len() > 0 {
        crate::strs::push_str(&mut r, " [");
        crate::strs::push_str(&mut r, joined.as_str());
        crate::strs::push_str(&mut r, "]");
    } else {
        assert(r@ + ""@ =~= r@);
    }
    r
}

} // verus!
