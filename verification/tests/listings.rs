use ntucool::assignments::{ListFilter, Timestamp};
use ntucool::listings::{
    announcement_summaries, announcement_summary, announcement_table_row, assignment_info_lines,
    assignment_table_row, body_of, date_cell, discussion_summaries, discussion_summary,
    discussion_table_row, grade_entry_text, id_cell, submission_line, topic_header_lines,
    user_lines, users_get, whoami_lines, whoami_summary, RawProfile, RawUser, Topic,
};

// 2023-11-14 22:13:20 UTC
const T0: i64 = 1_700_000_000;

fn at(secs: i64) -> Timestamp {
    Timestamp { secs, nanos: 0 }
}

fn topic(id: Option<i64>, title: Option<&str>, posted: Option<i64>) -> Topic {
    Topic {
        id,
        title: title.map(|t| t.to_string()),
        user_name: Some("Prof. Lin".to_string()),
        posted_at: posted.map(at),
        html_url: Some("https://cool.ntu.edu.tw/x".to_string()),
        message: Some("<p>Hello</p><p>World</p>".to_string()),
        discussion_subentry_count: Some(3),
    }
}

#[test]
fn cells() {
    assert_eq!(date_cell(Some(at(T0))), "2023-11-14 22:13");
    assert_eq!(date_cell(None), "-");
    assert_eq!(id_cell(Some(42)), "42");
    assert_eq!(id_cell(None), "");
}

#[test]
fn topic_rows_and_headers() {
    let t = topic(Some(5), Some("Midterm"), Some(T0));
    assert_eq!(announcement_table_row(&t), vec!["5", "Midterm", "2023-11-14 22:13"]);
    assert_eq!(discussion_table_row(&t), vec!["5", "Midterm", "2023-11-14 22:13", "3"]);
    let mut u = topic(None, None, None);
    u.discussion_subentry_count = None;
    assert_eq!(discussion_table_row(&u), vec!["", "", "-", "0"]);
    assert_eq!(
        topic_header_lines(&t, false),
        vec!["ID:        5", "Title:     Midterm", "Author:    Prof. Lin", "Posted At: 2023-11-14 22:13"]
    );
    u.user_name = None;
    let h = topic_header_lines(&u, true);
    assert_eq!(h[1], "Title:     (unknown)");
    assert_eq!(h[2], "Author:    (unknown)");
    assert_eq!(h[4], "Replies:   0");
}

#[test]
fn bodies_are_trimmed_text() {
    assert_eq!(body_of(&Some("<p>Hello</p><p>World</p>".to_string())), Some("Hello\nWorld".to_string()));
    assert_eq!(body_of(&Some("<p>  </p>".to_string())), None);
    assert_eq!(body_of(&None), None);
}

#[test]
fn summaries_need_an_id() {
    let t = topic(Some(9), None, Some(T0));
    let d = discussion_summary(&t, 100).unwrap();
    assert_eq!(d.id, 9);
    assert_eq!(d.course_id, 100);
    assert_eq!(d.title, "");
    assert_eq!(d.posted_at.as_deref(), Some("2023-11-14T22:13:20+00:00"));
    assert_eq!(d.author_name.as_deref(), Some("Prof. Lin"));
    let a = announcement_summary(&t, 100).unwrap();
    assert_eq!(a.id, 9);
    assert!(discussion_summary(&topic(None, Some("x"), None), 1).is_none());
    let all = discussion_summaries(&vec![topic(Some(1), None, None), topic(None, None, None), topic(Some(3), None, None)], 7);
    assert_eq!(all.iter().map(|d| d.id).collect::<Vec<_>>(), vec![1, 3]);
}

#[test]
fn announcements_since_a_threshold() {
    let per_course = vec![
        (1, vec![topic(Some(10), Some("new"), Some(T0)), topic(Some(11), Some("old"), Some(T0 - 2 * 86400))]),
        (2, vec![topic(Some(20), Some("undated"), None), topic(None, Some("no id"), Some(T0)), topic(Some(21), Some("new2"), Some(T0))]),
    ];
    let since = Some("2023-11-14T00:00:00Z".to_string());
    let got = announcement_summaries(&per_course, &since);
    assert_eq!(got.iter().map(|a| (a.course_id, a.id)).collect::<Vec<_>>(), vec![(1, 10), (2, 21)]);
    let all = announcement_summaries(&per_course, &None);
    assert_eq!(all.iter().map(|a| a.id).collect::<Vec<_>>(), vec![10, 11, 20, 21]);
    // A topic posted exactly at the threshold is kept, whatever offset the threshold is written in.
    let exact = announcement_summaries(&per_course, &Some("2023-11-14T22:13:20Z".to_string()));
    assert_eq!(exact.iter().map(|a| a.id).collect::<Vec<_>>(), vec![10, 21]);
    let offset = announcement_summaries(&per_course, &Some("2023-11-15T06:13:20+08:00".to_string()));
    assert_eq!(offset.iter().map(|a| a.id).collect::<Vec<_>>(), vec![10, 21]);
    let later = announcement_summaries(&per_course, &Some("2023-11-14T22:13:21Z".to_string()));
    assert!(later.is_empty());
    // A threshold that names no instant is compared as text with the RFC 3339
    // posting time.
    let day = announcement_summaries(&per_course, &Some("2023-11-14".to_string()));
    assert_eq!(day.iter().map(|a| a.id).collect::<Vec<_>>(), vec![10, 21]);
    assert!(announcement_summaries(&per_course, &Some("yesterday".to_string())).is_empty());
    let early = announcement_summaries(&per_course, &Some("2000".to_string()));
    assert_eq!(early.iter().map(|a| a.id).collect::<Vec<_>>(), vec![10, 11, 21]);
}

#[test]
fn assignment_rows() {
    assert_eq!(
        assignment_table_row(Some(1), &Some("HW1".to_string()), Some(at(T0)), &Some("10".to_string())),
        vec!["1", "HW1", "2023-11-14 22:13", "10"]
    );
    assert_eq!(assignment_table_row(None, &None, None, &None), vec!["", "", "-", "-"]);
    assert_eq!(
        assignment_info_lines(Some(1), &None, None, &Some("7.5".to_string())),
        vec!["ID:          1", "Name:        (unknown)", "Due:         -", "Points:      7.5"]
    );
}

#[test]
fn profiles_and_users() {
    let p = RawProfile { id: None, name: None, login_id: Some("b10".to_string()), primary_email: None };
    let s = whoami_summary(&p);
    assert_eq!(s.id, 0);
    assert_eq!(s.name, "");
    assert_eq!(s.login_id.as_deref(), Some("b10"));
    assert_eq!(whoami_lines(&p), vec!["Name:  (unknown)", "Login: b10", "Email: (unknown)"]);
    let u = RawUser {
        id: None,
        name: Some("Lin".to_string()),
        short_name: Some("L".to_string()),
        sortable_name: None,
        login_id: None,
        email: None,
        avatar_url: Some("https://a/x.png".to_string()),
    };
    let sum = users_get(77, &u);
    assert_eq!(sum.id, 77);
    assert_eq!(
        user_lines(&sum),
        vec![
            "ID:        77",
            "Name:      Lin",
            "Short:     L",
            "Login:     (hidden)",
            "Email:     (hidden)",
            "Avatar:    https://a/x.png",
        ]
    );
}

#[test]
fn grade_and_submission_lines() {
    assert_eq!(
        grade_entry_text(5, &Some("Calculus".to_string()), &Some("93.5".to_string()), &Some("A".to_string()), &None, &None),
        "[5] Calculus\n    current: 93.5 (A)    final: — (—)"
    );
    assert_eq!(
        submission_line(1, 2, &Some("HW".to_string()), &Some("8".to_string()), &Some("10".to_string()), &Some("graded".to_string()), Some(true), None, Some(true)),
        "[c1 a2] HW — 8/10 (graded) [late,excused]"
    );
    assert_eq!(submission_line(1, 2, &None, &None, &None, &None, None, Some(false), None), "[c1 a2] (unknown) — — (?)");
    assert_eq!(submission_line(3, 4, &None, &None, &Some("5".to_string()), &None, None, Some(true), None), "[c3 a4] (unknown) — —/5 (?) [missing]");
}

#[test]
fn assignment_list_filter_query() {
    let unfiltered = ListFilter::default();
    assert!(unfiltered.query().is_empty());
    let f = ListFilter::for_bucket(Some("upcoming"));
    assert_eq!(f.query(), vec![("bucket".to_string(), "upcoming".to_string())]);
    assert!(f.search_term.is_none() && f.embed.is_none());
    assert!(ListFilter::for_bucket(None).query().is_empty());
    let g = ListFilter {
        bucket: Some("past".to_string()),
        search_term: Some("hw".to_string()),
        embed: Some(vec!["submission".to_string()]),
    };
    assert_eq!(
        g.query(),
        vec![
            ("bucket".to_string(), "past".to_string()),
            ("search_term".to_string(), "hw".to_string()),
        ]
    );
}
