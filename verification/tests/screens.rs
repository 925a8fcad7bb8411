use ntucool::assignments::Timestamp;
use ntucool::client::{get_client, next_step, Attempt, Reply, RequestStep};
use ntucool::screens::{
    announcement_row, assignment_row, course_rows, deadlines_panel_message, discussion_row,
    file_preview, header_text, help_lines, module_row, notification_lines, page_row, panel_title,
    quick_action_lines, quiz_row, result_count_text, result_lines, shows_splash, status_bar_text,
    tab_bar_labels, truncate,
};
use ntucool::tui::{
    CourseTab, CourseViewState, DashboardFocus, NotificationItem, NotificationType, Screen,
    SearchResult, Urgency,
};
use ntucool::tui_app::{App, CourseEntry};
use ntucool::views::FileInfo;

fn at(secs: i64) -> Timestamp {
    Timestamp { secs, nanos: 0 }
}

// 2023-11-14 22:13:20 UTC
const T0: i64 = 1_700_000_000;

// ───────────────────────────── header ─────────────────────────────

#[test]
fn header_on_login_without_room_to_pad() {
    let app = App::new(false);
    assert_eq!(header_text(&app, &None, 30), " NTU COOL Ctrl+P: Search  ?: Help ");
}

#[test]
fn header_on_dashboard_fills_the_width() {
    let mut app = App::new(true);
    app.unread_count = 3;
    let h = header_text(&app, &Some("Alice".to_string()), 80);
    assert_eq!(h.len(), 80);
    assert!(h.starts_with(" NTU COOL  |  Dashboard   |  Alice  "));
    assert!(h.ends_with("  [3 unread]  Ctrl+P: Search  ?: Help "));
    let title = " NTU COOL  |  Dashboard   |  Alice ";
    let right = "  [3 unread]  Ctrl+P: Search  ?: Help ";
    let expected = format!("{title}{}{right}", " ".repeat(80 - title.len() - right.len()));
    assert_eq!(h, expected);
}

#[test]
fn header_on_dashboard_without_user_name() {
    let app = App::new(true);
    assert_eq!(header_text(&app, &None, 0), " NTU COOL  |  Dashboard  Ctrl+P: Search  ?: Help ");
    assert_eq!(
        header_text(&app, &Some(String::new()), 0),
        " NTU COOL  |  Dashboard  Ctrl+P: Search  ?: Help "
    );
}

#[test]
fn header_names_the_course_shown() {
    let mut app = App::new(true);
    app.screen = Screen::CourseDetail(42);
    assert_eq!(header_text(&app, &None, 0), " NTU COOL  |  Course Ctrl+P: Search  ?: Help ");
    app.course_views.push(CourseViewState::new(42, "Calculus".to_string()));
    assert_eq!(header_text(&app, &None, 0), " NTU COOL  |  Calculus Ctrl+P: Search  ?: Help ");
}

// ───────────────────────────── status bar ─────────────────────────────

#[test]
fn status_bar_shows_message_loading_and_sync_age() {
    let mut app = App::new(true);
    app.status_message = Some("Ready".to_string());
    app.loading = true;
    app.last_sync = Some(at(T0 - 120));
    assert_eq!(status_bar_text(&app, at(T0), 0), " Ready [loading...] synced 2m ago ");
    app.loading = false;
    app.last_sync = Some(at(T0 - 30));
    assert_eq!(status_bar_text(&app, at(T0), 0), " Readysynced just now ");
    app.last_sync = Some(at(T0 - 7200));
    assert_eq!(status_bar_text(&app, at(T0), 0), " Readysynced 2h ago ");
    app.last_sync = None;
    app.status_message = None;
    assert_eq!(status_bar_text(&app, at(T0), 5), "     ");
    assert_eq!(status_bar_text(&app, at(T0), 1), "  ");
}

// ───────────────────────────── help and notifications ─────────────────────────────

#[test]
fn help_lists_every_binding_right_aligned() {
    let lines = help_lines();
    assert_eq!(lines.len(), 56);
    assert_eq!(lines[0], "");
    assert_eq!(lines[1], "  Global");
    assert_eq!(lines[2], "");
    assert_eq!(lines[3], format!("    {:>16}   {}", "Ctrl+C", "Quit"));
    assert_eq!(lines[3], "              Ctrl+C   Quit");
    assert!(lines.contains(&format!("    {:>16}   {}", "Tab / Shift+Tab", "Cycle through tabs")));
    assert!(lines.contains(&"  Course Detail".to_string()));
    assert_eq!(lines[54], "");
    assert_eq!(lines[55], "  Press Esc or ? to close");
}

fn note(title: &str, course: Option<&str>, secs: i64) -> NotificationItem {
    NotificationItem {
        id: 1,
        title: title.to_string(),
        body: String::new(),
        course_name: course.map(|c| c.to_string()),
        timestamp: at(secs),
        read: false,
        notification_type: NotificationType::Assignment,
    }
}

#[test]
fn notifications_three_lines_each() {
    assert_eq!(notification_lines(&vec![]), vec!["No notifications".to_string()]);
    let lines = notification_lines(&vec![note("HW1 due", Some("CS101"), T0), note("Hello", None, T0)]);
    assert_eq!(
        lines,
        vec![
            "HW1 due".to_string(),
            "  CS101 | 11/14 22:13".to_string(),
            String::new(),
            "Hello".to_string(),
            "  System | 11/14 22:13".to_string(),
            String::new(),
        ]
    );
}

// ───────────────────────────── course tabs ─────────────────────────────

#[test]
fn panel_titles_and_tab_bar() {
    assert_eq!(panel_title("Courses", 3), " Courses (3) ");
    assert_eq!(panel_title("Pages", 0), " Pages (0) ");
    let labels = tab_bar_labels();
    assert_eq!(labels.len(), 8);
    for (t, l) in CourseTab::all().iter().zip(labels.iter()) {
        assert_eq!(*l, format!(" {} {} ", t.icon(), t.label()));
    }
}

#[test]
fn assignment_rows_show_submission_due_and_points() {
    let r = assignment_row(&Some("HW1".to_string()), None, Some(true), &Some("10".to_string()), true, at(T0));
    assert_eq!(r.title, " > HW1 [submitted]");
    assert_eq!(r.due, "No due date");
    assert_eq!(r.urgency, Urgency::NoDue);
    assert_eq!(r.points, "  |  10 pts");
    let r = assignment_row(&None, Some(at(T0 + 3 * 3600)), None, &None, false, at(T0));
    assert_eq!(r.title, "   Untitled");
    assert_eq!(r.due, "in 3h 0m");
    assert_eq!(r.urgency, Urgency::Urgent);
    assert_eq!(r.points, "");
    let r = assignment_row(&Some("Old".to_string()), Some(at(T0 - 7200)), Some(false), &None, false, at(T0));
    assert_eq!(r.due, "2h overdue");
    assert_eq!(r.urgency, Urgency::NoDue);
}

#[test]
fn topic_rows() {
    let (l1, l2) = announcement_row(&None, &Some("Prof".to_string()), Some(at(T0 - 300)), true, at(T0));
    assert_eq!(l1, " > Untitled");
    assert_eq!(l2, "     Prof  |  5m ago");
    let (l1, l2) = announcement_row(&Some("Exam".to_string()), &None, None, false, at(T0));
    assert_eq!(l1, "   Exam");
    assert_eq!(l2, "     Unknown  |  ");
    let (l1, l2) = discussion_row(&Some("Q&A".to_string()), Some(4), Some(2), Some(at(T0 - 2 * 86400)), false, at(T0));
    assert_eq!(l1, "   Q&A (2 new)");
    assert_eq!(l2, "     4 replies  |  2d ago");
    let (l1, l2) = discussion_row(&Some("Q&A".to_string()), None, Some(0), None, true, at(T0));
    assert_eq!(l1, " > Q&A");
    assert_eq!(l2, "     0 replies  |  ");
}

#[test]
fn module_page_and_quiz_rows() {
    assert_eq!(module_row(&Some("Week 1".to_string()), Some(4), true), " > [ ] Week 1  (4 items)");
    assert_eq!(module_row(&None, None, false), "   [ ] Untitled  (0 items)");
    assert_eq!(page_row(&Some("Syllabus".to_string()), Some(true), Some(at(T0 - 3600)), false, at(T0)), "   Syllabus  1h ago");
    assert_eq!(page_row(&Some("Notes".to_string()), Some(false), None, true, at(T0)), " > [draft] Notes  ");
    assert_eq!(page_row(&None, None, None, false, at(T0)), "   [draft] Untitled  ");
    let (l1, l2) = quiz_row(&Some("Quiz 1".to_string()), &None, None, &Some("5".to_string()), false, at(T0));
    assert_eq!(l1, "   Quiz 1");
    assert_eq!(l2, "     [quiz]  No due date  |  5 pts");
    let (_, l2) = quiz_row(&None, &Some("survey".to_string()), Some(at(T0 + 2 * 86400)), &None, true, at(T0));
    assert_eq!(l2, "     [survey]  in 2d");
}

#[test]
fn file_preview_lines() {
    let f = FileInfo {
        display_name: None,
        filename: Some("a.pdf".to_string()),
        mime_class: Some("pdf".to_string()),
        size: Some(2048),
        updated_at: Some(at(T0 - 60)),
        created_at: None,
    };
    let p = file_preview(&f, &Some("application/pdf".to_string()), at(T0));
    assert_eq!(p.title, " File: a.pdf ");
    assert_eq!(p.size_line, "  Size: 2.0 KB");
    assert_eq!(p.type_line, "  Type: application/pdf");
    assert_eq!(p.modified_line, "  Modified: 1m ago");
    let g = FileInfo { display_name: None, filename: None, mime_class: None, size: None, updated_at: None, created_at: None };
    let p = file_preview(&g, &None, at(T0));
    assert_eq!(p.title, " File: Unknown ");
    assert_eq!(p.size_line, "  Size: -");
    assert_eq!(p.type_line, "  Type: Unknown");
    assert_eq!(p.modified_line, "  Modified: ");
}

// ───────────────────────────── search palette and dashboard ─────────────────────────────

fn result(label: &str) -> SearchResult {
    SearchResult { label: label.to_string(), category: "Course".to_string(), course_id: Some(1), item_id: None }
}

#[test]
fn search_count_and_rows() {
    assert_eq!(result_count_text("", 5), "  5 items");
    assert_eq!(result_count_text("ca", 2), "  2 matches");
    let all: Vec<SearchResult> = (0..25).map(|k| result(&format!("C{k}"))).collect();
    let lines = result_lines(&all, 1);
    assert_eq!(lines.len(), 20);
    assert_eq!(lines[0], "   [Course] C0");
    assert_eq!(lines[1], " > [Course] C1");
    assert_eq!(result_lines(&all[..3].to_vec(), 7).len(), 3);
}

#[test]
fn dashboard_panels() {
    let mut app = App::new(true);
    app.loading = true;
    assert!(shows_splash(&app));
    assert_eq!(deadlines_panel_message(&app), Some("Loading deadlines...".to_string()));
    app.loading = false;
    assert!(!shows_splash(&app));
    assert_eq!(
        deadlines_panel_message(&app),
        Some("No upcoming deadlines! You're all caught up.".to_string())
    );
    app.courses = vec![
        CourseEntry { id: Some(1), name: Some("Algebra".to_string()), course_code: Some("MATH1".to_string()) },
        CourseEntry { id: Some(2), name: None, course_code: None },
    ];
    app.course_selected = 1;
    let rows = course_rows(&app);
    assert_eq!(rows[0], ("   █ Algebra".to_string(), "     MATH1".to_string()));
    assert_eq!(rows[1], (" > █ Untitled".to_string(), "     ".to_string()));
    app.dashboard_focus = DashboardFocus::Deadlines;
    assert_eq!(course_rows(&app)[1].0, "   █ Untitled");
}

#[test]
fn quick_actions_right_aligned() {
    let lines = quick_action_lines();
    assert_eq!(lines.len(), 10);
    assert_eq!(lines[0], format!("  {:>8}  {}", "Enter", "Open selected course"));
    assert_eq!(lines[0], "     Enter  Open selected course");
    assert_eq!(lines[9], "         q  Quit");
}

#[test]
fn truncate_cuts_characters_with_ellipsis() {
    assert_eq!(truncate("hello world", 8), "hello...");
    assert_eq!(truncate("hello", 5), "hello");
    assert_eq!(truncate("hello", 2), "...");
    assert_eq!(truncate("", 0), "");
    assert_eq!(truncate("課程名稱", 5), "課程名稱");
    assert_eq!(truncate("課程名稱", 3), "課程名稱".chars().take(0).collect::<String>() + "...");
    assert_eq!(truncate("課程名稱課程", 5), "課程...");
}

// ───────────────────────────── client requests ─────────────────────────────

#[test]
fn a_request_is_retried_once_after_a_401() {
    assert_eq!(next_step(Attempt::First, Reply::Unauthorized, 7), RequestStep::ReloginAndRetry(7));
    assert_eq!(next_step(Attempt::First, Reply::Success, 7), RequestStep::Finish);
    assert_eq!(next_step(Attempt::First, Reply::Failed, 7), RequestStep::Finish);
    assert_eq!(next_step(Attempt::Retry, Reply::Unauthorized, 8), RequestStep::Finish);
}

#[test]
fn a_fresh_client_has_not_logged_in_again() {
    let st = get_client(None);
    assert!(st.session.is_none());
    assert_eq!(st.gen, 0);
    assert!(st.snapshot().is_none());
    assert!(st.needs_relogin(0));
}
