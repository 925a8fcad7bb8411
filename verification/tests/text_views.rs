use ntucool::assignments::Timestamp;
use ntucool::text::{collapse_blank_lines, events_text, html_to_text, replace_all, HtmlEvent};
use ntucool::tui::{CourseViewState, ListItem, Urgency};
use ntucool::tui_app::{App, Deadline};
use ntucool::views::{
    assignment_due_cell, assignment_meta, breadcrumb, byte_count_of, deadline_row, detail_body,
    detail_window, file_icon, file_row, files_title, folder_rows, format_datetime,
    format_due_date, format_duration_short, format_size, login_view, strip_html, topic_meta,
    FileInfo,
};

const NOW: Timestamp = Timestamp { secs: 1_700_000_000, nanos: 0 };

fn at(offset: i64) -> Timestamp {
    Timestamp { secs: NOW.secs + offset, nanos: 0 }
}

fn chrono_fmt(t: Timestamp, pattern: &str) -> String {
    chrono::DateTime::from_timestamp(t.secs, t.nanos).unwrap().format(pattern).to_string()
}

// ───────────────────────────── replacing and HTML → text ─────────────────────────────

#[test]
fn replace_all_matches_std_replace() {
    let cases = [
        ("a<br>b<br>", "<br>", "\n"),
        ("aaa", "aa", "b"),
        ("", "x", "y"),
        ("xyz", "xyz", ""),
        ("héllo wörld", "ö", "oe"),
        ("no match here", "zz", "!"),
    ];
    for (s, p, r) in cases {
        assert_eq!(replace_all(s, p, r), s.replace(p, r), "{s:?} {p:?} {r:?}");
    }
}

#[test]
fn html_to_text_puts_blocks_on_lines() {
    assert_eq!(html_to_text("<p>Hello</p><p>World</p>"), "Hello\nWorld\n");
    assert_eq!(html_to_text("a<br>b"), "a\nb");
    assert_eq!(html_to_text("<b>plain</b> text"), "plain text");
}

#[test]
fn html_to_text_keeps_at_most_one_blank_line() {
    assert_eq!(html_to_text("<div>a</div>\n\n\n\n<div>b</div>"), "a\n\nb\n");
}

#[test]
fn events_text_follows_the_block_rules() {
    let events = vec![
        HtmlEvent::Other,
        HtmlEvent::Text("intro".to_string()),
        HtmlEvent::Open("li".to_string()),
        HtmlEvent::Text("item".to_string()),
        HtmlEvent::Close("li".to_string()),
        HtmlEvent::Open("br".to_string()),
        HtmlEvent::Close("br".to_string()),
        HtmlEvent::Open("span".to_string()),
        HtmlEvent::Text("end".to_string()),
        HtmlEvent::Close("span".to_string()),
    ];
    assert_eq!(events_text(&events), "intro\nitem\n\nend");
}

#[test]
fn collapse_blank_lines_shortens_long_runs() {
    assert_eq!(collapse_blank_lines("a\n\n\n\n\nb".to_string()), "a\n\nb");
    assert_eq!(collapse_blank_lines("a\n\nb".to_string()), "a\n\nb");
}

#[test]
fn strip_html_keeps_structure_and_decodes_entities() {
    let html = "<p>Hello &amp; bye</p><br><ul><li>x</li></ul>";
    assert_eq!(strip_html(html), "Hello & bye\n\n  - x");
    assert_eq!(strip_html("<hr>"), "────────────────────");
    assert_eq!(strip_html("<table><tr><td>a</td><td>b</td></tr></table>"), "a | b |");
}

#[test]
fn detail_body_falls_back_to_placeholder() {
    assert_eq!(detail_body(&None, "No description available."), "No description available.");
    assert_eq!(detail_body(&Some("<p>x</p>".to_string()), "-"), "x");
}

// ───────────────────────────── relative times ─────────────────────────────

#[test]
fn format_datetime_relative_units() {
    assert_eq!(format_datetime(at(-30), NOW), "just now");
    assert_eq!(format_datetime(at(-5 * 60 - 10), NOW), "5m ago");
    assert_eq!(format_datetime(at(-3 * 3600), NOW), "3h ago");
    assert_eq!(format_datetime(at(-2 * 86400 - 100), NOW), "2d ago");
    let old = at(-10 * 86400);
    assert_eq!(format_datetime(old, NOW), chrono_fmt(old, "%m/%d"));
}

#[test]
fn format_datetime_of_a_future_date_is_just_now() {
    assert_eq!(format_datetime(at(3600), NOW), "just now");
}

#[test]
fn format_due_date_cases() {
    assert_eq!(format_due_date(at(2 * 3600 + 30 * 60 + 10), NOW), "in 2h 30m");
    assert_eq!(format_due_date(at(3 * 86400 + 5), NOW), "in 3d");
    let far = at(10 * 86400);
    assert_eq!(format_due_date(far, NOW), chrono_fmt(far, "%m/%d %H:%M"));
    assert_eq!(format_due_date(at(-2 * 3600), NOW), "2h overdue");
    assert_eq!(format_due_date(at(-3 * 86400), NOW), "3d overdue");
    assert_eq!(format_due_date(at(-5 * 60), NOW), "5m overdue");
}

#[test]
fn format_due_date_truncates_sub_second_differences() {
    // half a second overdue counts as zero seconds: not yet overdue
    let due = Timestamp { secs: NOW.secs - 1, nanos: 500_000_000 };
    assert_eq!(format_due_date(due, NOW), "in 0h 0m");
}

#[test]
fn format_duration_short_units() {
    assert_eq!(format_duration_short(3 * 86400 + 7), "3d");
    assert_eq!(format_duration_short(5 * 3600), "5h");
    assert_eq!(format_duration_short(59), "0m");
}

// ───────────────────────────── sizes ─────────────────────────────

#[test]
fn format_size_units() {
    assert_eq!(format_size(None), "-");
    assert_eq!(format_size(Some(0)), "0 B");
    assert_eq!(format_size(Some(512)), "512 B");
    assert_eq!(format_size(Some(-5)), "-5 B");
    assert_eq!(format_size(Some(1024)), "1.0 KB");
    assert_eq!(format_size(Some(1536)), "1.5 KB");
    assert_eq!(format_size(Some(5 * 1024 * 1024)), "5.0 MB");
    assert_eq!(format_size(Some(3 * 1024 * 1024 * 1024)), "3.0 GB");
}

fn float_size(b: i64) -> String {
    if b < 1024 {
        format!("{b} B")
    } else if b < 1024 * 1024 {
        format!("{:.1} KB", b as f64 / 1024.0)
    } else if b < 1024 * 1024 * 1024 {
        format!("{:.1} MB", b as f64 / (1024.0 * 1024.0))
    } else {
        format!("{:.1} GB", b as f64 / (1024.0 * 1024.0 * 1024.0))
    }
}

#[test]
fn format_size_agrees_with_float_formatting() {
    for b in (1000i64..20000).step_by(7) {
        assert_eq!(format_size(Some(b)), float_size(b), "{b}");
    }
    // exact ties in tenths, and values past 2^53 that f64 rounds
    for b in [
        1280i64,
        1331,
        1024 * 1024 * 5 / 4,
        (1i64 << 53) + 1,
        (1i64 << 60) + 12345,
        i64::MAX,
        123_456_789_012,
    ] {
        assert_eq!(format_size(Some(b)), float_size(b), "{b}");
    }
}

// ───────────────────────────── screens ─────────────────────────────

#[test]
fn login_view_masks_password_by_bytes() {
    let mut app = App::new(false);
    app.login_username = "b12345678".to_string();
    app.login_password = "pé".to_string();
    app.login_field = 1;
    let v = login_view(&app);
    assert_eq!(v.username_line, " b12345678");
    assert_eq!(v.password_line, " ***|");
    assert!(v.password_focused && !v.username_focused);
    assert_eq!(v.status_line, "  Press Enter to login  |  Tab to switch fields  |  Esc to quit");
    assert!(v.error_line.is_none());

    app.login_field = 0;
    app.login_loading = true;
    app.login_error = Some("bad password".to_string());
    let v = login_view(&app);
    assert_eq!(v.username_line, " b12345678|");
    assert_eq!(v.status_line, "  Authenticating via SAML...");
    assert_eq!(v.error_line.as_deref(), Some("  bad password"));
}

#[test]
fn byte_count_counts_utf8_bytes() {
    assert_eq!(byte_count_of("abc"), 3);
    assert_eq!(byte_count_of("é"), 2);
    assert_eq!(byte_count_of("中"), 3);
    assert_eq!(byte_count_of("🦀"), 4);
}

#[test]
fn detail_window_wraps_indents_and_scrolls() {
    let text = "aaa bbb ccc";
    assert_eq!(detail_window(text, 9, 0, 10), vec!["  aaa", "  bbb", "  ccc"]);
    assert_eq!(detail_window(text, 9, 1, 1), vec!["  bbb"]);
    assert!(detail_window(text, 9, 7, 3).is_empty());
}

#[test]
fn assignment_meta_lines() {
    let m = assignment_meta(
        Some(at(3 * 86400 + 5)),
        NOW,
        &Some("10".to_string()),
        Some(true),
        &Some(vec!["online_upload".to_string(), "online_text_entry".to_string()]),
    );
    assert_eq!(m.due, "in 3d");
    assert_eq!(m.points, "10 pts");
    assert_eq!(m.status, "Submitted");
    assert_eq!(m.submission_types, "online_upload, online_text_entry");

    let m = assignment_meta(None, NOW, &None, None, &None);
    assert_eq!(m.due, "No due date");
    assert_eq!(m.points, "No points");
    assert_eq!(m.status, "Not submitted");
    assert_eq!(m.submission_types, "");
}

#[test]
fn topic_meta_lines() {
    let m = topic_meta(true, &None, &Some("TA".to_string()), Some(at(-3 * 3600)), NOW, Some(4), Some(2));
    assert_eq!(m.kind, " Announcement: ");
    assert_eq!(m.title, "Untitled");
    assert_eq!(m.author, "TA");
    assert_eq!(m.posted, "3h ago");
    assert_eq!(m.replies, "4");
    assert_eq!(m.unread.as_deref(), Some("  (2 unread)"));

    let m = topic_meta(false, &Some("Q".to_string()), &None, None, NOW, None, Some(0));
    assert_eq!(m.kind, " Discussion: ");
    assert_eq!(m.author, "Unknown");
    assert_eq!(m.posted, "");
    assert_eq!(m.replies, "0");
    assert!(m.unread.is_none());
}

#[test]
fn breadcrumb_of_folders() {
    assert_eq!(breadcrumb(&vec![]), "/ (root)");
    assert_eq!(
        breadcrumb(&vec![(1, "Lectures".to_string()), (2, "Week 1".to_string())]),
        "/ Lectures / Week 1"
    );
}

#[test]
fn file_icons_by_mime_class() {
    assert_eq!(file_icon(&Some("pdf".to_string())), "[PDF]");
    assert_eq!(file_icon(&Some("code".to_string())), "[COD]");
    assert_eq!(file_icon(&Some("weird".to_string())), "[FIL]");
    assert_eq!(file_icon(&None), "[FIL]");
}

#[test]
fn file_row_fields() {
    let f = FileInfo {
        display_name: None,
        filename: Some("hw1.pdf".to_string()),
        mime_class: Some("pdf".to_string()),
        size: Some(2048),
        updated_at: None,
        created_at: Some(at(-2 * 86400)),
    };
    let r = file_row(&f, true, NOW);
    assert_eq!(r.marker, " > ");
    assert_eq!(r.icon, "[PDF]");
    assert_eq!(r.name, "hw1.pdf");
    assert_eq!(r.size, "2.0 KB");
    assert_eq!(r.modified, "2d ago");
}

fn item(id: i64, name: &str) -> ListItem {
    ListItem { id: Some(id), name: Some(name.to_string()), url: None }
}

#[test]
fn files_panel_title_and_folder_rows() {
    let mut v = CourseViewState::new(7, "Calculus".to_string());
    v.folders = vec![item(1, "Slides"), ListItem { id: Some(2), name: None, url: None }];
    v.files = vec![item(3, "a.pdf")];
    assert_eq!(files_title(&v), " Files (3) ");
    v.tab_selected[3] = 1;
    v.active_tab = ntucool::tui::CourseTab::Files;
    let rows = folder_rows(&v);
    assert_eq!(rows, vec![("   ".to_string(), "Slides".to_string()), (" > ".to_string(), "Unnamed".to_string())]);
}

#[test]
fn assignment_due_cell_urgency() {
    assert_eq!(assignment_due_cell(None, NOW), ("No due date".to_string(), Urgency::NoDue));
    let (t, u) = assignment_due_cell(Some(at(5 * 3600)), NOW);
    assert_eq!(t, "in 5h 0m");
    assert_eq!(u, Urgency::Urgent);
    let (_, u) = assignment_due_cell(Some(at(48 * 3600)), NOW);
    assert_eq!(u, Urgency::Soon);
    let (t, u) = assignment_due_cell(Some(at(-60)), NOW);
    assert_eq!(t, "1m overdue");
    assert_eq!(u, Urgency::NoDue);
}

#[test]
fn deadline_row_fields() {
    let d = Deadline {
        course_name: "Calculus".to_string(),
        course_id: 1,
        assignment_name: "HW 3".to_string(),
        assignment_id: 9,
        due_at: at(100 * 3600),
        submitted: true,
    };
    let r = deadline_row(&d, false, NOW);
    assert_eq!(r.marker, "   ");
    assert_eq!(r.urgency, Urgency::Later);
    assert_eq!(r.name, "HW 3");
    assert_eq!(r.done, " [done]");
    assert_eq!(r.course, "Calculus");
    assert_eq!(r.due, "in 4d");
}
