use ntucool::assignments::Timestamp;
use ntucool::attachments::{extract_file_refs, parse_canvas_ref};
use ntucool::browser::{export_filename, markdown_export, truncate_str, ContentFormat};
use ntucool::file_server::{
    content_disposition, file_uri, hex_encode, mint_token, sanitize_filename, CachedFile,
    FileServer, HttpPublisher, StdioPublisher, TokenEntry, TokenLookup, TokenRegistry, Ttl,
};
use ntucool::fuzzy_select::sort_by_key;
use ntucool::courses::{course_name_for, graded_course};
use ntucool::pdf::{
    check_search_query, find_in_page, hit_display_name, make_snippet, search_pages, select_pages,
    PageRange, PageRangeError, PdfSearch,
};
use ntucool::search::{build_search_index, search_results};
use ntucool::submissions::{submissions_query, WorkflowFilter};
use ntucool::tui::{course_color, CourseTab, DashboardFocus, Modal, Screen, Urgency};
use ntucool::tui_app::{
    notifications_for, App, CourseEntry, DashboardData, Deadline, Effect, Key, KeyCode, Mods,
};
use ntucool::types::{CanvasRef, CourseSummary};

fn key(c: char) -> Key {
    Key { code: KeyCode::Char(c), mods: Mods::Plain }
}

fn code(k: KeyCode) -> Key {
    Key { code: k, mods: Mods::Plain }
}

fn ctrl(c: char) -> Key {
    Key { code: KeyCode::Char(c), mods: Mods::Control }
}

// ───────────────────────────── tabs and urgency ─────────────────────────────

#[test]
fn tabs_round_trip_through_positions() {
    let tabs = CourseTab::all();
    assert_eq!(tabs.len(), 8);
    for (i, t) in tabs.iter().enumerate() {
        assert_eq!(t.index(), i);
        assert_eq!(CourseTab::at(i), *t);
        assert_eq!(CourseTab::at(i + 8), *t);
    }
    assert_eq!(CourseTab::Files.label(), "Files");
    assert_eq!(CourseTab::Files.shortcut(), 'f');
}

#[test]
fn urgency_grows_with_less_time() {
    assert_eq!(Urgency::from_hours(-1), Urgency::NoDue);
    assert_eq!(Urgency::from_hours(0), Urgency::Urgent);
    assert_eq!(Urgency::from_hours(23), Urgency::Urgent);
    assert_eq!(Urgency::from_hours(24), Urgency::Soon);
    assert_eq!(Urgency::from_hours(71), Urgency::Soon);
    assert_eq!(Urgency::from_hours(72), Urgency::Later);
}

#[test]
fn course_colors_cycle() {
    assert_eq!(course_color(0), course_color(10));
    assert_ne!(course_color(0), course_color(1));
}

// ───────────────────────────── app state machine ─────────────────────────────

#[test]
fn login_form_keys() {
    let mut app = App::new(false);
    assert_eq!(app.screen, Screen::Login);
    for c in "b1".chars() {
        app.on_key(key(c));
    }
    app.on_key(code(KeyCode::Tab));
    for c in "pw".chars() {
        app.on_key(key(c));
    }
    app.on_key(code(KeyCode::Backspace));
    assert_eq!(app.login_username, "b1");
    assert_eq!(app.login_password, "p");
    assert!(matches!(app.on_key(code(KeyCode::Enter)), Effect::Login));
    assert!(app.login_loading);
    // a second Enter while logging in does nothing
    assert!(matches!(app.on_key(code(KeyCode::Enter)), Effect::Nothing));
}

#[test]
fn navigate_then_back_returns_to_dashboard() {
    let mut app = App::new(true);
    assert_eq!(app.screen, Screen::Dashboard);
    assert!(matches!(app.navigate_to_course(5, "Calculus".to_string()), Effect::LoadCourse(5)));
    assert_eq!(app.screen, Screen::CourseDetail(5));
    app.go_back();
    assert_eq!(app.screen, Screen::Dashboard);
    assert!(app.history.is_empty());
}

#[test]
fn recent_courses_most_recent_first_without_repeats() {
    let mut app = App::new(true);
    for id in [1, 2, 1, 3] {
        app.navigate_to_course(id, format!("c{id}"));
        app.go_back();
    }
    assert_eq!(app.recent_courses, vec![3, 1, 2]);
    for id in 10..25 {
        app.navigate_to_course(id, format!("c{id}"));
    }
    assert_eq!(app.recent_courses.len(), 10);
    assert_eq!(app.recent_courses[0], 24);
}

fn deadline(id: i64, due: i64, submitted: bool) -> Deadline {
    Deadline {
        course_name: "Calc".to_string(),
        course_id: 1,
        assignment_name: format!("HW{id}"),
        assignment_id: id,
        due_at: Timestamp { secs: due, nanos: 0 },
        submitted,
    }
}

fn loaded_app() -> App {
    let mut app = App::new(true);
    let courses = vec![
        CourseEntry { id: Some(1), name: Some("Calc".to_string()), course_code: Some("MATH1".to_string()) },
        CourseEntry { id: Some(2), name: Some("Physics".to_string()), course_code: None },
        CourseEntry { id: Some(3), name: Some("Art".to_string()), course_code: None },
    ];
    let deadlines = vec![deadline(7, 1000 + 3600, false), deadline(8, 1000 + 48 * 3600, false)];
    app.dashboard_loaded(DashboardData { courses: Ok(courses), deadlines: Ok(deadlines) }, Timestamp { secs: 1000, nanos: 0 });
    app
}

#[test]
fn dashboard_keys_move_within_the_list() {
    let mut app = loaded_app();
    app.on_key(key('j'));
    assert_eq!(app.course_selected, 1);
    app.on_key(key('G'));
    assert_eq!(app.course_selected, 2);
    app.on_key(key('j'));
    assert_eq!(app.course_selected, 2);
    app.on_key(key('g'));
    assert_eq!(app.course_selected, 0);
    app.on_key(code(KeyCode::Tab));
    assert_eq!(app.dashboard_focus, DashboardFocus::Deadlines);
    assert!(matches!(app.on_key(code(KeyCode::Enter)), Effect::LoadCourse(1)));
}

#[test]
fn notifications_are_the_deadlines_due_within_a_day() {
    let now = Timestamp { secs: 1000, nanos: 0 };
    let ds = vec![deadline(7, 1000 + 3600, false), deadline(8, 1000 + 48 * 3600, false), deadline(9, 1000 + 60, true)];
    let n = notifications_for(&ds, now);
    assert_eq!(n.len(), 1);
    assert_eq!(n[0].id, 7);
    let app = loaded_app();
    assert_eq!(app.unread_count, 1);
}

#[test]
fn global_shortcuts() {
    let mut app = loaded_app();
    app.on_key(key('?'));
    assert!(matches!(app.modal, Some(Modal::Help)));
    app.on_key(code(KeyCode::Esc));
    assert!(app.modal.is_none());
    app.on_key(ctrl('p'));
    assert!(matches!(app.modal, Some(Modal::Search(_))));
    app.on_key(ctrl('c'));
    assert!(app.should_quit);
}

#[test]
fn course_tab_key_cycles_tabs() {
    let mut app = loaded_app();
    app.navigate_to_course(1, "Calc".to_string());
    for expected in [CourseTab::Announcements, CourseTab::Discussions, CourseTab::Files] {
        app.on_key(code(KeyCode::Tab));
        assert_eq!(app.course_views[0].active_tab, expected);
    }
    app.on_key(key('1'));
    assert_eq!(app.course_views[0].active_tab, CourseTab::Assignments);
}

// ───────────────────────────── search and selection ─────────────────────────────

#[test]
fn search_index_and_results() {
    let courses = vec![CourseEntry { id: Some(1), name: Some("Calculus".to_string()), course_code: Some("MATH1201".to_string()) }];
    let ds = vec![deadline(7, 5000, false)];
    let idx = build_search_index(&courses, &ds);
    let labels: Vec<&str> = idx.iter().map(|r| r.label.as_str()).collect();
    assert_eq!(labels, vec!["Calculus", "MATH1201 - Calculus", "HW7 (Calc)"]);
    assert_eq!(search_results(&idx, "").len(), 3);
    let hits = search_results(&idx, "calc");
    assert!(!hits.is_empty());
    assert!(hits.iter().all(|h| h.label.to_lowercase().contains('c')));
    assert!(search_results(&idx, "zzzz").is_empty());
}

#[test]
fn sort_by_key_is_stable_with_missing_keys_last() {
    let keys = vec![Some(3), None, Some(1), Some(3), None];
    assert_eq!(sort_by_key(&vec![0, 1, 2, 3, 4], &keys, false), vec![2, 0, 3, 1, 4]);
    assert_eq!(sort_by_key(&vec![0, 1, 2, 3, 4], &keys, true), vec![0, 3, 2, 1, 4]);
}

// ───────────────────────────── assignment browser ─────────────────────────────

#[test]
fn browser_text_helpers() {
    assert_eq!(truncate_str("abcdef", 3), "ab…");
    assert_eq!(export_filename("HW 1: Intro", ContentFormat::Markdown), "HW_1__Intro.md");
    assert_eq!(ContentFormat::at(0).label(), "None");
    assert_eq!(
        markdown_export("HW", "tomorrow", "10", "Do it"),
        "# HW\n\n- **Due:** tomorrow\n- **Points:** 10\n\n---\n\nDo it"
    );
}

#[test]
fn canvas_references() {
    match parse_canvas_ref("https://cool.ntu.edu.tw/courses/12/files/345/download?wrap=1", "notes.pdf") {
        Some(CanvasRef::File { id, name, .. }) => {
            assert_eq!(id, 345);
            assert_eq!(name, "notes.pdf");
        }
        other => panic!("{other:?}"),
    }
    match parse_canvas_ref("/courses/12/assignments/99", "HW") {
        Some(CanvasRef::Assignment { course_id, id, .. }) => assert_eq!((course_id, id), (12, 99)),
        other => panic!("{other:?}"),
    }
    assert!(parse_canvas_ref("https://example.com/x", "x").is_none());
    let refs = extract_file_refs("<p><a href=\"/courses/1/files/2\">a.pdf</a> <a href=\"/courses/1/pages/intro\">p</a></p>");
    assert_eq!(refs.len(), 1);
}

// ───────────────────────────── pdf and submissions ─────────────────────────────

#[test]
fn page_ranges_parse() {
    assert_eq!(PageRange::parse("all").unwrap(), PageRange { start: None, end: None });
    assert_eq!(PageRange::parse(" 3-5 ").unwrap(), PageRange { start: Some(3), end: Some(5) });
    assert_eq!(PageRange::parse("7").unwrap(), PageRange { start: Some(7), end: Some(7) });
    assert!(matches!(PageRange::parse("x-5"), Err(PageRangeError::InvalidStart)));
    assert!(matches!(PageRange::parse("3-y"), Err(PageRangeError::InvalidEnd)));
    assert!(matches!(PageRange::parse("5-3"), Err(PageRangeError::BadRange(s)) if s == "5-3"));
    assert!(matches!(PageRange::parse("abc"), Err(PageRangeError::InvalidNumber)));
    assert!(matches!(PageRange::parse("0"), Err(PageRangeError::ZeroPage)));
    for bad in ["0", "0-3", "10-5", "abc", "3-", "-3", "1-2-3"] {
        assert!(PageRange::parse(bad).is_err(), "{bad} should not parse");
    }
    let r = PageRange { start: Some(2), end: Some(3) };
    assert!(r.contains(2) && r.contains(3) && !r.contains(4) && !r.contains(1));
}

#[test]
fn selecting_pages_keeps_page_numbers() {
    let pages: Vec<String> = ["one", "two", "three", "four"].iter().map(|s| s.to_string()).collect();
    let sel = select_pages(&pages, Some(PageRange { start: Some(2), end: Some(3) }));
    assert_eq!(sel.iter().map(|p| p.page_no).collect::<Vec<_>>(), vec![2, 3]);
    assert_eq!(sel[0].text, "two");
    assert_eq!(select_pages(&pages, None).len(), 4);
}

#[test]
fn workflow_filters() {
    for w in [WorkflowFilter::Submitted, WorkflowFilter::Unsubmitted, WorkflowFilter::Graded, WorkflowFilter::PendingReview] {
        assert_eq!(WorkflowFilter::parse(w.as_str()), Some(w));
    }
    assert_eq!(WorkflowFilter::parse("bogus"), None);
    let q = submissions_query(Some(WorkflowFilter::Graded));
    assert!(q.contains(&("workflow_state".to_string(), "graded".to_string())));
}

// ───────────────────────────── file server ─────────────────────────────

#[test]
fn published_names_and_headers() {
    assert_eq!(sanitize_filename("a/b\\c\u{0}d\u{7f}"), "a_b_c_d_");
    assert_eq!(sanitize_filename(""), "file");
    assert_eq!(file_uri("/tmp/x.pdf"), "file:///tmp/x.pdf");
    assert_eq!(content_disposition("a \"b\".pdf"), "attachment; filename=\"a _b_.pdf\"");
    assert_eq!(hex_encode(&[0x00, 0xab, 0x10]), "00ab10");
    let t = mint_token();
    assert_eq!(t.len(), 32);
    assert!(t.chars().all(|c| c.is_ascii_hexdigit() && !c.is_ascii_uppercase()));
    assert_ne!(mint_token(), t);
}

fn entry(path: &str, expires: i64) -> TokenEntry {
    TokenEntry {
        cache_path: path.to_string(),
        display_name: "a.pdf".to_string(),
        mime_type: None,
        size_bytes: 3,
        expires_at: Timestamp { secs: expires, nanos: 0 },
    }
}

#[test]
fn token_registry_answers() {
    let mut reg = TokenRegistry::new();
    reg.register("t1".to_string(), entry("/cache/a", 100));
    let now = Timestamp { secs: 50, nanos: 0 };
    assert!(matches!(reg.lookup("t1", now), TokenLookup::Live(e) if e.cache_path == "/cache/a"));
    assert!(matches!(reg.lookup("t1", Timestamp { secs: 100, nanos: 0 }), TokenLookup::Gone));
    assert!(matches!(reg.lookup("nope", now), TokenLookup::NotFound));
    assert_eq!(reg.reusable("/cache/a", now).map(|(t, _)| t), Some("t1".to_string()));
    assert!(reg.reusable("/cache/b", now).is_none());
}

fn cached() -> CachedFile {
    CachedFile {
        file_id: 7,
        display_name: "a.pdf".to_string(),
        mime_type: Some("application/pdf".to_string()),
        size_bytes: 3,
        path: "/cache/7".to_string(),
        updated_at_unix: 1,
    }
}

#[test]
fn http_publisher_reuses_live_tokens() {
    let mut p = HttpPublisher::new("https://files.example/".to_string(), Ttl { secs: 600, nanos: 0 });
    let now = Timestamp { secs: 1_700_000_000, nanos: 0 };
    let first = p.publish(cached(), now);
    assert!(first.uri.starts_with("https://files.example/files/"));
    assert!(!first.uri.contains("/cache/7"));
    assert!(first.expires_at.is_some());
    let second = p.publish(cached(), Timestamp { secs: now.secs + 10, nanos: 0 });
    assert_eq!(first.uri, second.uri);
    let token = first.uri.rsplit('/').next().unwrap().to_string();
    assert_eq!(token.len(), 32);
    assert!(token.chars().all(|c| c.is_ascii_digit() || ('a'..='f').contains(&c)));
    match p.serve(&token, now) {
        TokenLookup::Live(e) => {
            assert_eq!(e.cache_path, "/cache/7");
            assert_eq!(e.display_name, "a.pdf");
            assert_eq!(e.mime_type, Some("application/pdf".to_string()));
            assert_eq!(e.size_bytes, 3);
            assert_eq!((e.expires_at.secs, e.expires_at.nanos), (now.secs + 600, 0));
        }
        _ => panic!("token should be live"),
    }
    assert!(matches!(p.serve(&token, Timestamp { secs: now.secs + 601, nanos: 0 }), TokenLookup::Gone));
}

#[test]
fn server_descriptions() {
    let s = FileServer::Stdio(StdioPublisher::new("/out".to_string()));
    assert_eq!(s.describe(), "stdio (output_dir=/out)");
    let h = FileServer::Http(HttpPublisher::new("https://f".to_string(), Ttl { secs: 900, nanos: 0 }));
    assert_eq!(h.describe(), "http (public_base=https://f, ttl=900s)");
}

// ───────────────────────────── pdf search ─────────────────────────────

#[test]
fn pdf_search_finds_first_match_per_page() {
    let pages = vec![
        "Intro to\n  Calculus".to_string(),
        "nothing".to_string(),
        "calculus again, CALCULUS".to_string(),
    ];
    let hits = search_pages(9, "notes.pdf", &pages, "Calculus", 10);
    assert_eq!(hits.iter().map(|h| h.page).collect::<Vec<_>>(), vec![1, 3]);
    assert_eq!(hits[0].snippet, "Intro to Calculus");
    assert_eq!((hits[0].file_id, hits[0].display_name.as_str()), (9, "notes.pdf"));
    assert_eq!(search_pages(9, "n", &pages, "calculus", 1).len(), 1);
    assert!(search_pages(9, "n", &pages, "algebra", 5).is_empty());
}

#[test]
fn snippets_are_windowed_on_character_boundaries() {
    let text = format!("{}MATCH{}", "a".repeat(100), "b".repeat(100));
    let off = find_in_page(&text, "match").unwrap();
    assert_eq!(off, 100);
    assert_eq!(make_snippet(&text, off, 5), format!("{}MATCH{}", "a".repeat(80), "b".repeat(80)));
    let text = format!("中{}x", "a".repeat(78));
    let off = find_in_page(&text, "X").unwrap();
    assert_eq!(off, 81);
    assert_eq!(make_snippet(&text, off, 1), text);
    assert_eq!(find_in_page("abc", "zz"), None);
}

#[test]
fn pdf_search_query_and_names() {
    assert_eq!(check_search_query("  "), Err("query is empty".to_string()));
    assert!(check_search_query("x").is_ok());
    assert_eq!(hit_display_name("cached.pdf", &Some("d".to_string()), &None), "cached.pdf");
    assert_eq!(hit_display_name("", &Some("d".to_string()), &Some("f".to_string())), "d");
    assert_eq!(hit_display_name("", &None, &Some("f".to_string())), "f");
    assert_eq!(hit_display_name("", &None, &None), "");
}

#[test]
fn grades_pick_courses() {
    assert_eq!(graded_course(Some(3), None), Some(3));
    assert_eq!(graded_course(Some(3), Some(4)), None);
    assert_eq!(graded_course(Some(4), Some(4)), Some(4));
    assert_eq!(graded_course(None, None), None);
    let s = vec![
        CourseSummary { id: 1, name: "A".to_string(), course_code: None, term: None },
        CourseSummary { id: 2, name: "B".to_string(), course_code: None, term: None },
    ];
    assert_eq!(course_name_for(&s, 2).as_deref(), Some("B"));
    assert_eq!(course_name_for(&s, 5), None);
}

#[test]
fn course_search_caps_skips_failures_and_keeps_hits_distinct() {
    assert_eq!(PdfSearch::new("  ", 5).err(), Some("query is empty".to_string()));
    let mut s = PdfSearch::new("Graph", 3).unwrap();
    let a = vec!["graph theory".to_string(), "no".to_string(), "GRAPHS again".to_string()];
    let c = vec!["a graph".to_string(), "graph b".to_string()];
    assert!(!s.is_full());
    s.add_file(1, "a.pdf", Some(&a));
    s.add_file(2, "broken.pdf", None);
    assert_eq!(s.hits.len(), 2);
    s.add_file(3, "c.pdf", Some(&c));
    assert!(s.is_full());
    let got: Vec<(i64, usize)> = s.hits.iter().map(|h| (h.file_id, h.page)).collect();
    assert_eq!(got, vec![(1, 1), (1, 3), (3, 1)]);
    assert_eq!(s.hits[2].display_name, "c.pdf");
    s.add_file(4, "d.pdf", Some(&c));
    assert_eq!(s.hits.len(), 3);
}
