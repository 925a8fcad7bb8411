use ntucool::assignments::Timestamp;
use ntucool::courses::{
    course_in_semester, course_info_lines, course_table_row, filter_by_semester, list_summaries,
    listing_source, match_score_lengths, resolve, resolve_one, shows_term, Course, CourseSource,
    ListFilter, ResolveMatch, Term,
};
use ntucool::dashboard::{sort_courses, str_lt, upcoming_deadlines, AssignmentDue, CourseAssignments};
use ntucool::files::{
    check_search_query, default_download_name, find_folder, folder_not_found_error,
    folder_path_parts, is_file_id, no_folder_id_error, pick_file, upload_file_field, upload_json,
    UploadToken,
};
use ntucool::modules::{
    download_target, interleave_round_robin, module_item_icon, module_label_of,
    module_listing_lines, module_show_rows, outcome_before_fetch, plan_download,
    sanitize_path_component, truncate_prefix, CanvasModule, CanvasModuleItem, DownloadTally,
    JobOutcome,
};
use ntucool::tui_app::CourseEntry;

// ───────────────────────────── module downloads ─────────────────────────────

#[test]
fn sanitize_replaces_unsafe_characters() {
    assert_eq!(sanitize_path_component("a/b:c*d?e\"f<g>h|i\\j"), "a_b_c_d_e_f_g_h_i_j");
    assert_eq!(sanitize_path_component("tab\there\u{1}"), "tab_here_");
}

#[test]
fn sanitize_trims_whitespace_then_dots() {
    assert_eq!(sanitize_path_component("  ..hidden..  "), "hidden");
    assert_eq!(sanitize_path_component(" . a"), " a");
    assert_eq!(sanitize_path_component("Week 1: Intro"), "Week 1_ Intro");
}

#[test]
fn sanitize_never_yields_empty_or_dot_names() {
    for name in ["", "   ", ".", "..", "...", " . . "] {
        let s = sanitize_path_component(name);
        assert!(!s.is_empty());
        assert!(!s.starts_with('.') && !s.ends_with('.'), "{name:?} -> {s:?}");
        assert!(!s.contains('/') && !s.contains('\\'));
    }
    assert_eq!(sanitize_path_component(".."), "_");
}

#[test]
fn interleave_takes_one_from_each_group_in_turn() {
    let groups = vec![vec![1, 2, 3], vec![4], vec![], vec![5, 6]];
    assert_eq!(interleave_round_robin(groups), vec![1, 4, 5, 2, 6, 3]);
    let empty: Vec<Vec<u8>> = vec![];
    assert!(interleave_round_robin(empty).is_empty());
}

#[test]
fn interleave_keeps_every_item_and_group_order() {
    let groups: Vec<Vec<(usize, usize)>> =
        (0..5).map(|g| (0..(g * 2 + 1) % 4).map(|k| (g, k)).collect()).collect();
    let total: usize = groups.iter().map(|g| g.len()).sum();
    let out = interleave_round_robin(groups.clone());
    assert_eq!(out.len(), total);
    for g in &groups {
        let picked: Vec<_> = out.iter().filter(|x| x.0 == g.first().map(|y| y.0).unwrap_or(99)).cloned().collect();
        assert_eq!(&picked, g);
    }
}

#[test]
fn truncate_prefix_counts_characters() {
    assert_eq!(truncate_prefix("abcdef", 4), "abc…");
    assert_eq!(truncate_prefix("abcd", 4), "abcd");
    assert_eq!(truncate_prefix("微積分甲上", 3), "微積…");
}

fn file_item(id: i64, title: Option<&str>) -> CanvasModuleItem {
    CanvasModuleItem {
        id: Some(id),
        title: title.map(str::to_string),
        item_type: Some("File".to_string()),
        html_url: None,
        position: None,
        indent: None,
        content_id: Some(id * 10),
    }
}

fn page_item(title: &str) -> CanvasModuleItem {
    CanvasModuleItem {
        id: Some(1),
        title: Some(title.to_string()),
        item_type: Some("Page".to_string()),
        html_url: Some("https://cool/p".to_string()),
        position: None,
        indent: None,
        content_id: None,
    }
}

fn module(name: Option<&str>, items: Option<Vec<CanvasModuleItem>>) -> CanvasModule {
    CanvasModule { id: None, name: name.map(str::to_string), position: None, items }
}

#[test]
fn plan_download_groups_files_by_module() {
    let modules = vec![
        module(Some("Week 1/Intro"), Some(vec![file_item(1, Some("a.pdf")), page_item("notes"), file_item(2, None)])),
        module(Some("Only pages"), Some(vec![page_item("x")])),
        module(None, Some(vec![file_item(3, Some("c.pdf"))])),
        module(Some("Empty"), None),
    ];
    let plan = plan_download(&modules);
    assert_eq!(plan.folders.len(), 2);
    assert_eq!(plan.folders[0].dir_name, "Week 1_Intro");
    assert_eq!(plan.folders[0].prefix, "Week 1/Intro");
    assert_eq!(plan.folders[0].files, vec![(10, "a.pdf".to_string()), (20, "(untitled)".to_string())]);
    assert_eq!(plan.folders[1].dir_name, "Module 3");
    let jobs: Vec<(usize, i64)> = plan.jobs.iter().map(|j| (j.folder, j.content_id)).collect();
    assert_eq!(jobs, vec![(0, 10), (1, 30), (0, 20)]);
}

#[test]
fn module_labels_count_from_one() {
    assert_eq!(module_label_of(&module(None, None), 0), "Module 1");
    assert_eq!(module_label_of(&module(Some("Intro"), None), 4), "Intro");
}

#[test]
fn download_target_prefers_display_name() {
    let (shown, safe) = download_target(&Some("HW: 1.pdf".to_string()), &Some("hw1.pdf".to_string()), "t");
    assert_eq!(shown, "HW: 1.pdf");
    assert_eq!(safe, "HW_ 1.pdf");
    let (shown, _) = download_target(&None, &Some("hw1.pdf".to_string()), "t");
    assert_eq!(shown, "hw1.pdf");
    let (shown, _) = download_target(&None, &None, "title");
    assert_eq!(shown, "title");
}

#[test]
fn existing_files_are_skipped_unless_overwriting() {
    assert_eq!(outcome_before_fetch(false, true), Some(JobOutcome::Skipped));
    assert_eq!(outcome_before_fetch(true, true), None);
    assert_eq!(outcome_before_fetch(false, false), None);
}

#[test]
fn tally_counts_and_summarises() {
    let mut t = DownloadTally::new();
    for o in [JobOutcome::Downloaded, JobOutcome::Downloaded, JobOutcome::Skipped, JobOutcome::Failed] {
        t.record(o);
    }
    assert_eq!((t.downloaded, t.skipped, t.failed), (2, 1, 1));
    assert_eq!(t.summary("12345"), "Done. 2 downloaded, 1 skipped, 1 failed → 12345");
}

#[test]
fn module_listing_and_rows() {
    let modules = vec![
        module(Some("Intro"), Some(vec![file_item(1, Some("a.pdf")), page_item("notes")])),
        module(None, Some(vec![])),
    ];
    assert_eq!(
        module_listing_lines(&modules),
        vec![
            "Module: \"Intro\"",
            "  📁 File: a.pdf",
            "  📄 Page: notes",
            "",
            "Module: \"(unnamed module)\"",
            "  (no items)",
            "",
        ]
    );
    let rows = module_show_rows(&vec![page_item("notes"), file_item(2, None)]);
    assert_eq!(rows[0], ("Page".to_string(), "notes".to_string(), "https://cool/p".to_string()));
    assert_eq!(rows[1], ("File".to_string(), "".to_string(), "-".to_string()));
}

#[test]
fn module_item_icons() {
    assert_eq!(module_item_icon(&Some("Quiz".to_string())), "❓");
    assert_eq!(module_item_icon(&Some("ExternalTool".to_string())), "🔗");
    assert_eq!(module_item_icon(&Some("SubHeader".to_string())), "──");
    assert_eq!(module_item_icon(&None), "  ");
}

// ───────────────────────────── courses ─────────────────────────────

fn course(id: Option<i64>, name: &str, code: Option<&str>, term: Option<(&str, &str)>) -> Course {
    Course {
        id,
        name: Some(name.to_string()),
        course_code: code.map(str::to_string),
        workflow_state: Some("available".to_string()),
        term: term.map(|(n, s)| Term { name: Some(n.to_string()), sis_term_id: Some(s.to_string()) }),
    }
}

fn sample_courses() -> Vec<Course> {
    vec![
        course(Some(1), "Calculus (1)", Some("MATH1201"), Some(("113-1", "1131"))),
        course(Some(2), "Linear Algebra", Some("MATH2101"), Some(("113-2", "1132"))),
        course(None, "Calculus ghost", None, None),
        course(Some(3), "General Physics", Some("PHYS1001"), None),
    ]
}

#[test]
fn resolve_numeric_query_is_an_id() {
    let m = resolve("12345", &vec![]);
    assert_eq!(m.len(), 1);
    assert_eq!((m[0].id, m[0].name.as_str(), m[0].course_code.is_none()), (12345, "", true));
}

#[test]
fn resolve_searches_names_and_codes_case_insensitively() {
    let m = resolve("calc", &sample_courses());
    assert_eq!(m.iter().map(|x| x.id).collect::<Vec<_>>(), vec![1]);
    let m = resolve("math", &sample_courses());
    assert_eq!(m.iter().map(|x| x.id).collect::<Vec<_>>(), vec![1, 2]);
    assert!(resolve("chemistry", &sample_courses()).is_empty());
}

#[test]
fn resolve_one_outcomes() {
    let courses = sample_courses();
    assert_eq!(resolve_one("phys", &resolve("phys", &courses)), Ok(3));
    assert_eq!(
        resolve_one("chem", &resolve("chem", &courses)),
        Err("No course matching 'chem'".to_string())
    );
    assert_eq!(
        resolve_one("math", &resolve("math", &courses)),
        Err("Ambiguous course query 'math'. Candidates:\n  1 - Calculus (1)\n  2 - Linear Algebra\n\nSpecify the course ID.".to_string())
    );
}

#[test]
fn summaries_skip_courses_without_id() {
    let s = list_summaries(&sample_courses());
    assert_eq!(s.len(), 3);
    assert_eq!(s[0].term.as_deref(), Some("113-1"));
    assert_eq!(s[2].term, None);
}

#[test]
fn semester_filter_matches_term_name_or_sis_id() {
    let c = sample_courses();
    assert!(course_in_semester(&c[0], "1131"));
    assert!(course_in_semester(&c[1], "113-2"));
    assert!(!course_in_semester(&c[3], "113"));
    let kept = filter_by_semester(c, "113");
    assert_eq!(kept.iter().map(|x| x.id).collect::<Vec<_>>(), vec![Some(1), Some(2)]);
}

#[test]
fn listing_source_follows_filter() {
    assert!(matches!(listing_source(ListFilter::Active, Some("1131")), CourseSource::Active));
    assert!(matches!(listing_source(ListFilter::All, Some("1131")), CourseSource::BySemester(t) if t == "1131"));
    assert!(matches!(listing_source(ListFilter::All, None), CourseSource::All));
}

#[test]
fn course_rows_and_info() {
    let c = sample_courses();
    assert!(shows_term(true, &None) && shows_term(false, &Some("x".to_string())));
    assert!(!shows_term(false, &None));
    assert_eq!(course_table_row(&c[0], true), vec!["1", "MATH1201", "Calculus (1)", "113-1"]);
    assert_eq!(course_table_row(&c[3], true), vec!["3", "PHYS1001", "General Physics", "-"]);
    assert_eq!(course_table_row(&c[2], false), vec!["", "", "Calculus ghost"]);
    let info = course_info_lines(&Course { id: Some(5), name: None, course_code: None, workflow_state: None, term: None });
    assert_eq!(info, vec!["ID:          5", "Name:        (unknown)", "Course Code: (unknown)", "State:       (unknown)"]);
}

#[test]
fn score_lengths_use_the_longer_field() {
    let m = ResolveMatch { id: 1, name: "Calculus".to_string(), course_code: Some("MATH120100".to_string()) };
    assert_eq!(match_score_lengths("CALC", &m), (4, 10));
}

// ───────────────────────────── dashboard data ─────────────────────────────

fn entry(id: i64, name: Option<&str>) -> CourseEntry {
    CourseEntry { id: Some(id), name: name.map(str::to_string), course_code: None }
}

#[test]
fn courses_sort_by_name_stably() {
    let sorted = sort_courses(&vec![entry(1, Some("b")), entry(2, None), entry(3, Some("a")), entry(4, Some("b")), entry(5, Some("B"))]);
    assert_eq!(sorted.iter().map(|c| c.id.unwrap()).collect::<Vec<_>>(), vec![2, 5, 3, 1, 4]);
}

#[test]
fn str_lt_is_str_ordering() {
    for (a, b) in [("a", "b"), ("ab", "a"), ("", "x"), ("é", "z"), ("same", "same")] {
        assert_eq!(str_lt(a, b), a < b, "{a:?} {b:?}");
    }
}

fn due(id: i64, name: &str, at: Option<i64>) -> AssignmentDue {
    AssignmentDue {
        id: Some(id),
        name: Some(name.to_string()),
        due_at: at.map(|s| Timestamp { secs: s, nanos: 0 }),
        has_submitted: Some(id % 2 == 0),
    }
}

#[test]
fn upcoming_deadlines_are_future_and_ordered() {
    let now = Timestamp { secs: 1000, nanos: 0 };
    let courses = vec![
        CourseAssignments {
            id: Some(1),
            name: Some("A".to_string()),
            assignments: Some(vec![due(11, "late", Some(5000)), due(12, "past", Some(500)), due(13, "none", None), due(14, "tie1", Some(3000))]),
        },
        CourseAssignments { id: None, name: Some("no id".to_string()), assignments: Some(vec![due(21, "x", Some(2000))]) },
        CourseAssignments { id: Some(3), name: None, assignments: None },
        CourseAssignments { id: Some(4), name: Some("B".to_string()), assignments: Some(vec![due(41, "tie2", Some(3000)), due(42, "soon", Some(1001))]) },
    ];
    let d = upcoming_deadlines(&courses, now);
    let names: Vec<&str> = d.iter().map(|x| x.assignment_name.as_str()).collect();
    assert_eq!(names, vec!["soon", "tie1", "tie2", "late"]);
    assert_eq!(d[0].course_name, "B");
    assert!(d[0].submitted);
    assert!(!d[2].submitted);
}

// ───────────────────────────── files ─────────────────────────────

#[test]
fn folder_path_parts_cases() {
    assert_eq!(folder_path_parts(""), None);
    assert_eq!(folder_path_parts("/"), None);
    assert_eq!(folder_path_parts("/a/b/"), Some(vec!["a".to_string(), "b".to_string()]));
    assert_eq!(folder_path_parts("a//b"), Some(vec!["a".to_string(), "".to_string(), "b".to_string()]));
    assert_eq!(folder_path_parts("//"), Some(vec!["".to_string()]));
}

#[test]
fn find_folder_by_exact_name() {
    let names = vec![None, Some("Slides".to_string()), Some("slides".to_string()), Some("Slides".to_string())];
    assert_eq!(find_folder(&names, "Slides"), Some(1));
    assert_eq!(find_folder(&names, "slides"), Some(2));
    assert_eq!(find_folder(&names, "Video"), None);
    assert_eq!(no_folder_id_error(), "Folder has no ID");
    assert_eq!(folder_not_found_error("Video"), "Folder not found: Video");
}

#[test]
fn search_query_needs_three_bytes() {
    assert!(check_search_query("ab").is_err());
    assert_eq!(
        check_search_query("ab").unwrap_err(),
        "search query too short (Canvas requires at least 3 bytes)"
    );
    assert!(check_search_query("abc").is_ok());
    assert!(check_search_query("中").is_ok());
}

#[test]
fn picking_a_file() {
    assert!(is_file_id("12345") && !is_file_id("hw1.pdf"));
    let files = vec![
        (Some("Homework 1".to_string()), Some("hw1.pdf".to_string())),
        (None, Some("hw2.pdf".to_string())),
    ];
    assert_eq!(pick_file(&files, "hw1.pdf"), Ok(0));
    assert_eq!(pick_file(&files, "hw2.pdf"), Ok(1));
    assert_eq!(pick_file(&files, "hw3.pdf"), Err("File not found: hw3.pdf".to_string()));
    assert_eq!(default_download_name(&None), "download");
    assert_eq!(default_download_name(&Some("x.pdf".to_string())), "x.pdf");
}

#[test]
fn upload_answers() {
    let t = UploadToken { upload_url: "https://u".to_string(), upload_params: vec![], file_param: None };
    assert_eq!(upload_file_field(&t), "file");
    let t = UploadToken { file_param: Some("attachment".to_string()), ..t };
    assert_eq!(upload_file_field(&t), "attachment");
    assert_eq!(upload_json("while(1);{\"id\":1}"), "{\"id\":1}");
    assert_eq!(upload_json("{\"id\":1}"), "{\"id\":1}");
}
