use ntucool::assignments::Timestamp;
use ntucool::browser::{
    assignment_choice_label, assignment_matches, course_choice_label, course_matches, description_panel,
    ContentFormat, ExportFormState, FormFocus,
};
use ntucool::fuzzy_select::{FuzzySelect, SelectStep, SortMode};
use ntucool::tui_app::{Key, KeyCode, Mods};

fn key(c: KeyCode) -> Key {
    Key { code: c, mods: Mods::Plain }
}

// 2023-11-14 22:13:20 UTC
const T0: i64 = 1_700_000_000;

#[test]
fn course_labels_pad_the_name_before_the_code() {
    let l = course_choice_label(&Some("Calculus".to_string()), &Some("MATH101".to_string()), 30);
    let max = 30 - ("MATH101".len() + 4);
    assert_eq!(l, format!("{:<width$}  {}", "Calculus", "MATH101", width = max));
    let l = course_choice_label(&Some("A very long course name indeed".to_string()), &Some("X".to_string()), 15);
    assert_eq!(l, "A very lo…  X");
    assert_eq!(course_choice_label(&None, &None, 4), "…  ");
}

#[test]
fn assignment_labels_end_with_due_and_points() {
    let l = assignment_choice_label(&Some("HW1".to_string()), Some(Timestamp { secs: T0, nanos: 0 }), &Some("10".to_string()), 40);
    assert!(l.ends_with("  11/14 22:13  10pts"));
    assert!(l.starts_with("HW1 "));
    assert_eq!(l.chars().count(), 40 - 2);
    let l = assignment_choice_label(&None, None, &None, 10);
    assert_eq!(l, "(…  -  -");
}

#[test]
fn matching_ignores_case() {
    assert!(course_matches(&Some("Calculus".to_string()), &None, "CALC"));
    assert!(course_matches(&None, &Some("MATH101".to_string()), "math"));
    assert!(!course_matches(&None, &None, "x"));
    assert!(assignment_matches(&Some("Homework 1".to_string()), "work"));
    assert!(!assignment_matches(&None, "work"));
}

#[test]
fn description_panel_indents_lines() {
    assert_eq!(description_panel(""), "  (no description)");
    assert_eq!(description_panel("a\r\nb\n"), "  a\n  b");
    assert_eq!(description_panel("one"), "  one");
    assert_eq!(description_panel("\n"), "  ");
}

#[test]
fn the_form_of_an_assignment() {
    let st = ExportFormState::for_assignment(
        &None,
        None,
        &Some("5".to_string()),
        &Some("<p>Read <a href=\"/courses/1/files/77/download\">notes.pdf</a></p>".to_string()),
    )
    .unwrap();
    assert_eq!(st.name, "(unknown)");
    assert_eq!(st.due, "-");
    assert_eq!(st.points, "5");
    assert_eq!(st.description_text, "Read notes.pdf\n");
    assert_eq!(st.file_links.len(), 1);
    assert_eq!(st.file_links[0].file_id.as_deref(), Some("77"));
    assert_eq!(st.selected_format, ContentFormat::Off);
    assert_eq!(st.focus, FormFocus::Format(0));
    assert_eq!(st.output_dir, "./");
}

#[test]
fn a_selection_runs_on_the_library_state() {
    let sel = FuzzySelect::new(3).with_prompt("Pick").with_sort_modes(vec![
        SortMode { name: "Due ↑".to_string(), descending: false },
        SortMode { name: "Due ↓".to_string(), descending: true },
    ]);
    let keys = vec![Some(30), None, Some(10)];
    let mut st = sel.start(&keys);
    assert_eq!(st.filtered, vec![2, 0, 1]);
    assert_eq!(sel.status_line(&st), " 3/3  Tab Due ↑  Enter select  Esc back");
    assert_eq!(sel.filter_line(&st), " / ▏");
    assert_eq!(sel.on_key(&mut st, key(KeyCode::Tab), &keys), SelectStep::Continue);
    assert_eq!(st.filtered, vec![0, 2, 1]);
    assert_eq!(sel.status_line(&st), " 3/3  Tab Due ↓  Enter select  Esc back");
    assert_eq!(sel.on_key(&mut st, key(KeyCode::Char('h')), &keys), SelectStep::Refilter);
    assert_eq!(st.query, "h");
    sel.refilter(&mut st, &vec![false, true, true], &keys);
    assert_eq!(st.filtered, vec![2, 1]);
    assert_eq!(sel.on_key(&mut st, key(KeyCode::Down), &keys), SelectStep::Continue);
    assert_eq!(sel.on_key(&mut st, key(KeyCode::Enter), &keys), SelectStep::Done(Some(1)));
    assert_eq!(sel.on_key(&mut st, key(KeyCode::Backspace), &keys), SelectStep::Refilter);
    assert_eq!(st.query, "");
    assert_eq!(sel.on_key(&mut st, key(KeyCode::Left), &keys), SelectStep::Continue);
    let plain = FuzzySelect::new(2);
    let mut st = plain.start(&vec![None, None]);
    assert_eq!(st.filtered, vec![0, 1]);
    assert_eq!(plain.status_line(&st), " 2/2  Enter select  Esc back");
    assert_eq!(plain.on_key(&mut st, key(KeyCode::Esc), &vec![None, None]), SelectStep::Done(None));
}
