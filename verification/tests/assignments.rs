use ntucool::assignments::{
    assess, confirm_step, content_from_args, enforce_gate, first_submit_step, validate_content,
    AssignmentFacts, SubmitStep,
    ConfirmStep, ContentArgError, GateRefusal, PriorSubmission, SubmitContent, SubmitError,
    Timestamp,
};
use ntucool::config::{from_config_name, WriteLevel};
use ntucool::strs::str_lt;
use ntucool::submit_flow::{PostedSubmission, SubmitFlow, SubmitNext, SubmitReply, SubmitRequest};
use ntucool::types::{RiskSeverity, SubmitPreflight, SubmitRisk};

fn risk(code: &str, severity: RiskSeverity) -> SubmitRisk {
    SubmitRisk { code: code.into(), severity, message: String::new() }
}

fn now() -> Timestamp {
    let d = std::time::SystemTime::now().duration_since(std::time::UNIX_EPOCH).unwrap();
    Timestamp { secs: d.as_secs() as i64, nanos: d.subsec_nanos() }
}

// 2000-01-01T00:00:00Z and 2099-01-01T00:00:00Z
const Y2000: Timestamp = Timestamp { secs: 946_684_800, nanos: 0 };
const Y2099: Timestamp = Timestamp { secs: 4_070_908_800, nanos: 0 };

fn upload_only() -> AssignmentFacts {
    AssignmentFacts {
        name: None,
        submission_types: Some(vec!["online_upload".to_string()]),
        locked_for_user: None,
        lock_explanation: None,
        unlock_at: None,
        lock_at: None,
        due_at: None,
        allowed_extensions: None,
        allowed_attempts: None,
        submission: None,
    }
}

fn one_pdf() -> SubmitContent {
    SubmitContent::Files(vec!["x.pdf".to_string()])
}

fn has(pf: &SubmitPreflight, code: &str, severity: RiskSeverity) -> bool {
    pf.risks.iter().any(|r| r.code == code && r.severity == severity)
}

#[test]
fn gate_clean_submission_passes() {
    for level in [WriteLevel::Safe, WriteLevel::Guarded] {
        assert!(enforce_gate(&vec![], level, false).is_ok());
        assert!(enforce_gate(&vec![], level, true).is_ok());
    }
}

#[test]
fn gate_hard_risk_always_aborts() {
    let risks = vec![risk("type_mismatch", RiskSeverity::Hard)];
    for level in [WriteLevel::Safe, WriteLevel::Guarded] {
        for i_understand in [false, true] {
            assert!(
                enforce_gate(&risks, level, i_understand).is_err(),
                "hard risk must abort at {level:?} i_understand={i_understand}"
            );
        }
    }
}

#[test]
fn gate_safe_blocks_soft_risk_even_with_i_understand() {
    let risks = vec![risk("past_due", RiskSeverity::Soft)];
    assert!(enforce_gate(&risks, WriteLevel::Safe, false).is_err());
    assert!(
        enforce_gate(&risks, WriteLevel::Safe, true).is_err(),
        "`safe` must ignore i_understand for soft risks"
    );
}

#[test]
fn gate_guarded_soft_risk_needs_i_understand() {
    let risks = vec![risk("overwrites_existing", RiskSeverity::Soft)];
    assert!(enforce_gate(&risks, WriteLevel::Guarded, false).is_err());
    assert!(enforce_gate(&risks, WriteLevel::Guarded, true).is_ok());
}

#[test]
fn assess_type_mismatch_when_content_type_unaccepted() {
    let a = upload_only();
    let pf = assess(1, 2, &SubmitContent::Text("hi".into()), &a, now());
    assert!(has(&pf, "type_mismatch", RiskSeverity::Hard));
    let pf = assess(1, 2, &one_pdf(), &a, now());
    assert!(!pf.risks.iter().any(|r| r.code == "type_mismatch"));
}

#[test]
fn assess_flags_locked_assignment() {
    let mut a = upload_only();
    a.locked_for_user = Some(true);
    assert!(has(&assess(1, 2, &one_pdf(), &a, now()), "locked", RiskSeverity::Hard));
}

#[test]
fn assess_past_due_is_soft_future_due_is_clean() {
    let mut past = upload_only();
    past.due_at = Some(Y2000);
    assert!(has(&assess(1, 2, &one_pdf(), &past, now()), "past_due", RiskSeverity::Soft));

    let mut future = upload_only();
    future.due_at = Some(Y2099);
    let pf = assess(1, 2, &one_pdf(), &future, now());
    assert!(pf.risks.is_empty(), "clean future-dated assignment: {:?}", pf.risks);
}

#[test]
fn assess_flags_past_lock_date() {
    let mut a = upload_only();
    a.lock_at = Some(Y2000);
    assert!(has(&assess(1, 2, &one_pdf(), &a, now()), "past_lock_date", RiskSeverity::Hard));
}

#[test]
fn assess_flags_existing_submission_as_soft() {
    let mut a = upload_only();
    a.submission = Some(PriorSubmission {
        submitted_at: None,
        workflow_state: Some("submitted".into()),
        attempt: Some(1),
    });
    let pf = assess(1, 2, &one_pdf(), &a, now());
    assert!(pf.has_existing_submission);
    assert!(has(&pf, "overwrites_existing", RiskSeverity::Soft));
}

#[test]
fn assess_flags_disallowed_extension() {
    let mut a = upload_only();
    a.allowed_extensions = Some(vec!["pdf".to_string()]);
    let docx = SubmitContent::Files(vec!["essay.docx".to_string()]);
    assert!(has(&assess(1, 2, &docx, &a, now()), "disallowed_extension", RiskSeverity::Hard));
    assert!(!assess(1, 2, &one_pdf(), &a, now())
        .risks
        .iter()
        .any(|r| r.code == "disallowed_extension"));
}

#[test]
fn assess_flags_attempts_exhausted() {
    let mut a = upload_only();
    a.allowed_attempts = Some(2);
    a.submission = Some(PriorSubmission {
        submitted_at: None,
        workflow_state: Some("submitted".into()),
        attempt: Some(2),
    });
    assert!(has(&assess(1, 2, &one_pdf(), &a, now()), "attempts_exhausted", RiskSeverity::Hard));
}

#[test]
fn submit_content_maps_to_canvas_type() {
    assert_eq!(SubmitContent::Files(vec![]).submission_type(), "online_upload");
    assert_eq!(SubmitContent::Text(String::new()).submission_type(), "online_text_entry");
}

// ── further cases ────────────────────────────────────────────────────────

#[test]
fn assess_messages_render_dates_and_lists() {
    let mut a = upload_only();
    a.due_at = Some(Y2000);
    a.name = Some("HW1".into());
    let pf = assess(7, 8, &SubmitContent::Text("body".into()), &a, now());
    assert_eq!(pf.assignment_name, "HW1");
    assert_eq!(pf.submission_type, "online_text_entry");
    assert_eq!(pf.due_at.as_deref(), Some("2000-01-01T00:00:00+00:00"));
    assert_eq!(pf.risks[0].code, "type_mismatch");
    assert_eq!(
        pf.risks[0].message,
        "Assignment accepts [\"online_upload\"], not `online_text_entry` — Canvas will reject this submission."
    );
    assert_eq!(pf.risks[1].code, "past_due");
    assert_eq!(
        pf.risks[1].message,
        "Past due (2000-01-01T00:00:00+00:00) — the submission will be marked late."
    );
}

#[test]
fn assess_extension_is_case_insensitive_and_needs_a_dot() {
    let mut a = upload_only();
    a.allowed_extensions = Some(vec!["PDF".to_string()]);
    let ok = SubmitContent::Files(vec!["dir.v2/report.pdf".to_string()]);
    assert!(assess(1, 2, &ok, &a, now()).risks.is_empty());
    let dotfile = SubmitContent::Files(vec![".pdf".to_string()]);
    let pf = assess(1, 2, &dotfile, &a, now());
    assert_eq!(pf.risks.len(), 1);
    assert_eq!(
        pf.risks[0].message,
        "`.pdf` has an extension Canvas won't accept here (allowed: [\"PDF\"])."
    );
}

#[test]
fn assess_unlock_and_attempt_messages() {
    let mut a = upload_only();
    a.unlock_at = Some(Y2099);
    a.lock_explanation = Some("closed".into());
    a.locked_for_user = Some(true);
    a.allowed_attempts = Some(1);
    a.submission = Some(PriorSubmission { submitted_at: Some("x".into()), workflow_state: None, attempt: Some(3) });
    let pf = assess(1, 2, &one_pdf(), &a, now());
    let codes: Vec<&str> = pf.risks.iter().map(|r| r.code.as_str()).collect();
    assert_eq!(codes, vec!["locked", "not_yet_unlocked", "attempts_exhausted", "overwrites_existing"]);
    assert_eq!(pf.risks[0].message, "Assignment is locked for you: closed");
    assert_eq!(pf.risks[2].message, "All 1 allowed attempt(s) already used.");
    assert!(pf.risks[3].message.starts_with("You already submitted (attempt 3). This adds"));
}

#[test]
fn gate_refusal_messages() {
    let risks = vec![
        SubmitRisk { code: "past_due".into(), severity: RiskSeverity::Soft, message: "late".into() },
        SubmitRisk { code: "locked".into(), severity: RiskSeverity::Hard, message: "no".into() },
    ];
    match enforce_gate(&risks, WriteLevel::Guarded, true) {
        Err(r @ GateRefusal::Blocked(_)) => assert_eq!(
            r.message(),
            "Submission refused — 1 blocking issue(s) Canvas would reject:\n  - [locked] no"
        ),
        other => panic!("unexpected {other:?}"),
    }
    let soft = vec![risks[0].clone()];
    match enforce_gate(&soft, WriteLevel::Safe, true) {
        Err(r @ GateRefusal::Held(_, WriteLevel::Safe)) => assert!(r
            .message()
            .starts_with("Submission held — 1 risk(s) (write_level is `safe`")),
        other => panic!("unexpected {other:?}"),
    }
}

#[test]
fn validate_content_cases() {
    assert!(matches!(
        validate_content(&SubmitContent::Files(vec![]), &vec![]),
        Err(SubmitError::NoFiles)
    ));
    match validate_content(
        &SubmitContent::Files(vec!["a".into(), "b".into(), "c".into()]),
        &vec![true, false, false],
    ) {
        Err(SubmitError::FileNotFound(p)) => assert_eq!(p, "b"),
        other => panic!("unexpected {other:?}"),
    }
    assert!(matches!(
        validate_content(&SubmitContent::Text(" \n\t".into()), &vec![]),
        Err(SubmitError::EmptyText)
    ));
    assert!(validate_content(&SubmitContent::Text(" x ".into()), &vec![]).is_ok());
}

#[test]
fn confirm_step_cases() {
    let hard = vec![risk("locked", RiskSeverity::Hard)];
    match confirm_step(&hard, WriteLevel::Guarded, true) {
        ConfirmStep::Refuse(m) => assert_eq!(m, "submission refused (1 blocking issue(s))"),
        other => panic!("unexpected {other:?}"),
    }
    assert!(matches!(confirm_step(&hard, WriteLevel::Unguarded, false), ConfirmStep::Proceed));
    let soft = vec![risk("past_due", RiskSeverity::Soft), risk("overwrites_existing", RiskSeverity::Soft)];
    match confirm_step(&soft, WriteLevel::Guarded, false) {
        ConfirmStep::Ask(p) => assert_eq!(p, "Submit anyway, accepting the 2 risk(s) above?"),
        other => panic!("unexpected {other:?}"),
    }
    match confirm_step(&vec![], WriteLevel::Safe, false) {
        ConfirmStep::Ask(p) => assert_eq!(p, "Submit now? (this is irreversible)"),
        other => panic!("unexpected {other:?}"),
    }
    assert!(matches!(confirm_step(&soft, WriteLevel::Safe, true), ConfirmStep::Refuse(_)));
}

#[test]
fn content_from_args_cases() {
    assert!(matches!(content_from_args(vec![], Some("t".into())), Ok(SubmitContent::Text(_))));
    assert_eq!(
        content_from_args(vec!["a".into()], Some("t".into())).unwrap_err(),
        ContentArgError::Both
    );
    assert_eq!(content_from_args(vec![], None).unwrap_err(), ContentArgError::Neither);
}

#[test]
fn first_submit_step_refuses_before_any_request() {
    let empty = SubmitContent::Files(vec![]);
    assert!(matches!(
        first_submit_step(&empty, &vec![], WriteLevel::Guarded),
        SubmitStep::Refuse(SubmitError::NoFiles)
    ));
    let missing = SubmitContent::Files(vec!["a.pdf".into(), "b.pdf".into()]);
    match first_submit_step(&missing, &vec![true, false], WriteLevel::Unguarded) {
        SubmitStep::Refuse(SubmitError::FileNotFound(p)) => assert_eq!(p, "b.pdf"),
        other => panic!("unexpected {other:?}"),
    }
    let blank = SubmitContent::Text("  ".into());
    assert!(matches!(
        first_submit_step(&blank, &vec![], WriteLevel::Safe),
        SubmitStep::Refuse(SubmitError::EmptyText)
    ));
    let text = SubmitContent::Text("answer".into());
    assert!(matches!(
        first_submit_step(&text, &vec![], WriteLevel::Off),
        SubmitStep::Refuse(SubmitError::WritesDisabled)
    ));
    assert!(matches!(first_submit_step(&text, &vec![], WriteLevel::Safe), SubmitStep::Preflight));
    assert!(matches!(first_submit_step(&text, &vec![], WriteLevel::Guarded), SubmitStep::Preflight));
    assert!(matches!(first_submit_step(&text, &vec![], WriteLevel::Unguarded), SubmitStep::Send));
}

#[test]
fn assess_codes_match_their_reasons_and_only_late_or_repeat_is_soft() {
    let a = AssignmentFacts {
        name: Some("HW".into()),
        submission_types: Some(vec!["online_text_entry".to_string()]),
        locked_for_user: Some(true),
        lock_explanation: None,
        unlock_at: Some(Y2099),
        lock_at: Some(Y2000),
        due_at: Some(Y2000),
        allowed_extensions: Some(vec!["txt".to_string()]),
        allowed_attempts: Some(1),
        submission: Some(PriorSubmission { submitted_at: Some("x".into()), workflow_state: None, attempt: Some(1) }),
    };
    let pf = assess(1, 2, &one_pdf(), &a, now());
    let codes: Vec<&str> = pf.risks.iter().map(|r| r.code.as_str()).collect();
    assert_eq!(
        codes,
        vec![
            "type_mismatch",
            "locked",
            "not_yet_unlocked",
            "past_lock_date",
            "disallowed_extension",
            "attempts_exhausted",
            "past_due",
            "overwrites_existing",
        ]
    );
    for r in &pf.risks {
        let soft = r.code == "past_due" || r.code == "overwrites_existing";
        assert_eq!(r.severity == RiskSeverity::Soft, soft, "{}", r.code);
    }
    let clean = assess(1, 2, &one_pdf(), &upload_only(), now());
    assert!(clean.risks.is_empty());
}

#[test]
fn submit_flow_gates_uploads_and_posts() {
    let text = SubmitContent::Text("answer".into());
    // A gated text submission fetches the assignment first; a refused gate stops it.
    let (mut f, n) = SubmitFlow::start(5, 6, text.clone(), &vec![], WriteLevel::Guarded, true, Some("  ".into()));
    assert!(matches!(n, SubmitNext::Send(SubmitRequest::FetchAssignment)));
    let refused = f.clone().step(SubmitReply::Assignment(upload_only(), now()));
    assert!(matches!(refused, SubmitNext::Stop(SubmitError::Refused(GateRefusal::Blocked(_)))));
    let mut accepts_text = upload_only();
    accepts_text.submission_types = Some(vec!["online_text_entry".to_string()]);
    match f.step(SubmitReply::Assignment(accepts_text, now())) {
        SubmitNext::Send(SubmitRequest::Post(p)) => {
            assert_eq!(p.submission_type, "online_text_entry");
            assert_eq!(p.body.as_deref(), Some("answer"));
            assert!(p.file_ids.is_none() && p.comment.is_none());
        }
        other => panic!("unexpected {other:?}"),
    }
    let posted = PostedSubmission {
        workflow_state: Some("submitted".into()),
        submission_type: Some("online_text_entry".into()),
        submitted_at: None,
        attempt: Some(1),
        late: Some(false),
        preview_url: None,
    };
    match f.step(SubmitReply::Posted(posted)) {
        SubmitNext::Done(r) => {
            assert_eq!((r.course_id, r.assignment_id), (5, 6));
            assert_eq!(r.workflow_state.as_deref(), Some("submitted"));
        }
        other => panic!("unexpected {other:?}"),
    }
    // Unguarded files upload one by one, then post the ids.
    let files = SubmitContent::Files(vec!["a.pdf".into(), "b.pdf".into()]);
    let (mut g, n) = SubmitFlow::start(5, 6, files, &vec![true, true], WriteLevel::Unguarded, false, Some("hi".into()));
    assert!(matches!(n, SubmitNext::Send(SubmitRequest::Upload(ref p)) if p == "a.pdf"));
    assert!(matches!(g.step(SubmitReply::Uploaded(7)), SubmitNext::Send(SubmitRequest::Upload(ref p)) if p == "b.pdf"));
    match g.step(SubmitReply::Uploaded(8)) {
        SubmitNext::Send(SubmitRequest::Post(p)) => {
            assert_eq!(p.submission_type, "online_upload");
            assert_eq!(p.file_ids, Some(vec![7, 8]));
            assert_eq!(p.comment.as_deref(), Some("hi"));
            assert!(p.body.is_none());
        }
        other => panic!("unexpected {other:?}"),
    }
    // Writes off, or a missing file, stop before any request; a failed request stops.
    let (_, n) = SubmitFlow::start(5, 6, text.clone(), &vec![], WriteLevel::Off, false, None);
    assert!(matches!(n, SubmitNext::Stop(SubmitError::WritesDisabled)));
    let (_, n) = SubmitFlow::start(
        5,
        6,
        SubmitContent::Files(vec!["x".into()]),
        &vec![false],
        WriteLevel::Guarded,
        false,
        None,
    );
    assert!(matches!(n, SubmitNext::Stop(SubmitError::FileNotFound(_))));
    let (mut h, _) = SubmitFlow::start(5, 6, text, &vec![], WriteLevel::Safe, false, None);
    match h.step(SubmitReply::Failed("timeout".into())) {
        SubmitNext::Stop(e) => assert_eq!(e.message(), "timeout"),
        other => panic!("unexpected {other:?}"),
    }
}

#[test]
fn config_file_names_are_exact() {
    assert_eq!(from_config_name("guarded"), Some(WriteLevel::Guarded));
    assert_eq!(from_config_name("none"), Some(WriteLevel::Off));
    assert_eq!(from_config_name("2"), None);
    assert_eq!(from_config_name("GUARDED"), None);
    assert_eq!(from_config_name(" safe"), None);
}

#[test]
fn strings_compare_by_code_point() {
    assert!(str_lt("2023-11-14", "2023-11-14T00:00:00+00:00"));
    assert!(!str_lt("2023-11-14T00:00:00+00:00", "2023-11-14"));
    assert!(str_lt("2023-11-14T22:13:20+00:00", "2023-11-14T22:13:20Z"));
    assert!(!str_lt("b", "b"));
    assert!(str_lt("a", "é"));
}

#[test]
fn assess_renders_a_leap_second_due_date() {
    let mut a = upload_only();
    a.due_at = Some(Timestamp { secs: 1_483_228_799, nanos: 1_000_000_000 });
    let pf = assess(1, 2, &one_pdf(), &a, now());
    assert_eq!(pf.due_at.as_deref(), Some("2016-12-31T23:59:60+00:00"));
    assert!(has(&pf, "past_due", RiskSeverity::Soft));
}
