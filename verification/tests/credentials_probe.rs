use ntucool::credentials::{check_password_cmd_probe, entered_password_cmd, CommandOutcome};

fn exited(success: bool, stdout: &str, stderr: &str) -> CommandOutcome {
    CommandOutcome::Exited {
        success,
        status: if success { "exit status: 0".to_string() } else { "exit status: 1".to_string() },
        stdout: stdout.to_string(),
        stderr: stderr.to_string(),
    }
}

#[test]
fn a_typed_password_cmd_is_trimmed_and_must_not_be_empty() {
    assert_eq!(entered_password_cmd("  pass show ntucool  "), Ok("pass show ntucool".to_string()));
    assert_eq!(entered_password_cmd("   "), Err("password_cmd is empty — refusing to save".to_string()));
}

#[test]
fn a_password_cmd_is_saved_only_after_a_good_trial_run() {
    assert_eq!(check_password_cmd_probe(&exited(true, "secret\n", "")), Ok(()));
    assert_eq!(
        check_password_cmd_probe(&exited(false, "", "  no such entry \n")),
        Err("password_cmd exited with exit status: 1 (stderr: no such entry)".to_string())
    );
    assert_eq!(
        check_password_cmd_probe(&exited(true, "", "")),
        Err("password_cmd succeeded but produced no output — refusing to save".to_string())
    );
    assert_eq!(check_password_cmd_probe(&exited(true, "\n", "")), Ok(()));
    assert_eq!(
        check_password_cmd_probe(&CommandOutcome::SpawnFailed("No such file".to_string())),
        Err("password_cmd: failed to spawn shell: No such file".to_string())
    );
}
