use scriptvault::actions::{
    editor_command, fallback_command, finish_outcome, format_duration, format_secs, goto_line_args, is_shell_script,
    retain_chunk, shebang_command, RunOutput, WaitOutcome,
};
use scriptvault::model::Language;

#[test]
fn open_in_editor_with_empty_command_errors() {
    let err = editor_command("   ", "/tmp/whatever.sh", None).unwrap_err();
    assert!(err.message().contains("no editor configured"));
}

#[test]
fn open_in_editor_uses_program_and_args() {
    let cmd = editor_command("true", "/tmp/whatever.sh", None).unwrap();
    assert_eq!(cmd.program, "true");
    assert_eq!(cmd.args, vec!["/tmp/whatever.sh".to_string()]);
    let cmd = editor_command("code --wait", "/tmp/whatever.sh", None).unwrap();
    assert_eq!(cmd.program, "code");
    assert_eq!(cmd.args, vec!["--wait".to_string(), "/tmp/whatever.sh".to_string()]);
}

#[test]
fn open_at_line_passes_through_for_unknown_editor() {
    let cmd = editor_command("true", "/tmp/whatever.sh", Some(7)).unwrap();
    assert_eq!(cmd.args, vec!["/tmp/whatever.sh".to_string()]);
}

#[test]
fn goto_line_args_use_the_right_convention_per_editor() {
    assert_eq!(goto_line_args("code", "/s/a.sh", 12), vec!["--goto".to_string(), "/s/a.sh:12".to_string()]);
    assert_eq!(goto_line_args("/usr/bin/nvim", "/s/a.sh", 3), vec!["+3".to_string(), "/s/a.sh".to_string()]);
    assert_eq!(goto_line_args("emacsclient", "/s/a.sh", 1), vec!["+1".to_string(), "/s/a.sh".to_string()]);
    assert_eq!(goto_line_args("gedit", "/s/a.sh", 9), vec!["/s/a.sh".to_string()]);
}

#[test]
fn format_duration_prefers_whole_minutes() {
    assert_eq!(format_secs(1800), "30m");
    assert_eq!(format_secs(60), "1m");
    assert_eq!(format_secs(90), "90s");
    assert_eq!(format_secs(0), "0s");
    assert_eq!(format_secs(59), "59s");
}

#[test]
fn format_duration_uses_the_whole_seconds_of_the_duration() {
    assert_eq!(format_duration(std::time::Duration::from_secs(60)), "1m");
    assert_eq!(format_duration(std::time::Duration::from_secs(90)), "90s");
    assert_eq!(format_duration(std::time::Duration::from_secs(0)), "0s");
    assert_eq!(format_duration(std::time::Duration::from_millis(75)), "0s");
    assert_eq!(format_duration(std::time::Duration::from_millis(61_500)), "61s");
    assert_eq!(format_duration(std::time::Duration::from_secs(1800)), "30m");
    assert_eq!(format_duration(std::time::Duration::from_secs(3600)), "60m");
}

#[test]
fn default_run_options_time_out_after_thirty_minutes() {
    let o = scriptvault::actions::RunOptions::default();
    assert_eq!(format_duration(o.timeout.unwrap()), "30m");
}

#[test]
fn outcomes_succeed_only_on_exit_zero_without_timeout() {
    assert!(WaitOutcome { exit_code: Some(0), timed_out: false }.success());
    assert!(!WaitOutcome { exit_code: Some(0), timed_out: true }.success());
    assert!(!WaitOutcome { exit_code: Some(3), timed_out: false }.success());
    assert!(!WaitOutcome { exit_code: None, timed_out: false }.success());
    let out = RunOutput {
        exit_code: Some(0),
        timed_out: false,
        stdout: vec![],
        stderr: vec![],
        stdout_truncated: false,
        stderr_truncated: false,
    };
    assert!(out.success());
}

#[test]
fn finish_outcome_reports_each_failure() {
    assert!(finish_outcome(WaitOutcome { exit_code: Some(0), timed_out: false }, "/s/a.sh", None).is_ok());
    let e = finish_outcome(WaitOutcome { exit_code: Some(2), timed_out: false }, "/s/a.sh", None).unwrap_err();
    assert_eq!(e.message(), "/s/a.sh exited with status 2");
    let e = finish_outcome(WaitOutcome { exit_code: Some(-1), timed_out: false }, "/s/a.sh", None).unwrap_err();
    assert_eq!(e.message(), "/s/a.sh exited with status -1");
    let e = finish_outcome(WaitOutcome { exit_code: None, timed_out: false }, "/s/a.sh", None).unwrap_err();
    assert_eq!(e.message(), "/s/a.sh exited without a reported status");
    let e = finish_outcome(WaitOutcome { exit_code: None, timed_out: true }, "/s/a.sh", None).unwrap_err();
    assert_eq!(e.message(), "/s/a.sh timed out after configured timeout");
    let e = finish_outcome(
        WaitOutcome { exit_code: None, timed_out: true },
        "/s/a.sh",
        Some(std::time::Duration::from_secs(120)),
    )
    .unwrap_err();
    assert_eq!(e.message(), "/s/a.sh timed out after 2m");
}

#[test]
fn run_nonexecutable_shebang_uses_interpreter_not_shell() {
    let c = shebang_command("#!/usr/bin/python3 -u\n", "/s/t.py").unwrap();
    assert_eq!(c.program, "/usr/bin/python3");
    assert_eq!(c.args, vec!["-u".to_string(), "/s/t.py".to_string()]);
    let c = shebang_command("#!/usr/bin/env python3\n", "/s/t.py").unwrap();
    assert_eq!(c.program, "python3");
    assert_eq!(c.args, vec!["/s/t.py".to_string()]);
    let c = shebang_command("#!/usr/bin/env -S python3 -u\n", "/s/t.py").unwrap();
    assert_eq!(c.program, "python3");
    assert_eq!(c.args, vec!["-u".to_string(), "/s/t.py".to_string()]);
    let c = shebang_command("#!/usr/bin/env -i FOO=1 ruby -w\n", "/s/t.rb").unwrap();
    assert_eq!(c.program, "ruby");
    assert_eq!(c.args, vec!["-w".to_string(), "/s/t.rb".to_string()]);
    assert!(shebang_command("echo hi\n", "/s/t.sh").is_none());
    assert!(shebang_command("#!\n", "/s/t.sh").is_none());
    assert!(shebang_command("#!/usr/bin/env -S\n", "/s/t.sh").is_none());
}

#[test]
fn run_nonexecutable_shell_script_falls_back_to_shell() {
    let c = fallback_command("echo hi\n", "/s/t.sh", None).unwrap();
    assert_eq!(c.program, "sh");
    assert_eq!(c.args, vec!["/s/t.sh".to_string()]);
    let c = fallback_command("echo hi\n", "/s/t", Some(Language::Bash)).unwrap();
    assert_eq!(c.program, "sh");
}

#[test]
fn run_nonexecutable_non_shell_without_shebang_does_not_use_sh() {
    assert!(fallback_command("print(1)\n", "/s/t.py", Some(Language::Python)).is_none());
    assert!(!is_shell_script("/s/t.rb", None));
    assert!(is_shell_script("/s/t.zsh", None));
}

#[test]
fn capture_bounds_retained_output() {
    let mut kept = Vec::new();
    assert!(!retain_chunk(&mut kept, b"hello", 8));
    assert!(retain_chunk(&mut kept, b"world", 8));
    assert_eq!(kept, b"hellowor".to_vec());
    assert!(retain_chunk(&mut kept, b"!", 8));
    assert_eq!(kept, b"hellowor".to_vec());
    assert!(!retain_chunk(&mut kept, b"", 8));
}
