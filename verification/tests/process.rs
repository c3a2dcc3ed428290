use chipsmith::process::{keep_tail, tail_text, Capture, ProcessOutcome, ProcessSpec, TAIL_LINES};

#[test]
fn a_wrapper_keeps_the_program_and_its_arguments_in_order() {
    let spec = ProcessSpec::new("/q/quartus_map".to_string())
        .arg("blinky".to_string())
        .wrapped_in(vec!["/nix/bwrap".to_string(), "--tmpfs".to_string(), "/lib".to_string()]);

    assert_eq!(spec.program, "/nix/bwrap");
    assert_eq!(spec.command_line(), "/nix/bwrap --tmpfs /lib /q/quartus_map blinky");
}

#[test]
fn the_command_line_is_what_a_human_would_have_typed() {
    let spec = ProcessSpec::new("/q/quartus_map".to_string())
        .args(vec!["blinky".to_string(), "--read_settings_files=on".to_string()]);
    assert_eq!(spec.command_line(), "/q/quartus_map blinky --read_settings_files=on");
}

#[test]
fn a_spec_carries_its_environment_directory_and_capture() {
    let spec = ProcessSpec::new("/bin/sh".to_string())
        .env("A".to_string(), "1".to_string())
        .current_dir("/w".to_string())
        .capture(Capture::Null);
    assert_eq!(spec.env, vec![("A".to_string(), "1".to_string())]);
    assert_eq!(spec.working_dir.as_deref(), Some("/w"));
    assert_eq!(spec.capture, Capture::Null);
    assert_eq!(ProcessSpec::new("x".to_string()).capture, Capture::Inherit);
}

#[test]
fn only_a_zero_exit_is_success() {
    let mut outcome = ProcessOutcome::default();
    assert!(!outcome.success());
    outcome.code = Some(0);
    assert!(outcome.success());
    outcome.code = Some(3);
    assert!(!outcome.success());
}

#[test]
fn the_stderr_tail_keeps_the_last_lines() {
    let mut tail = Vec::new();
    assert_eq!(tail_text(&tail), None);
    for i in 0..25 {
        keep_tail(&mut tail, format!("line {i}"));
    }
    assert_eq!(tail.len(), TAIL_LINES);
    assert_eq!(tail[0], "line 5");
    assert_eq!(tail[19], "line 24");
    let text = tail_text(&tail).unwrap();
    assert!(text.starts_with("line 5\nline 6\n"));
    assert!(text.ends_with("\nline 24"));
}
