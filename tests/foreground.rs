use std::time::Duration;

use notify_done::executor::{command_line, format_duration, ExecError, ExecutionResult};
use notify_done::formatter::{format_body, get_icon, get_title, get_urgency, should_notify, Config};
use notify_done::protocol::TaskInfo;

fn nanos(d: Duration) -> u64 {
    d.as_nanos() as u64
}

fn result(command: &str, exit_code: i32, duration: Duration, success: bool) -> ExecutionResult {
    ExecutionResult {
        command: command.to_string(),
        exit_code,
        duration: nanos(duration),
        success,
    }
}

#[test]
fn test_format_duration() {
    assert_eq!(format_duration(nanos(Duration::from_millis(500))), "500ms");
    assert_eq!(format_duration(nanos(Duration::from_secs(5))), "5s");
    assert_eq!(format_duration(nanos(Duration::from_secs(65))), "1m 5s");
    assert_eq!(format_duration(nanos(Duration::from_secs(3665))), "1h 1m 5s");
    assert_eq!(format_duration(nanos(Duration::from_secs(3600))), "1h");
    assert_eq!(format_duration(nanos(Duration::from_secs(60))), "1m");
}

#[test]
fn test_format_body() {
    let result = result("cargo build", 0, Duration::from_secs(65), true);
    let template = "Command: {command}\nDuration: {duration}\nExit: {exit_code}";
    let formatted = format_body(template, &result, None);
    assert!(formatted.contains("cargo build"));
    assert!(formatted.contains("1m 5s"));
    assert!(formatted.contains("Exit: 0"));
}

#[test]
fn test_format_body_with_name() {
    let result = result("cargo build --release", 0, Duration::from_secs(30), true);
    let template = "Task: {name}";
    let formatted = format_body(template, &result, Some("Release Build"));
    assert!(formatted.contains("Release Build"));
}

#[test]
fn format_body_fills_every_placeholder_exactly() {
    let result = result("make all", -2, Duration::from_secs(7200), false);
    let formatted = format_body("{name}|{command}|{duration}|{exit_code}|{command}", &result, None);
    assert_eq!(formatted, "make all|make all|2h|-2|make all");
}

#[test]
fn format_duration_edges() {
    assert_eq!(format_duration(0), "0ms");
    assert_eq!(format_duration(999_999_999), "999ms");
    assert_eq!(format_duration(nanos(Duration::from_secs(3601))), "1h 1s");
    assert_eq!(format_duration(nanos(Duration::from_secs(86399))), "23h 59m 59s");
}

#[test]
fn command_line_joins_arguments() {
    let args = vec!["sleep".to_string(), "5".to_string()];
    assert_eq!(command_line(&args).unwrap(), "sleep 5");
}

#[test]
fn command_line_rejects_empty_arguments() {
    let err = command_line(&Vec::new()).unwrap_err();
    assert_eq!(err, ExecError::NoCommand);
    assert_eq!(err.message(), "No command provided");
}

#[test]
fn execution_result_counts_signal_as_failure_code_one() {
    let r = ExecutionResult::new("x".to_string(), None, false, 5);
    assert_eq!(r.exit_code, 1);
    let r = ExecutionResult::new("x".to_string(), Some(3), false, 5);
    assert_eq!(r.exit_code, 3);
    assert_eq!(r.duration, 5);
}

#[test]
fn titles_icons_urgencies_follow_outcome() {
    let config = Config::default();
    assert_eq!(get_title(&config, true), "Task Completed");
    assert_eq!(get_title(&config, false), "Task Failed");
    assert_eq!(get_icon(&config, true), "dialog-information");
    assert_eq!(get_icon(&config, false), "dialog-error");
    assert_eq!(get_urgency(&config, true), "normal");
    assert_eq!(get_urgency(&config, false), "critical");
}

#[test]
fn foreground_threshold_decision() {
    let mut config = Config::default();
    let short = result("ls", 0, Duration::from_secs(9), true);
    let long = result("make", 0, Duration::from_secs(10), true);
    assert!(!should_notify(&config, &short, None, false));
    assert!(should_notify(&config, &long, None, false));
    assert!(!should_notify(&config, &long, None, true));
    assert!(should_notify(&config, &short, Some(5), false));
    assert!(!should_notify(&config, &long, Some(11), false));
    config.general.always_notify = true;
    assert!(should_notify(&config, &short, Some(100), false));
    assert!(!should_notify(&config, &short, None, true));
}

#[test]
fn running_duration_saturates() {
    let t = TaskInfo {
        id: "a".to_string(),
        command: "sleep 5".to_string(),
        name: None,
        pid: 1,
        started_at: 1_000,
    };
    assert_eq!(t.running_duration(4_000), 3_000);
    assert_eq!(t.running_duration(500), 0);
}
