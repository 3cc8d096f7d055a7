use notify_done::display::{display_label, urgency_level, UrgencyLevel};
use notify_done::notifier::{completion_body, summary_for};
use notify_done::policy::UserConfig;
use notify_done::protocol::{Request, Response};
use notify_done::registry::TaskRegistry;

#[test]
fn labels_are_truncated_past_width() {
    assert_eq!(display_label("cargo build"), "cargo build");
    let exact = "a".repeat(28);
    assert_eq!(display_label(&exact), exact);
    let long = "abcdefghijklmnopqrstuvwxyz0123";
    assert_eq!(display_label(long), "abcdefghijklmnopqrstuvwxy...");
}

#[test]
fn urgency_names() {
    assert_eq!(urgency_level("low"), UrgencyLevel::Low);
    assert_eq!(urgency_level("critical"), UrgencyLevel::Critical);
    assert_eq!(urgency_level("normal"), UrgencyLevel::Normal);
    assert_eq!(urgency_level("urgent"), UrgencyLevel::Normal);
}

#[test]
fn wrapper_notification_text() {
    assert_eq!(summary_for("sleep"), "Command completed: sleep");
    assert_eq!(completion_body(true, 75, 0), "succeeded\nDuration: 1m 15s\nExit code: 0");
    assert_eq!(completion_body(false, 3725, -1), "failed\nDuration: 1h 2m 5s\nExit code: -1");
}

#[test]
fn user_config_edits_add_once() {
    let mut c = UserConfig::default();
    assert!(c.add_ignore_pattern("npm*".to_string()));
    assert!(!c.add_ignore_pattern("npm*".to_string()));
    assert!(c.add_always_notify("make".to_string()));
    assert!(!c.add_always_notify("make".to_string()));
    assert_eq!(c.ignore_patterns, vec!["npm*".to_string()]);
    assert_eq!(c.always_notify, vec!["make".to_string()]);
}

#[test]
fn daemon_requests_are_answered() {
    let mut r = TaskRegistry::new(100, Vec::new());
    let (resp, stop) = r.respond(
        Request::RegisterTask {
            id: "t1".to_string(),
            command: "sleep 5".to_string(),
            name: Some("nap".to_string()),
            pid: 9,
        },
        1_000,
    );
    assert!(matches!(resp, Response::Ack));
    assert!(!stop);
    match r.respond(Request::ListTasks, 2_000).0 {
        Response::Tasks(ts) => {
            assert_eq!(ts.len(), 1);
            assert_eq!(ts[0].started_at, 1_000);
            assert_eq!(ts[0].name.as_deref(), Some("nap"));
        }
        _ => panic!("expected tasks"),
    }
    let (resp, _) = r.respond(
        Request::CompleteTask { id: "t1".to_string(), exit_code: 0, duration_secs: 5 },
        6_000,
    );
    assert!(matches!(resp, Response::Ack));
    match r.respond(Request::GetHistory { count: 10 }, 7_000).0 {
        Response::History(h) => {
            assert_eq!(h.len(), 1);
            assert_eq!(h[0].duration, 5_000_000_000);
            assert!(h[0].success);
        }
        _ => panic!("expected history"),
    }
    assert!(matches!(r.respond(Request::Ping, 0).0, Response::Pong));
    let (resp, stop) = r.respond(Request::Shutdown, 0);
    assert!(matches!(resp, Response::Ack));
    assert!(stop);
}

#[test]
fn huge_completion_durations_saturate() {
    let mut r = TaskRegistry::new(5, Vec::new());
    r.respond(
        Request::RegisterTask { id: "x".to_string(), command: "c".to_string(), name: None, pid: 1 },
        0,
    );
    r.respond(
        Request::CompleteTask { id: "x".to_string(), exit_code: 1, duration_secs: u64::MAX },
        0,
    );
    assert_eq!(r.get_history(1)[0].duration, u64::MAX);
}
