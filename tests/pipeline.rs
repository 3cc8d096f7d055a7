use notify_done::notifier::{format_duration, Notifier};
use notify_done::policy::{
    matches_pattern, default_ignore_patterns, DaemonConfig, EffectiveConfig, UserConfig,
};
use notify_done::probe::{exec_record_bytes, exit_record_bytes};
use notify_done::processor::{EventProcessor, RecordOutcome};
use notify_done::record::{EventType, ProcessExecEvent, ProcessExitEvent};
use notify_done::session::{session_type_from_property, SessionDiscovery, SessionType, UserSession};
use notify_done::tracker::{CompletedProcess, ProcessTracker};

const SEC: u64 = 1_000_000_000;

fn comm(name: &str) -> [u8; 16] {
    let mut c = [0u8; 16];
    c[..name.len()].copy_from_slice(name.as_bytes());
    c
}

/// An exec record written byte by byte at its fixed offsets.
fn exec_bytes(pid: u32, tgid: u32, uid: u32, ts: u64, name: &str) -> Vec<u8> {
    let mut b = vec![0u8; 304];
    b[0] = 1;
    b[4..8].copy_from_slice(&pid.to_le_bytes());
    b[8..12].copy_from_slice(&tgid.to_le_bytes());
    b[12..16].copy_from_slice(&7u32.to_le_bytes());
    b[16..20].copy_from_slice(&uid.to_le_bytes());
    b[24..32].copy_from_slice(&ts.to_le_bytes());
    b[32..32 + name.len()].copy_from_slice(name.as_bytes());
    b[48..52].copy_from_slice(b"/bin");
    b
}

/// An exit record written byte by byte at its fixed offsets.
fn exit_bytes(pid: u32, tgid: u32, uid: u32, code: i32, ts: u64, name: &str) -> Vec<u8> {
    let mut b = vec![0u8; 48];
    b[0] = 2;
    b[4..8].copy_from_slice(&pid.to_le_bytes());
    b[8..12].copy_from_slice(&tgid.to_le_bytes());
    b[12..16].copy_from_slice(&uid.to_le_bytes());
    b[16..20].copy_from_slice(&code.to_le_bytes());
    b[24..32].copy_from_slice(&ts.to_le_bytes());
    b[32..32 + name.len()].copy_from_slice(name.as_bytes());
    b
}

fn exec_event(tgid: u32, uid: u32, ts: u64, name: &str) -> ProcessExecEvent {
    ProcessExecEvent::from_bytes(&exec_bytes(tgid, tgid, uid, ts, name)).unwrap()
}

fn exit_event(tgid: u32, code: i32, ts: u64) -> ProcessExitEvent {
    ProcessExitEvent::from_bytes(&exit_bytes(tgid, tgid, 1000, code, ts, "")).unwrap()
}

fn run(p: &mut EventProcessor, exec: Vec<u8>, exit: Vec<u8>) -> CompletedProcess {
    assert!(matches!(p.handle_record(&exec, 0), RecordOutcome::Started));
    match p.handle_record(&exit, 0) {
        RecordOutcome::Completed(c) => c,
        _ => panic!("exit did not pair"),
    }
}

fn user(disabled: bool, always: &[&str], threshold: Option<u64>) -> UserConfig {
    UserConfig {
        threshold_seconds: threshold,
        ignore_patterns: Vec::new(),
        always_notify: always.iter().map(|s| s.to_string()).collect(),
        disabled,
    }
}

#[test]
fn record_layout_decodes_at_fixed_offsets() {
    let e = ProcessExecEvent::from_bytes(&exec_bytes(11, 22, 1001, 0x0102_0304_0506_0708, "make"))
        .unwrap();
    assert_eq!(e.event_type, 1);
    assert_eq!((e.pid, e.tgid, e.ppid, e.uid), (11, 22, 7, 1001));
    assert_eq!(e.timestamp_ns, 0x0102_0304_0506_0708);
    assert_eq!(e.comm_str(), "make");
    assert_eq!(e.filename_str(), "/bin");
    let x = ProcessExitEvent::from_bytes(&exit_bytes(11, 22, 1001, -9, 99, "make")).unwrap();
    assert_eq!(x.event_type, 2);
    assert_eq!((x.pid, x.tgid, x.uid, x.exit_code, x.timestamp_ns), (11, 22, 1001, -9, 99));
    assert_eq!(x.comm_str(), "make");
}

#[test]
fn short_records_do_not_decode() {
    assert!(ProcessExecEvent::from_bytes(&vec![1u8; 303]).is_none());
    assert!(ProcessExitEvent::from_bytes(&vec![2u8; 47]).is_none());
}

#[test]
fn full_width_and_invalid_names() {
    let e = exec_event(1, 1000, 0, "abcdefghijklmnop");
    assert_eq!(e.comm_str(), "abcdefghijklmnop");
    let mut b = exec_bytes(1, 1, 1000, 0, "");
    b[32] = 0xff;
    b[33] = b'x';
    let e = ProcessExecEvent::from_bytes(&b).unwrap();
    assert_eq!(e.comm_str(), "<invalid>");
}

#[test]
fn event_type_tags() {
    assert_eq!(EventType::Exec.tag(), 1);
    assert_eq!(EventType::Exit.tag(), 2);
    assert_eq!(EventType::from_tag(2), Some(EventType::Exit));
    assert_eq!(EventType::from_tag(3), None);
}

#[test]
fn probe_filters_system_users() {
    let pid_tgid = (42u64 << 32) | 43;
    assert!(exec_record_bytes(999, pid_tgid, 5, Some(comm("ls"))).is_none());
    assert!(exit_record_bytes(0, pid_tgid, 0, 5, None).is_none());
}

#[test]
fn probe_records_decode_back() {
    let pid_tgid = (42u64 << 32) | 43;
    let uid_gid = (100u64 << 32) | 1000;
    let b = exec_record_bytes(uid_gid, pid_tgid, 123_456, Some(comm("cargo"))).unwrap();
    assert_eq!(b.len(), 304);
    let e = ProcessExecEvent::from_bytes(&b).unwrap();
    assert_eq!((e.event_type, e.pid, e.tgid, e.ppid, e.uid), (1, 43, 42, 0, 1000));
    assert_eq!(e.timestamp_ns, 123_456);
    assert_eq!(e.comm_str(), "cargo");
    assert_eq!(e.filename_str(), "");
    let b = exit_record_bytes(uid_gid, pid_tgid, -1, 777, None).unwrap();
    assert_eq!(b.len(), 48);
    let x = ProcessExitEvent::from_bytes(&b).unwrap();
    assert_eq!((x.event_type, x.pid, x.tgid, x.uid, x.exit_code), (2, 43, 42, 1000, -1));
    assert_eq!(x.timestamp_ns, 777);
    assert_eq!(x.comm_str(), "");
}

#[test]
fn pairing_carries_exec_identity() {
    let mut t = ProcessTracker::new(10);
    t.on_exec(&exec_event(100, 1000, 5 * SEC, "make"), 1);
    let c = t.on_exit(&exit_event(100, 3, 8 * SEC), 2).unwrap();
    assert_eq!((c.uid, c.tgid, c.exit_code), (1000, 100, 3));
    assert_eq!(c.comm, "make");
    assert_eq!(c.duration, 3 * SEC);
    assert_eq!(t.active_count(), 0);
}

#[test]
fn orphan_exit_is_dropped() {
    let mut t = ProcessTracker::new(10);
    t.on_exec(&exec_event(1, 1000, 0, "a"), 0);
    assert!(t.on_exit(&exit_event(2, 0, 5), 9).is_none());
    assert_eq!(t.active_count(), 1);
    assert!(t.history().is_empty());
}

#[test]
fn rebind_keeps_one_entry_timed_from_second_exec() {
    let mut t = ProcessTracker::new(10);
    t.on_exec(&exec_event(7, 1000, 1 * SEC, "sh"), 0);
    t.on_exec(&exec_event(7, 1000, 4 * SEC, "cargo"), 0);
    assert_eq!(t.active_count(), 1);
    assert_eq!(t.active_processes()[0].comm, "cargo");
    let c = t.on_exit(&exit_event(7, 0, 10 * SEC), 0).unwrap();
    assert_eq!(c.comm, "cargo");
    assert_eq!(c.duration, 6 * SEC);
}

#[test]
fn duration_falls_back_to_wall_clock() {
    let mut t = ProcessTracker::new(10);
    t.on_exec(&exec_event(5, 1000, 50, "x"), 1_000);
    let c = t.on_exit(&exit_event(5, 0, 50), 4_500).unwrap();
    assert_eq!(c.duration, 3_500);
    t.on_exec(&exec_event(6, 1000, 50, "y"), 9_000);
    let c = t.on_exit(&exit_event(6, 0, 10), 8_000).unwrap();
    assert_eq!(c.duration, 0);
}

#[test]
fn history_keeps_most_recent_in_order() {
    let mut t = ProcessTracker::new(3);
    for i in 0..5u32 {
        t.on_exec(&exec_event(i, 1000, 0, "p"), 0);
        t.on_exit(&exit_event(i, i as i32, 1), 0).unwrap();
    }
    let tg: Vec<u32> = t.history().iter().map(|c| c.tgid).collect();
    assert_eq!(tg, vec![2, 3, 4]);
    let mut t = ProcessTracker::new(0);
    t.on_exec(&exec_event(1, 1000, 0, "p"), 0);
    t.on_exit(&exit_event(1, 0, 1), 0).unwrap();
    assert!(t.history().is_empty());
}

#[test]
fn stale_sweep_drops_old_entries_only() {
    let mut t = ProcessTracker::new(10);
    t.on_exec(&exec_event(1, 1000, 0, "old"), 0);
    t.on_exec(&exec_event(2, 1000, 0, "new"), 900);
    t.on_exec(&exec_event(3, 1000, 0, "done"), 0);
    t.on_exit(&exit_event(3, 0, 1), 0).unwrap();
    t.cleanup_stale(500, 1_000);
    assert_eq!(t.active_count(), 1);
    assert_eq!(t.active_processes()[0].tgid, 2);
    assert_eq!(t.history().len(), 1);
}

#[test]
fn pattern_semantics() {
    assert!(matches_pattern("npm*", "npm"));
    assert!(matches_pattern("npm*", "npm-run"));
    assert!(!matches_pattern("npm*", "yarn"));
    assert!(matches_pattern("*test", "unittest"));
    assert!(matches_pattern("a*b*", "a*b*"));
    assert!(!matches_pattern("a*b*", "axb"));
    assert!(matches_pattern("ls", "ls"));
    assert!(!matches_pattern("ls", "lsx"));
}

#[test]
fn system_ignore_list() {
    let d = DaemonConfig::default();
    assert_eq!(d.min_uid, 1000);
    assert_eq!(d.threshold_seconds, 10);
    assert_eq!(default_ignore_patterns().len(), 25);
    assert!(d.should_ignore("ls"));
    assert!(d.should_ignore("["));
    assert!(!d.should_ignore("make"));
    assert_eq!(DaemonConfig::system_config_path(), "/etc/notify-done/config.toml");
}

#[test]
fn decision_rules() {
    let d = DaemonConfig::default();
    let none = EffectiveConfig::new(&d, None);
    assert!(!none.should_notify("ls", 100));
    assert!(!none.should_notify("make", 9));
    assert!(none.should_notify("make", 10));
    let off = user(true, &["make"], Some(1));
    assert!(!EffectiveConfig::new(&d, Some(&off)).should_notify("make", 100));
    let always = user(false, &["l*"], Some(1));
    let e = EffectiveConfig::new(&d, Some(&always));
    assert!(e.should_notify("ls", 1));
    assert!(!e.should_notify("ls", 0));
    let mut extra = user(false, &[], None);
    extra.ignore_patterns.push("make".to_string());
    let e = EffectiveConfig::new(&d, Some(&extra));
    assert_eq!(e.threshold_seconds, 10);
    assert!(!e.should_notify("make", 100));
    assert_eq!(e.ignore_set.len(), 26);
}

#[test]
fn daemon_duration_text() {
    assert_eq!(format_duration(0), "0s");
    assert_eq!(format_duration(59), "59s");
    assert_eq!(format_duration(60), "1m 0s");
    assert_eq!(format_duration(3600), "1h 0m 0s");
    assert_eq!(format_duration(3725), "1h 2m 5s");
}

fn session(kind: SessionType, display: Option<&str>) -> UserSession {
    UserSession {
        uid: 1000,
        username: "alice".to_string(),
        display: display.map(|s| s.to_string()),
        dbus_address: "unix:path=/run/user/1000/bus".to_string(),
        session_type: kind,
    }
}

#[test]
fn runner_arguments() {
    let n = Notifier::new();
    assert_eq!(n.runner(), "systemd-run");
    let args = n.command_args(&session(SessionType::Wayland, None), "S", "B");
    let expect: Vec<&str> = vec![
        "--user", "--machine", "alice@.host", "--quiet", "--pipe", "--wait", "--collect",
        "--setenv", "XDG_RUNTIME_DIR=/run/user/1000",
        "--setenv", "DBUS_SESSION_BUS_ADDRESS=unix:path=/run/user/1000/bus",
        "--setenv", "WAYLAND_DISPLAY=/run/user/1000/wayland-0",
        "notify-send", "--app-name=notify-done", "S", "B",
    ];
    assert_eq!(args, expect);
    let args = n.command_args(&session(SessionType::X11, Some(":0")), "S", "B");
    assert!(args.contains(&"DISPLAY=:0".to_string()));
    assert!(!args.iter().any(|a| a.starts_with("WAYLAND_DISPLAY")));
}

#[test]
fn session_discovery_caches() {
    let mut s = SessionDiscovery::new();
    assert!(s.get_session(1000, None, SessionType::X11).is_none());
    let a = s.get_session(1000, Some("alice".to_string()), SessionType::X11).unwrap();
    assert_eq!(a.username, "alice");
    assert_eq!(a.dbus_address, "unix:path=/run/user/1000/bus");
    assert_eq!(a.display.as_deref(), Some(":0"));
    assert!(s.has_session(1000));
    let b = s.get_session(1000, Some("bob".to_string()), SessionType::Wayland).unwrap();
    assert_eq!(b.username, "alice");
    assert_eq!(b.session_type, SessionType::X11);
    s.clear_cache();
    assert!(!s.has_session(1000));
    assert_eq!(s.cached_username(1000).map(|n| n.as_str()), Some("alice"));
    let c = s.get_session(1000, None, SessionType::Wayland).unwrap();
    assert_eq!(c.display, None);
}

#[test]
fn session_kind_from_property() {
    assert_eq!(session_type_from_property("Type=x11\n"), SessionType::X11);
    assert_eq!(session_type_from_property("Type=wayland\n"), SessionType::Wayland);
    assert_eq!(session_type_from_property("Type=tty\n"), SessionType::Unknown);
}

#[test]
fn short_command_is_ignored() {
    let mut p = EventProcessor::new(DaemonConfig::default());
    let c = run(
        &mut p,
        exec_bytes(100, 100, 1000, 0, "ls"),
        exit_bytes(100, 100, 1000, 0, SEC / 2, "ls"),
    );
    assert!(!p.wants_notification(&c, None));
    assert_eq!(p.tracker().history().len(), 1);
    assert_eq!(p.tracker().history()[0].duration, SEC / 2);
}

fn body_of(args: &[String]) -> (&str, &str) {
    let n = args.len();
    (args[n - 2].as_str(), args[n - 1].as_str())
}

#[test]
fn long_command_notifies() {
    let mut p = EventProcessor::new(DaemonConfig::default());
    let c = run(
        &mut p,
        exec_bytes(101, 101, 1000, 0, "make"),
        exit_bytes(101, 101, 1000, 0, 12 * SEC, "make"),
    );
    assert!(p.wants_notification(&c, None));
    let (_, args) = p.delivery_for(&c, Some("alice".to_string()), SessionType::X11).unwrap();
    let (summary, body) = body_of(&args);
    assert_eq!(summary, "Command completed: make");
    assert!(body.contains("succeeded"));
    assert!(body.contains("Duration: 12s"));
    assert!(body.contains("Exit code: 0"));
}

#[test]
fn failed_long_command() {
    let mut p = EventProcessor::new(DaemonConfig::default());
    let c = run(
        &mut p,
        exec_bytes(102, 102, 1000, 0, "cargo"),
        exit_bytes(102, 102, 1000, 101, 30 * SEC, "cargo"),
    );
    assert!(p.wants_notification(&c, None));
    let body = Notifier::new().format_body(&c);
    assert!(body.contains("failed"));
    assert!(body.contains("Duration: 30s"));
    assert!(body.contains("Exit code: 101"));
    assert_eq!(body, "failed\nDuration: 30s\nExit code: 101");
}

#[test]
fn user_disables() {
    let mut p = EventProcessor::new(DaemonConfig::default());
    let c = run(
        &mut p,
        exec_bytes(103, 103, 1000, 0, "make"),
        exit_bytes(103, 103, 1000, 0, 60 * SEC, "make"),
    );
    assert!(!p.wants_notification(&c, Some(user(true, &[], None))));
    assert_eq!(p.tracker().history().len(), 1);
    assert!(p.has_user_config(1000));
}

#[test]
fn always_notify_overrides_default_ignore() {
    let mut p = EventProcessor::new(DaemonConfig::default());
    let c = run(
        &mut p,
        exec_bytes(104, 104, 1000, 0, "ls"),
        exit_bytes(104, 104, 1000, 0, 2 * SEC, "ls"),
    );
    assert!(p.wants_notification(&c, Some(user(false, &["ls"], Some(1)))));
    assert!(p.delivery_for(&c, Some("alice".to_string()), SessionType::Wayland).is_some());
}

#[test]
fn filtered_uid_is_still_tracked() {
    let mut p = EventProcessor::new(DaemonConfig::default());
    assert!(matches!(
        p.handle_record(&exec_bytes(105, 105, 0, 0, "cron"), 0),
        RecordOutcome::Started
    ));
    assert_eq!(p.tracker().active_count(), 1);
}

#[test]
fn record_dispatch_edges() {
    let mut p = EventProcessor::new(DaemonConfig::default());
    assert!(matches!(p.handle_record(&[], 0), RecordOutcome::Skipped));
    assert!(matches!(p.handle_record(&[9u8, 0, 0], 0), RecordOutcome::Unknown(9)));
    assert!(matches!(p.handle_record(&[0u8], 0), RecordOutcome::Unknown(0)));
    assert_eq!(p.unknown_count(), 2);
    assert!(matches!(p.handle_record(&[1u8; 10], 0), RecordOutcome::Skipped));
    assert!(matches!(
        p.handle_record(&exit_bytes(1, 1, 1000, 0, 5, "x"), 0),
        RecordOutcome::Orphan
    ));
    assert_eq!(p.unknown_count(), 2);
}

#[test]
fn cached_user_policy_is_reused_until_cleanup() {
    let mut p = EventProcessor::new(DaemonConfig::default());
    let c = run(
        &mut p,
        exec_bytes(106, 106, 1000, 0, "make"),
        exit_bytes(106, 106, 1000, 0, 60 * SEC, "make"),
    );
    assert!(!p.wants_notification(&c, Some(user(true, &[], None))));
    assert!(!p.wants_notification(&c, None));
    p.cleanup(0);
    assert!(!p.has_user_config(1000));
    assert!(p.wants_notification(&c, None));
}

#[test]
fn cleanup_sweeps_day_old_entries() {
    let mut p = EventProcessor::new(DaemonConfig::default());
    p.handle_record(&exec_bytes(1, 1, 1000, 0, "a"), 0);
    p.handle_record(&exec_bytes(2, 2, 1000, 0, "b"), 86_400 * SEC);
    p.cleanup(86_400 * SEC + 1);
    assert_eq!(p.tracker().active_count(), 1);
}
