use notify_done::accounts::{
    home_for, parse_decimal_u32, session_id_for, user_config_path, username_for,
};
use notify_done::protocol::{HistoryEntry, TaskInfo};
use notify_done::registry::TaskRegistry;

const PASSWD: &str = "root:x:0:0:root:/root:/bin/bash\r\n\
broken line\n\
short:x:1000\n\
alice:x:1000:1000:Alice:/home/alice:/bin/zsh\n\
bob:x:+1001:1001::/srv/bob:/bin/sh\n";

#[test]
fn user_names_from_database() {
    assert_eq!(username_for(PASSWD, 0).as_deref(), Some("root"));
    assert_eq!(username_for(PASSWD, 1000).as_deref(), Some("short"));
    assert_eq!(username_for(PASSWD, 1001).as_deref(), Some("bob"));
    assert_eq!(username_for(PASSWD, 4242), None);
    assert_eq!(username_for("", 0), None);
}

#[test]
fn home_directories_from_database() {
    assert_eq!(home_for(PASSWD, 0).as_deref(), Some("/root"));
    assert_eq!(home_for(PASSWD, 1000).as_deref(), Some("/home/alice"));
    assert_eq!(home_for(PASSWD, 1001).as_deref(), Some("/srv/bob"));
}

#[test]
fn policy_file_paths() {
    assert_eq!(user_config_path(PASSWD, 1000), "/home/alice/.config/notify-done/config.toml");
    assert_eq!(user_config_path(PASSWD, 77), "/home/77/.config/notify-done/config.toml");
}

#[test]
fn session_listing_lookup() {
    let listing = "     2 1000 alice seat0 tty2\n c1  1001 bob\n  7 0 root\n";
    assert_eq!(session_id_for(listing, 1000).as_deref(), Some("2"));
    assert_eq!(session_id_for(listing, 1001).as_deref(), Some("c1"));
    assert_eq!(session_id_for(listing, 0).as_deref(), Some("7"));
    assert_eq!(session_id_for(listing, 5), None);
    assert_eq!(session_id_for("3 1000\n", 1000), None);
}

#[test]
fn decimal_parsing() {
    assert_eq!(parse_decimal_u32("0"), Some(0));
    assert_eq!(parse_decimal_u32("+42"), Some(42));
    assert_eq!(parse_decimal_u32("4294967295"), Some(u32::MAX));
    assert_eq!(parse_decimal_u32("4294967296"), None);
    assert_eq!(parse_decimal_u32(""), None);
    assert_eq!(parse_decimal_u32("+"), None);
    assert_eq!(parse_decimal_u32("-1"), None);
    assert_eq!(parse_decimal_u32("12a"), None);
}

fn task(id: &str, cmd: &str) -> TaskInfo {
    TaskInfo { id: id.to_string(), command: cmd.to_string(), name: None, pid: 1, started_at: 10 }
}

#[test]
fn registry_lifecycle() {
    let mut r = TaskRegistry::new(2, Vec::new());
    r.register(task("a", "make"));
    r.register(task("b", "cargo"));
    r.register(task("a", "make all"));
    let tasks = r.list_tasks();
    assert_eq!(tasks.len(), 2);
    assert_eq!(tasks[0].command, "make all");
    assert!(r.complete(&"zzz".to_string(), 0, 1, 2).is_none());
    let done = r.complete(&"a".to_string(), 3, 50, 60).unwrap();
    assert_eq!(done.command, "make all");
    assert_eq!(r.list_tasks().len(), 1);
    let h = r.get_history(10);
    assert_eq!(h.len(), 1);
    assert_eq!((h[0].exit_code, h[0].duration, h[0].completed_at, h[0].success), (3, 50, 60, false));
    assert!(r.remove(&"b".to_string()).is_some());
    assert!(r.remove(&"b".to_string()).is_none());
}

#[test]
fn registry_history_is_bounded_and_newest_first() {
    let old = HistoryEntry {
        command: "old".to_string(),
        name: None,
        exit_code: 0,
        duration: 1,
        completed_at: 1,
        success: true,
    };
    let mut r = TaskRegistry::new(2, vec![old]);
    for (i, id) in ["x", "y", "z"].iter().enumerate() {
        r.register(task(id, id));
        r.complete(&id.to_string(), 0, i as u64, 100 + i as u64).unwrap();
    }
    let names: Vec<String> = r.get_history(5).into_iter().map(|e| e.command).collect();
    assert_eq!(names, vec!["z".to_string(), "y".to_string()]);
    assert_eq!(r.get_history(1).len(), 1);
    assert_eq!(r.history().len(), 2);
}
