//! The notification text for a completed process, and the session-scoped
//! command that delivers it to the process's user.
use vstd::prelude::*;
use vstd::string::*;
use crate::session::{runtime_dir, SessionType, UserSession};
use crate::text::{decimal, push_decimal, push_signed_decimal, signed_decimal, texts};
use crate::tracker::CompletedProcess;

verus! {

pub open spec fn nanos_per_sec() -> u64 {
    1_000_000_000
}

/// `secs` as `Xs`, `Xm Ys` or `Xh Ym Zs`.
pub open spec fn clock_text(secs: u64) -> Seq<char> {
    if secs < 60 {
        decimal(secs as nat) + "s"@
    } else if secs < 3600 {
        decimal((secs / 60) as nat) + "m "@ + decimal((secs % 60) as nat) + "s"@
    } else {
        decimal((secs / 3600) as nat) + "h "@ + decimal(((secs % 3600) / 60) as nat) + "m "@
            + decimal((secs % 60) as nat) + "s"@
    }
}

/// Summary line of the notification for a process named `comm`.
pub open spec fn summary_text(comm: Seq<char>) -> Seq<char> {
    "Command completed: "@ + comm
}

/// Body reporting the outcome, the run time of `secs` seconds and the exit code.
pub open spec fn outcome_text(success: bool, secs: u64, exit_code: i32) -> Seq<char> {
    (if success {
        "succeeded"@
    } else {
        "failed"@
    }) + "\nDuration: "@ + clock_text(secs) + "\nExit code: "@ + signed_decimal(exit_code as int)
}

/// Body of the notification for a completed process: it succeeded when it
/// exited with code zero; run time in whole seconds.
pub open spec fn body_text(p: CompletedProcess) -> Seq<char> {
    outcome_text(p.exit_code == 0, p.duration / nanos_per_sec(), p.exit_code)
}

/// Environment assignments that reach the session of `s`.
pub open spec fn session_env(s: UserSession) -> Seq<Seq<char>> {
    let base = seq![
        "XDG_RUNTIME_DIR="@ + runtime_dir(s.uid),
        "DBUS_SESSION_BUS_ADDRESS="@ + s.dbus_address@,
    ];
    let with_display = match s.display {
        Some(d) => base.push("DISPLAY="@ + d@),
        None => base,
    };
    if s.session_type == SessionType::Wayland {
        with_display.push("WAYLAND_DISPLAY="@ + runtime_dir(s.uid) + "/wayland-0"@)
    } else {
        with_display
    }
}

/// `--setenv` before each assignment of `env`.
pub open spec fn setenv_args(env: Seq<Seq<char>>) -> Seq<Seq<char>>
    decreases env.len(),
{
    if env.len() == 0 {
        Seq::empty()
    } else {
        setenv_args(env.drop_last()) + seq!["--setenv"@, env.last()]
    }
}

/// Arguments of the session-scoped runner that shows `summary` and `body`
/// in the session of `s`.
pub open spec fn runner_args(s: UserSession, summary: Seq<char>, body: Seq<char>) -> Seq<
    Seq<char>,
> {
    seq![
        "--user"@,
        "--machine"@,
        s.username@ + "@.host"@,
        "--quiet"@,
        "--pipe"@,
        "--wait"@,
        "--collect"@,
    ] + setenv_args(session_env(s)) + seq![
        "notify-send"@,
        "--app-name=notify-done"@,
        summary,
        body,
    ]
}

/// `secs` as `Xs`, `Xm Ys` or `Xh Ym Zs`.
pub fn format_duration(secs: u64) -> (r: String)
    ensures
        r@ == clock_text(secs),
{
    let mut s = String::new();
    if secs < 60 {
        push_decimal(&mut s, secs);
    } else if secs < 3600 {
        push_decimal(&mut s, secs / 60);
        s.append("m ");
        push_decimal(&mut s, secs % 60);
    } else {
        push_decimal(&mut s, secs / 3600);
        s.append("h ");
        push_decimal(&mut s, (secs % 3600) / 60);
        s.append("m ");
        push_decimal(&mut s, secs % 60);
    }
    s.append("s");
    assert(s@ =~= clock_text(secs));
    s
}

fn push_arg(v: &mut Vec<String>, s: String)
    ensures
        texts(final(v)@) == texts(old(v)@).push(s@),
{
    v.push(s);
    assert(texts(v@) =~= texts(old(v)@).push(s@));
}

fn joined(a: &str, b: &str) -> (r: String)
    ensures
        r@ == a@ + b@,
{
    let mut s = a.to_owned();
    s.append(b);
    s
}

/// Summary line for a completed command named `name`.
pub fn summary_for(name: &str) -> (r: String)
    ensures
        r@ == summary_text(name@),
{
    joined("Command completed: ", name)
}

/// Body reporting a run's outcome, its `secs` seconds and its exit code.
pub fn completion_body(success: bool, secs: u64, exit_code: i32) -> (r: String)
    ensures
        r@ == outcome_text(success, secs, exit_code),
{
    let mut s = if success {
        "succeeded".to_owned()
    } else {
        "failed".to_owned()
    };
    s.append("\nDuration: ");
    let d = format_duration(secs);
    s.append(d.as_str());
    s.append("\nExit code: ");
    push_signed_decimal(&mut s, exit_code as i64);
    s
}

/// Delivers notifications into user sessions.
pub struct Notifier;

impl Notifier {
    pub fn new() -> (r: Self) {
        Notifier
    }

    /// Summary line for a completed process.
    pub fn summary(&self, process: &CompletedProcess) -> (r: String)
        ensures
            r@ == summary_text(process.comm@),
    {
        summary_for(process.comm.as_str())
    }

    /// Body of the notification for a completed process.
    pub fn format_body(&self, process: &CompletedProcess) -> (r: String)
        ensures
            r@ == body_text(*process),
    {
        completion_body(process.exit_code == 0, process.duration / 1_000_000_000, process.exit_code)
    }

    /// The program that runs a command inside a user's session scope.
    pub fn runner(&self) -> (r: &'static str)
        ensures
            r@ == "systemd-run"@,
    {
        "systemd-run"
    }

    /// Arguments for the runner that show `summary` and `body` in `session`.
    pub fn command_args(&self, session: &UserSession, summary: &str, body: &str) -> (r: Vec<String>)
        ensures
            texts(r@) == runner_args(*session, summary@, body@),
    {
        let mut runtime = "/run/user/".to_owned();
        push_decimal(&mut runtime, session.uid as u64);
        let mut env: Vec<String> = Vec::new();
        push_arg(&mut env, joined("XDG_RUNTIME_DIR=", runtime.as_str()));
        push_arg(&mut env, joined("DBUS_SESSION_BUS_ADDRESS=", session.dbus_address.as_str()));
        if let Some(d) = &session.display {
            push_arg(&mut env, joined("DISPLAY=", d.as_str()));
        }
        if session.session_type == SessionType::Wayland {
            let mut w = joined("WAYLAND_DISPLAY=", runtime.as_str());
            w.append("/wayland-0");
            push_arg(&mut env, w);
        }
        assert(texts(env@) =~= session_env(*session));
        let mut args: Vec<String> = Vec::new();
        push_arg(&mut args, "--user".to_owned());
        push_arg(&mut args, "--machine".to_owned());
        push_arg(&mut args, joined(session.username.as_str(), "@.host"));
        push_arg(&mut args, "--quiet".to_owned());
        push_arg(&mut args, "--pipe".to_owned());
        push_arg(&mut args, "--wait".to_owned());
        push_arg(&mut args, "--collect".to_owned());
        let ghost head = texts(args@);
        let mut k: usize = 0;
        while k < env.len()
            invariant
                k <= env@.len(),
                texts(args@) == head + setenv_args(texts(env@).subrange(0, k as int)),
            decreases env@.len() - k,
        {
            push_arg(&mut args, "--setenv".to_owned());
            push_arg(&mut args, env[k].clone());
            proof {
                let sub = texts(env@).subrange(0, k + 1);
                assert(sub.drop_last() =~= texts(env@).subrange(0, k as int));
            }
            k = k + 1;
            assert(texts(args@) =~= head + setenv_args(texts(env@).subrange(0, k as int)));
        }
        assert(texts(env@).subrange(0, env@.len() as int) =~= texts(env@));
        push_arg(&mut args, "notify-send".to_owned());
        push_arg(&mut args, "--app-name=notify-done".to_owned());
        push_arg(&mut args, summary.to_owned());
        push_arg(&mut args, body.to_owned());
        assert(texts(args@) =~= runner_args(*session, summary@, body@));
        args
    }
}

impl Default for Notifier {
    fn default() -> (r: Self) {
        Notifier::new()
    }
}

} // verus!
