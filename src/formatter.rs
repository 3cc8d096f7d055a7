//! Settings of the foreground wrapper and the notification it shows.
use vstd::prelude::*;
use vstd::string::*;
use crate::executor::{duration_text, format_duration, ExecutionResult};
use crate::text::{push_signed_decimal, signed_decimal};

verus! {

/// Settings of the foreground wrapper.
pub struct Config {
    pub general: GeneralConfig,
    pub notification: NotificationConfig,
    pub format: FormatConfig,
}

pub struct GeneralConfig {
    /// Only notify when the command ran at least this long (seconds).
    pub threshold_seconds: u64,
    /// Notify whatever the run time.
    pub always_notify: bool,
}

pub struct NotificationConfig {
    /// How long the notification stays, in milliseconds.
    pub timeout_ms: u32,
    /// Urgency on success: `low`, `normal` or `critical`.
    pub urgency: String,
    pub icon: String,
    pub icon_failure: String,
    /// Urgency on failure.
    pub urgency_failure: String,
}

pub struct FormatConfig {
    pub title_success: String,
    pub title_failure: String,
    /// Body template; `{command}`, `{duration}`, `{exit_code}` and `{name}`
    /// are replaced.
    pub body: String,
}

impl Default for GeneralConfig {
    fn default() -> (r: Self)
        ensures
            r.threshold_seconds == 10,
            !r.always_notify,
    {
        GeneralConfig { threshold_seconds: 10, always_notify: false }
    }
}

impl Default for NotificationConfig {
    fn default() -> (r: Self)
        ensures
            r.timeout_ms == 5000,
            r.urgency@ == "normal"@,
            r.icon@ == "dialog-information"@,
            r.icon_failure@ == "dialog-error"@,
            r.urgency_failure@ == "critical"@,
    {
        NotificationConfig {
            timeout_ms: 5000,
            urgency: "normal".to_owned(),
            icon: "dialog-information".to_owned(),
            icon_failure: "dialog-error".to_owned(),
            urgency_failure: "critical".to_owned(),
        }
    }
}

impl Default for FormatConfig {
    fn default() -> (r: Self)
        ensures
            r.title_success@ == "Task Completed"@,
            r.title_failure@ == "Task Failed"@,
            r.body@ == "Command: {command}\nDuration: {duration}\nExit code: {exit_code}"@,
    {
        FormatConfig {
            title_success: "Task Completed".to_owned(),
            title_failure: "Task Failed".to_owned(),
            body: "Command: {command}\nDuration: {duration}\nExit code: {exit_code}".to_owned(),
        }
    }
}

impl Default for Config {
    fn default() -> (r: Self)
        ensures
            r.general.threshold_seconds == 10,
            !r.general.always_notify,
            r.notification.timeout_ms == 5000,
            r.notification.urgency@ == "normal"@,
            r.notification.icon@ == "dialog-information"@,
            r.notification.icon_failure@ == "dialog-error"@,
            r.notification.urgency_failure@ == "critical"@,
            r.format.title_success@ == "Task Completed"@,
            r.format.title_failure@ == "Task Failed"@,
            r.format.body@ == "Command: {command}\nDuration: {duration}\nExit code: {exit_code}"@,
    {
        Config {
            general: GeneralConfig::default(),
            notification: NotificationConfig::default(),
            format: FormatConfig::default(),
        }
    }
}

/// `s` with every occurrence of `from`, scanning left to right without
/// overlap, replaced by `to`.
pub open spec fn replace_all(s: Seq<char>, from: Seq<char>, to: Seq<char>) -> Seq<char>
    decreases s.len(),
{
    if from.len() == 0 || s.len() < from.len() {
        s
    } else if s.subrange(0, from.len() as int) == from {
        to + replace_all(s.subrange(from.len() as int, s.len() as int), from, to)
    } else {
        seq![s[0]] + replace_all(s.drop_first(), from, to)
    }
}

/// Relies on `str::replace`: every non-overlapping occurrence of a non-empty
/// `from`, found left to right, is replaced by `to`.
#[verifier::external_body]
fn replaced(s: &str, from: &str, to: &str) -> (r: String)
    requires
        from@.len() > 0,
    ensures
        r@ == replace_all(s@, from@, to@),
{
    s.replace(from, to)
}

/// The body for `result` from `template`, with its placeholders filled in,
/// in this order: `{command}`, `{duration}`, `{exit_code}`, then `{name}`
/// with `name`, or the command when there is none.
pub open spec fn body_of(
    template: Seq<char>,
    result: ExecutionResult,
    name: Option<Seq<char>>,
) -> Seq<char> {
    let shown = match name {
        Some(n) => n,
        None => result.command@,
    };
    replace_all(
        replace_all(
            replace_all(
                replace_all(template, "{command}"@, result.command@),
                "{duration}"@,
                duration_text(result.duration),
            ),
            "{exit_code}"@,
            signed_decimal(result.exit_code as int),
        ),
        "{name}"@,
        shown,
    )
}

/// Fills in the body template for `result` (see `body_of`).
pub fn format_body(template: &str, result: &ExecutionResult, name: Option<&str>) -> (r: String)
    ensures
        r@ == body_of(
            template@,
            *result,
            match name {
                Some(n) => Some(n@),
                None => None,
            },
        ),
{
    proof {
        reveal_strlit("{command}");
        reveal_strlit("{duration}");
        reveal_strlit("{exit_code}");
        reveal_strlit("{name}");
    }
    let duration_str = format_duration(result.duration);
    let mut code = String::new();
    push_signed_decimal(&mut code, result.exit_code as i64);
    assert(code@ =~= signed_decimal(result.exit_code as int));
    let display_name: &str = match name {
        Some(n) => n,
        None => result.command.as_str(),
    };
    let a = replaced(template, "{command}", result.command.as_str());
    let b = replaced(a.as_str(), "{duration}", duration_str.as_str());
    let c = replaced(b.as_str(), "{exit_code}", code.as_str());
    replaced(c.as_str(), "{name}", display_name)
}

/// Title for a successful or failed run.
pub fn get_title(config: &Config, success: bool) -> (r: &str)
    ensures
        r@ == if success {
            config.format.title_success@
        } else {
            config.format.title_failure@
        },
{
    if success {
        config.format.title_success.as_str()
    } else {
        config.format.title_failure.as_str()
    }
}

/// Icon for a successful or failed run.
pub fn get_icon(config: &Config, success: bool) -> (r: &str)
    ensures
        r@ == if success {
            config.notification.icon@
        } else {
            config.notification.icon_failure@
        },
{
    if success {
        config.notification.icon.as_str()
    } else {
        config.notification.icon_failure.as_str()
    }
}

/// Urgency for a successful or failed run.
pub fn get_urgency(config: &Config, success: bool) -> (r: &str)
    ensures
        r@ == if success {
            config.notification.urgency@
        } else {
            config.notification.urgency_failure@
        },
{
    if success {
        config.notification.urgency.as_str()
    } else {
        config.notification.urgency_failure.as_str()
    }
}

/// Whether a finished run is worth a notification: never when quiet; always
/// when configured so; otherwise when it ran at least the threshold given on
/// the command line, else the configured one (whole seconds).
pub fn should_notify(
    config: &Config,
    result: &ExecutionResult,
    cli_threshold: Option<u64>,
    quiet: bool,
) -> (r: bool)
    ensures
        r == (!quiet && (config.general.always_notify || result.duration / 1_000_000_000 >= match cli_threshold {
            Some(t) => t,
            None => config.general.threshold_seconds,
        })),
{
    if quiet {
        return false;
    }
    if config.general.always_notify {
        return true;
    }
    let threshold = match cli_threshold {
        Some(t) => t,
        None => config.general.threshold_seconds,
    };
    result.duration / 1_000_000_000 >= threshold
}

} // verus!
