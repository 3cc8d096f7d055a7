//! Results of commands run in the foreground, and how long they took.
//!
//! Durations are nanoseconds.
use vstd::prelude::*;
use vstd::string::*;
use crate::text::{decimal, push_decimal, texts};

verus! {

/// Outcome of one command run in the foreground.
pub struct ExecutionResult {
    pub command: String,
    pub exit_code: i32,
    /// Run time in nanoseconds.
    pub duration: u64,
    pub success: bool,
}

/// Why a command could not be run.
#[derive(Debug, PartialEq, Eq, Structural)]
pub enum ExecError {
    /// The argument list was empty.
    NoCommand,
}

impl ExecError {
    /// Message for the user.
    pub fn message(&self) -> (r: &'static str)
        ensures
            r@ == "No command provided"@,
    {
        "No command provided"
    }
}

/// `parts` joined with single spaces.
pub open spec fn join_space(parts: Seq<Seq<char>>) -> Seq<char>
    decreases parts.len(),
{
    if parts.len() == 0 {
        Seq::empty()
    } else if parts.len() == 1 {
        parts[0]
    } else {
        join_space(parts.drop_last()) + " "@ + parts.last()
    }
}

/// The parts of a duration of `secs` (at least one) seconds: hours, minutes
/// and seconds, each only when non-zero, seconds also when nothing else is.
pub open spec fn hms_parts(secs: u64) -> Seq<Seq<char>> {
    let h = secs / 3600;
    let m = (secs % 3600) / 60;
    let s = secs % 60;
    (if h > 0 {
        seq![decimal(h as nat) + "h"@]
    } else {
        Seq::empty()
    }) + (if m > 0 {
        seq![decimal(m as nat) + "m"@]
    } else {
        Seq::empty()
    }) + (if s > 0 || (h == 0 && m == 0) {
        seq![decimal(s as nat) + "s"@]
    } else {
        Seq::empty()
    })
}

/// A duration of `nanos` nanoseconds for people: whole milliseconds under a
/// second, else its non-zero hours, minutes and seconds.
pub open spec fn duration_text(nanos: u64) -> Seq<char> {
    let secs = nanos / 1_000_000_000;
    if secs == 0 {
        decimal((nanos / 1_000_000) as nat) + "ms"@
    } else {
        join_space(hms_parts(secs))
    }
}

/// `args` joined with single spaces.
pub fn join_with_space(args: &Vec<String>) -> (r: String)
    ensures
        r@ == join_space(texts(args@)),
{
    let mut s = String::new();
    let mut k: usize = 0;
    while k < args.len()
        invariant
            k <= args@.len(),
            s@ == join_space(texts(args@).subrange(0, k as int)),
        decreases args@.len() - k,
    {
        proof {
            let sub = texts(args@).subrange(0, k + 1);
            assert(sub.drop_last() =~= texts(args@).subrange(0, k as int));
        }
        if k > 0 {
            s.append(" ");
        } else {
            assert(Seq::<char>::empty() + args@[0]@ =~= args@[0]@);
        }
        s.append(args[k].as_str());
        k = k + 1;
    }
    assert(texts(args@).subrange(0, args@.len() as int) =~= texts(args@));
    s
}

fn unit_part(n: u64, unit: &str) -> (r: String)
    ensures
        r@ == decimal(n as nat) + unit@,
{
    let mut s = String::new();
    push_decimal(&mut s, n);
    s.append(unit);
    assert(s@ =~= decimal(n as nat) + unit@);
    s
}

fn push_part(v: &mut Vec<String>, s: String)
    ensures
        texts(final(v)@) == texts(old(v)@).push(s@),
{
    v.push(s);
    assert(texts(v@) =~= texts(old(v)@).push(s@));
}

/// A duration of `duration` nanoseconds for people (see `duration_text`).
pub fn format_duration(duration: u64) -> (r: String)
    ensures
        r@ == duration_text(duration),
{
    let total_secs = duration / 1_000_000_000;
    if total_secs == 0 {
        return unit_part(duration / 1_000_000, "ms");
    }
    let hours = total_secs / 3600;
    let minutes = (total_secs % 3600) / 60;
    let seconds = total_secs % 60;
    let mut parts: Vec<String> = Vec::new();
    if hours > 0 {
        push_part(&mut parts, unit_part(hours, "h"));
    }
    if minutes > 0 {
        push_part(&mut parts, unit_part(minutes, "m"));
    }
    if seconds > 0 || parts.len() == 0 {
        push_part(&mut parts, unit_part(seconds, "s"));
    }
    assert(texts(parts@) =~= hms_parts(total_secs));
    join_with_space(&parts)
}

/// The command line of `args`, for display; an empty list is an error.
pub fn command_line(args: &Vec<String>) -> (r: Result<String, ExecError>)
    ensures
        args@.len() == 0 <==> r is Err,
        r matches Ok(s) ==> s@ == join_space(texts(args@)),
{
    if args.len() == 0 {
        return Err(ExecError::NoCommand);
    }
    Ok(join_with_space(args))
}

impl ExecutionResult {
    /// The result of running `command` for `duration` nanoseconds. `code` is
    /// its exit code, `None` when it was ended by a signal, which counts as 1.
    pub fn new(command: String, code: Option<i32>, success: bool, duration: u64) -> (r: Self)
        ensures
            r.command == command,
            r.exit_code == match code {
                Some(c) => c,
                None => 1,
            },
            r.duration == duration,
            r.success == success,
    {
        let exit_code = match code {
            Some(c) => c,
            None => 1,
        };
        ExecutionResult { command, exit_code, duration, success }
    }
}

} // verus!
