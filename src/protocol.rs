//! Messages between the foreground wrapper and its local daemon.
//!
//! Instants are nanoseconds since the Unix epoch; durations are nanoseconds.
use vstd::prelude::*;

verus! {

/// Request from a client to the daemon.
pub enum Request {
    /// A task has started.
    RegisterTask { id: String, command: String, name: Option<String>, pid: u32 },
    /// A task has finished.
    CompleteTask { id: String, exit_code: i32, duration_secs: u64 },
    /// The running tasks.
    ListTasks,
    /// The last `count` completions.
    GetHistory { count: usize },
    /// Liveness check.
    Ping,
    /// Stop the daemon.
    Shutdown,
}

/// Response from the daemon to a client.
pub enum Response {
    /// Acknowledgment.
    Ack,
    Error(String),
    Tasks(Vec<TaskInfo>),
    History(Vec<HistoryEntry>),
    Pong,
}

/// A running task.
pub struct TaskInfo {
    pub id: String,
    pub command: String,
    pub name: Option<String>,
    pub pid: u32,
    /// When it started.
    pub started_at: u64,
}

/// A completed task.
pub struct HistoryEntry {
    pub command: String,
    pub name: Option<String>,
    pub exit_code: i32,
    pub duration: u64,
    /// When it completed.
    pub completed_at: u64,
    pub success: bool,
}

pub open spec fn opt_text_eq(a: Option<String>, b: Option<String>) -> bool {
    match (a, b) {
        (Some(x), Some(y)) => x == y,
        (None, None) => true,
        _ => false,
    }
}

pub fn clone_opt(o: &Option<String>) -> (r: Option<String>)
    ensures
        r == *o,
{
    match o {
        Some(s) => Some(s.clone()),
        None => None,
    }
}

impl Clone for TaskInfo {
    fn clone(&self) -> (r: Self)
        ensures
            r == *self,
    {
        TaskInfo {
            id: self.id.clone(),
            command: self.command.clone(),
            name: clone_opt(&self.name),
            pid: self.pid,
            started_at: self.started_at,
        }
    }
}

impl Clone for HistoryEntry {
    fn clone(&self) -> (r: Self)
        ensures
            r == *self,
    {
        HistoryEntry {
            command: self.command.clone(),
            name: clone_opt(&self.name),
            exit_code: self.exit_code,
            duration: self.duration,
            completed_at: self.completed_at,
            success: self.success,
        }
    }
}

impl TaskInfo {
    /// How long the task has been running at `now`; zero when `now` is not
    /// after its start.
    pub fn running_duration(&self, now: u64) -> (r: u64)
        ensures
            r == if now > self.started_at {
                (now - self.started_at) as u64
            } else {
                0
            },
    {
        if now > self.started_at {
            now - self.started_at
        } else {
            0
        }
    }
}

} // verus!
