//! The local daemon's table of running tasks and its bounded history.
use vstd::prelude::*;
use crate::protocol::{clone_opt, HistoryEntry, Request, Response, TaskInfo};

verus! {

/// Running tasks with distinct ids, and completions oldest first.
pub struct TaskRegistry {
    tasks: Vec<TaskInfo>,
    history: Vec<HistoryEntry>,
    max_history: usize,
}

/// History after appending `e` and dropping the oldest entries beyond `cap`.
pub open spec fn trimmed_push(h: Seq<HistoryEntry>, e: HistoryEntry, cap: nat) -> Seq<HistoryEntry> {
    let all = h.push(e);
    if all.len() > cap {
        all.subrange(all.len() - cap, all.len() as int)
    } else {
        all
    }
}

/// `secs` in nanoseconds, or the largest value when that does not fit.
pub open spec fn secs_to_nanos(secs: u64) -> u64 {
    if secs > 18_446_744_073 {
        u64::MAX
    } else {
        (secs * 1_000_000_000) as u64
    }
}

/// The last `count` entries of `h`, newest first.
pub open spec fn newest(h: Seq<HistoryEntry>, count: nat) -> Seq<HistoryEntry> {
    let n = if count < h.len() {
        count
    } else {
        h.len()
    };
    Seq::new(n, |i: int| h[h.len() - 1 - i])
}

pub open spec fn ids_distinct(t: Seq<TaskInfo>) -> bool {
    forall|i: int, j: int| 0 <= i < j < t.len() ==> t[i].id@ != t[j].id@
}

pub open spec fn has_id(t: Seq<TaskInfo>, id: Seq<char>) -> bool {
    exists|i: int| 0 <= i < t.len() && t[i].id@ == id
}

/// The entry recorded for `task` ending with `exit_code` after `duration`, at `now`.
pub open spec fn entry_for(
    e: HistoryEntry,
    task: TaskInfo,
    exit_code: i32,
    duration: u64,
    now: u64,
) -> bool {
    &&& e.command == task.command
    &&& e.name == task.name
    &&& e.exit_code == exit_code
    &&& e.duration == duration
    &&& e.completed_at == now
    &&& e.success == (exit_code == 0)
}

impl TaskRegistry {
    pub closed spec fn running(&self) -> Seq<TaskInfo> {
        self.tasks@
    }

    pub closed spec fn past(&self) -> Seq<HistoryEntry> {
        self.history@
    }

    pub closed spec fn cap(&self) -> nat {
        self.max_history as nat
    }

    pub open spec fn wf(&self) -> bool {
        ids_distinct(self.running())
    }

    /// An empty registry over history loaded earlier, keeping at most
    /// `max_history` completions.
    pub fn new(max_history: usize, history: Vec<HistoryEntry>) -> (r: Self)
        ensures
            r.wf(),
            r.running().len() == 0,
            r.past() == history@,
            r.cap() == max_history,
    {
        TaskRegistry { tasks: Vec::new(), history, max_history }
    }

    fn position(&self, id: &String) -> (r: Option<usize>)
        ensures
            r matches Some(i) ==> i < self.running().len() && self.running()[i as int].id@ == id@,
            r is None ==> !has_id(self.running(), id@),
    {
        let mut i: usize = 0;
        while i < self.tasks.len()
            invariant
                i <= self.tasks@.len(),
                forall|j: int| 0 <= j < i ==> self.tasks@[j].id@ != id@,
            decreases self.tasks@.len() - i,
        {
            if self.tasks[i].id == *id {
                return Some(i);
            }
            i = i + 1;
        }
        None
    }

    /// The effect of registering `info`: it is the one task with its id, the
    /// tasks with other ids stay, and the history is untouched.
    pub open spec fn register_step(self, next: Self, info: TaskInfo) -> bool {
        &&& has_id(next.running(), info.id@)
        &&& forall|i: int|
            0 <= i < next.running().len() && next.running()[i].id@ == info.id@ ==> next.running()[i]
                == info
        &&& forall|t: TaskInfo|
            t.id@ != info.id@ ==> (next.running().contains(t) <==> self.running().contains(t))
        &&& next.past() == self.past()
        &&& next.cap() == self.cap()
    }

    /// The effect of completing task `id` with `exit_code` after `duration`
    /// at `now`, which returned `r`.
    pub open spec fn complete_step(
        self,
        next: Self,
        id: Seq<char>,
        exit_code: i32,
        duration: u64,
        now: u64,
        r: Option<TaskInfo>,
    ) -> bool {
        &&& next.cap() == self.cap()
        &&& (r is Some <==> has_id(self.running(), id))
        &&& r is None ==> next.running() == self.running() && next.past() == self.past()
        &&& r matches Some(task) ==> {
            &&& task.id@ == id
            &&& self.running().contains(task)
            &&& !has_id(next.running(), id)
            &&& forall|t: TaskInfo|
                t.id@ != id ==> (next.running().contains(t) <==> self.running().contains(t))
            &&& exists|e: HistoryEntry|
                entry_for(e, task, exit_code, duration, now) && next.past() == trimmed_push(
                    self.past(),
                    e,
                    self.cap(),
                )
        }
    }

    /// Records a started task, replacing one with the same id.
    pub fn register(&mut self, info: TaskInfo)
        requires
            old(self).wf(),
        ensures
            final(self).wf(),
            old(self).register_step(*final(self), info),
    {
        let ghost id = info.id@;
        match self.position(&info.id) {
            Some(i) => {
                self.tasks.set(i, info);
                proof {
                    assert(self.tasks@[i as int].id@ == id);
                    assert forall|a: int, b: int| 0 <= a < b < self.tasks@.len() implies self.tasks@[a].id@
                        != self.tasks@[b].id@ by {
                        if a != i && b != i {
                            assert(self.tasks@[a] == old(self).tasks@[a]);
                            assert(self.tasks@[b] == old(self).tasks@[b]);
                        } else if a == i {
                            assert(self.tasks@[b] == old(self).tasks@[b]);
                            assert(old(self).tasks@[a].id@ == id);
                        } else {
                            assert(self.tasks@[a] == old(self).tasks@[a]);
                            assert(old(self).tasks@[b].id@ == id);
                        }
                    }
                    assert forall|t: TaskInfo| t.id@ != id implies (self.tasks@.contains(t)
                        <==> old(self).tasks@.contains(t)) by {
                        if self.tasks@.contains(t) {
                            let k = choose|k: int| 0 <= k < self.tasks@.len() && self.tasks@[k] == t;
                            assert(old(self).tasks@[k] == t);
                        }
                        if old(self).tasks@.contains(t) {
                            let k = choose|k: int| 0 <= k < old(self).tasks@.len() && old(self).tasks@[k] == t;
                            assert(self.tasks@[k] == t);
                        }
                    }
                }
            },
            None => {
                self.tasks.push(info);
                proof {
                    let n = old(self).tasks@.len();
                    assert(self.tasks@[n as int].id@ == id);
                    assert forall|t: TaskInfo| t.id@ != id implies (self.tasks@.contains(t)
                        <==> old(self).tasks@.contains(t)) by {
                        if self.tasks@.contains(t) {
                            let k = choose|k: int| 0 <= k < self.tasks@.len() && self.tasks@[k] == t;
                            assert(k < n);
                            assert(old(self).tasks@[k] == t);
                        }
                        if old(self).tasks@.contains(t) {
                            let k = choose|k: int| 0 <= k < old(self).tasks@.len() && old(self).tasks@[k] == t;
                            assert(self.tasks@[k] == t);
                        }
                    }
                }
            },
        }
    }

    /// Moves task `id` to the history with its outcome, at `now`; the task,
    /// or `None` when no task has that id.
    pub fn complete(&mut self, id: &String, exit_code: i32, duration: u64, now: u64) -> (r: Option<TaskInfo>)
        requires
            old(self).wf(),
        ensures
            final(self).wf(),
            old(self).complete_step(*final(self), id@, exit_code, duration, now, r),
    {
        let i = match self.position(id) {
            Some(i) => i,
            None => return None,
        };
        let task = self.tasks.remove(i);
        proof {
            let o = old(self).tasks@;
            assert(o[i as int] == task);
            assert forall|a: int, b: int| 0 <= a < b < self.tasks@.len() implies self.tasks@[a].id@
                != self.tasks@[b].id@ by {
                let a0 = if a < i { a } else { a + 1 };
                let b0 = if b < i { b } else { b + 1 };
                assert(self.tasks@[a] == o[a0]);
                assert(self.tasks@[b] == o[b0]);
            }
            assert forall|j: int| 0 <= j < self.tasks@.len() implies self.tasks@[j].id@ != id@ by {
                if j < i {
                    assert(self.tasks@[j] == o[j]);
                } else {
                    assert(self.tasks@[j] == o[j + 1]);
                }
            }
            assert forall|t: TaskInfo| t.id@ != id@ implies (self.tasks@.contains(t) <==> o.contains(t)) by {
                if self.tasks@.contains(t) {
                    let k = choose|k: int| 0 <= k < self.tasks@.len() && self.tasks@[k] == t;
                    if k < i {
                        assert(o[k] == t);
                    } else {
                        assert(o[k + 1] == t);
                    }
                }
                if o.contains(t) {
                    let k = choose|k: int| 0 <= k < o.len() && o[k] == t;
                    assert(k != i);
                    if k < i {
                        assert(self.tasks@[k] == t);
                    } else {
                        assert(self.tasks@[k - 1] == t);
                    }
                }
            }
        }
        let entry = HistoryEntry {
            command: task.command.clone(),
            name: clone_opt(&task.name),
            exit_code,
            duration,
            completed_at: now,
            success: exit_code == 0,
        };
        let ghost e = entry;
        let ghost before = self.history@;
        self.history.push(entry);
        let ghost all = self.history@;
        let ghost tasks_now = self.tasks@;
        while self.history.len() > self.max_history
            invariant
                self.tasks@ == tasks_now,
                self.max_history == old(self).max_history,
                all == before.push(e),
                self.history@.len() <= all.len(),
                self.history@ == all.subrange(all.len() - self.history@.len(), all.len() as int),
                all.len() > self.max_history ==> self.history@.len() >= self.max_history,
                all.len() <= self.max_history ==> self.history@ == all,
            decreases self.history@.len(),
        {
            self.history.remove(0);
            assert(self.history@ =~= all.subrange(all.len() - self.history@.len(), all.len() as int));
        }
        proof {
            if all.len() > self.max_history {
                assert(self.history@ =~= all.subrange(all.len() - self.max_history, all.len() as int));
            } else {
                assert(self.history@ =~= all);
            }
            assert(old(self).tasks@[i as int] == task);
            assert(old(self).tasks@.contains(task));
            assert(entry_for(e, task, exit_code, duration, now));
            assert(self.history@ == trimmed_push(before, e, self.max_history as nat));
        }
        Some(task)
    }

    /// Answers one request at `now`; the flag says whether the daemon should
    /// stop. A completion's duration is given in whole seconds, and saturates
    /// when it does not fit in nanoseconds.
    pub fn respond(&mut self, request: Request, now: u64) -> (r: (Response, bool))
        requires
            old(self).wf(),
        ensures
            final(self).wf(),
            r.1 == (request is Shutdown),
            request matches Request::RegisterTask { id, command, name, pid } ==> r.0 is Ack
                && old(self).register_step(
                *final(self),
                TaskInfo { id, command, name, pid, started_at: now },
            ),
            request matches Request::CompleteTask { id, exit_code, duration_secs } ==> r.0 is Ack
                && exists|t: Option<TaskInfo>|
                old(self).complete_step(
                    *final(self),
                    id@,
                    exit_code,
                    secs_to_nanos(duration_secs),
                    now,
                    t,
                ),
            request is ListTasks ==> (r.0 matches Response::Tasks(ts) && ts@ == old(self).running()
                && *final(self) == *old(self)),
            request matches Request::GetHistory { count } ==> (r.0 matches Response::History(hs)
                && hs@ == newest(old(self).past(), count as nat) && *final(self) == *old(self)),
            request is Ping ==> r.0 is Pong && *final(self) == *old(self),
            request is Shutdown ==> r.0 is Ack && *final(self) == *old(self),
    {
        match request {
            Request::RegisterTask { id, command, name, pid } => {
                let info = TaskInfo { id, command, name, pid, started_at: now };
                self.register(info);
                (Response::Ack, false)
            },
            Request::CompleteTask { id, exit_code, duration_secs } => {
                let duration = if duration_secs > 18_446_744_073 {
                    u64::MAX
                } else {
                    duration_secs * 1_000_000_000
                };
                assert(duration == secs_to_nanos(duration_secs));
                let done = self.complete(&id, exit_code, duration, now);
                assert(old(self).complete_step(*self, id@, exit_code, duration, now, done));
                (Response::Ack, false)
            },
            Request::ListTasks => (Response::Tasks(self.list_tasks()), false),
            Request::GetHistory { count } => (Response::History(self.get_history(count)), false),
            Request::Ping => (Response::Pong, false),
            Request::Shutdown => (Response::Ack, true),
        }
    }

    /// The running tasks.
    pub fn list_tasks(&self) -> (r: Vec<TaskInfo>)
        ensures
            r@ == self.running(),
    {
        let mut out: Vec<TaskInfo> = Vec::new();
        let mut i: usize = 0;
        while i < self.tasks.len()
            invariant
                i <= self.tasks@.len(),
                out@ == self.tasks@.subrange(0, i as int),
            decreases self.tasks@.len() - i,
        {
            out.push(self.tasks[i].clone());
            i = i + 1;
            assert(out@ =~= self.tasks@.subrange(0, i as int));
        }
        assert(self.tasks@.subrange(0, self.tasks@.len() as int) =~= self.tasks@);
        out
    }

    /// The last `count` completions, newest first.
    pub fn get_history(&self, count: usize) -> (r: Vec<HistoryEntry>)
        ensures
            r@ == newest(self.past(), count as nat),
    {
        let n = self.history.len();
        let take = if count < n {
            count
        } else {
            n
        };
        let mut out: Vec<HistoryEntry> = Vec::new();
        let mut i: usize = 0;
        while i < take
            invariant
                n == self.history@.len(),
                take <= n,
                i <= take,
                out@.len() == i,
                forall|k: int| 0 <= k < i ==> out@[k] == self.history@[n - 1 - k],
            decreases take - i,
        {
            out.push(self.history[n - 1 - i].clone());
            i = i + 1;
        }
        assert(out@ =~= newest(self.past(), count as nat));
        out
    }

    /// The whole history, oldest first.
    pub fn history(&self) -> (r: &[HistoryEntry])
        ensures
            r@ == self.past(),
    {
        self.history.as_slice()
    }

    /// Drops task `id`; the task, or `None` when no task has that id.
    pub fn remove(&mut self, id: &String) -> (r: Option<TaskInfo>)
        requires
            old(self).wf(),
        ensures
            final(self).wf(),
            final(self).past() == old(self).past(),
            final(self).cap() == old(self).cap(),
            r is Some <==> has_id(old(self).running(), id@),
            r is None ==> final(self).running() == old(self).running(),
            r matches Some(task) ==> task.id@ == id@ && old(self).running().contains(task)
                && !has_id(final(self).running(), id@),
    {
        let i = match self.position(id) {
            Some(i) => i,
            None => return None,
        };
        let task = self.tasks.remove(i);
        proof {
            let o = old(self).tasks@;
            assert(o[i as int] == task);
            assert forall|a: int, b: int| 0 <= a < b < self.tasks@.len() implies self.tasks@[a].id@
                != self.tasks@[b].id@ by {
                let a0 = if a < i { a } else { a + 1 };
                let b0 = if b < i { b } else { b + 1 };
                assert(self.tasks@[a] == o[a0]);
                assert(self.tasks@[b] == o[b0]);
            }
            assert forall|j: int| 0 <= j < self.tasks@.len() implies self.tasks@[j].id@ != id@ by {
                if j < i {
                    assert(self.tasks@[j] == o[j]);
                } else {
                    assert(self.tasks@[j] == o[j + 1]);
                }
            }
        }
        Some(task)
    }
}

} // verus!
