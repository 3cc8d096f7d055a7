//! Pairs exec and exit records by thread group and measures how long each
//! process ran.
//!
//! Wall-clock instants are nanoseconds on the caller's monotonic clock; the
//! caller reads that clock and hands the reading in.
use vstd::prelude::*;
use std::collections::HashMap;
use crate::record::{field_text, ProcessExecEvent, ProcessExitEvent};

verus! {

broadcast use vstd::std_specs::hash::group_hash_axioms;

/// A process seen at exec and not yet at exit.
pub struct TrackedProcess {
    pub pid: u32,
    pub tgid: u32,
    pub ppid: u32,
    pub uid: u32,
    pub comm: String,
    pub filename: String,
    /// Wall-clock instant at which the exec was handled.
    pub start_time: u64,
    /// Kernel timestamp carried by the exec record.
    pub start_timestamp_ns: u64,
}

/// A process whose exit has been paired with its exec.
pub struct CompletedProcess {
    pub pid: u32,
    pub tgid: u32,
    pub uid: u32,
    pub comm: String,
    pub filename: String,
    pub exit_code: i32,
    /// Run time in nanoseconds.
    pub duration: u64,
}

impl Clone for TrackedProcess {
    fn clone(&self) -> (r: Self)
        ensures
            r == *self,
    {
        TrackedProcess {
            pid: self.pid,
            tgid: self.tgid,
            ppid: self.ppid,
            uid: self.uid,
            comm: self.comm.clone(),
            filename: self.filename.clone(),
            start_time: self.start_time,
            start_timestamp_ns: self.start_timestamp_ns,
        }
    }
}

impl Clone for CompletedProcess {
    fn clone(&self) -> (r: Self)
        ensures
            r == *self,
    {
        CompletedProcess {
            pid: self.pid,
            tgid: self.tgid,
            uid: self.uid,
            comm: self.comm.clone(),
            filename: self.filename.clone(),
            exit_code: self.exit_code,
            duration: self.duration,
        }
    }
}

/// `a - b`, or zero when `b` is later.
pub open spec fn elapsed(a: u64, b: u64) -> u64 {
    if a > b {
        (a - b) as u64
    } else {
        0
    }
}

/// The entry entry built from an exec record handled at `now`.
pub open spec fn entry_from(p: TrackedProcess, e: ProcessExecEvent, now: u64) -> bool {
    &&& p.pid == e.pid
    &&& p.tgid == e.tgid
    &&& p.ppid == e.ppid
    &&& p.uid == e.uid
    &&& p.comm@ == field_text(e.comm@)
    &&& p.filename@ == field_text(e.filename@)
    &&& p.start_time == now
    &&& p.start_timestamp_ns == e.timestamp_ns
}

/// Run time of `p` ending with an exit record stamped `exit_ts`, handled at `now`:
/// the kernel timestamps' difference when the exit is the later one, else the
/// wall-clock time since the exec was handled.
pub open spec fn run_time(p: TrackedProcess, exit_ts: u64, now: u64) -> u64 {
    if exit_ts > p.start_timestamp_ns {
        (exit_ts - p.start_timestamp_ns) as u64
    } else {
        elapsed(now, p.start_time)
    }
}

/// The completion of `p` by the exit record `e` handled at `now`.
pub open spec fn completed_from(
    c: CompletedProcess,
    p: TrackedProcess,
    e: ProcessExitEvent,
    now: u64,
) -> bool {
    &&& c.pid == p.pid
    &&& c.tgid == p.tgid
    &&& c.uid == p.uid
    &&& c.comm == p.comm
    &&& c.filename == p.filename
    &&& c.exit_code == e.exit_code
    &&& c.duration == run_time(p, e.timestamp_ns, now)
}

/// History after appending `c`, dropping the oldest entry beyond `cap`.
pub open spec fn push_bounded(h: Seq<CompletedProcess>, c: CompletedProcess, cap: nat) -> Seq<
    CompletedProcess,
> {
    if h.len() + 1 > cap {
        h.push(c).drop_first()
    } else {
        h.push(c)
    }
}

/// Whether `p` has been active longer than `max_age` at `now`.
pub open spec fn is_stale(p: TrackedProcess, now: u64, max_age: u64) -> bool {
    elapsed(now, p.start_time) > max_age
}

/// Tracks active processes and the recent completions.
pub struct ProcessTracker {
    processes: HashMap<u32, TrackedProcess>,
    history: Vec<CompletedProcess>,
    max_history: usize,
}

impl TrackedProcess {
    /// Whether this process has been active longer than `max_age` at `now`.
    pub fn stale_at(&self, now: u64, max_age: u64) -> (r: bool)
        ensures
            r == is_stale(*self, now, max_age),
    {
        now > self.start_time && now - self.start_time > max_age
    }
}

/// Relies on `HashMap::retain`: exactly the entries for which the predicate
/// holds are kept.
#[verifier::external_body]
fn retain_fresh(m: &mut HashMap<u32, TrackedProcess>, now: u64, max_age: u64)
    ensures
        final(m)@ == old(m)@.restrict(
            old(m)@.dom().filter(|k: u32| !is_stale(old(m)@[k], now, max_age)),
        ),
{
    m.retain(|_, p| !p.stale_at(now, max_age))
}

impl ProcessTracker {
    /// Active entries by thread-group id.
    pub closed spec fn active(&self) -> Map<u32, TrackedProcess> {
        self.processes@
    }

    /// Completed processes, oldest first.
    pub closed spec fn recent(&self) -> Seq<CompletedProcess> {
        self.history@
    }

    /// The history bound.
    pub closed spec fn cap(&self) -> nat {
        self.max_history as nat
    }

    pub open spec fn wf(&self) -> bool {
        self.recent().len() <= self.cap()
    }

    /// The effect of handling exec record `e` at `now`.
    pub open spec fn exec_step(self, next: Self, e: ProcessExecEvent, now: u64) -> bool {
        &&& next.active().dom() == self.active().dom().insert(e.tgid)
        &&& entry_from(next.active()[e.tgid], e, now)
        &&& forall|k: u32| k != e.tgid && #[trigger] self.active().contains_key(k)
            ==> next.active()[k] == self.active()[k]
        &&& next.recent() == self.recent()
        &&& next.cap() == self.cap()
    }

    /// The effect of handling exit record `e` at `now`, which returned `r`.
    pub open spec fn exit_step(
        self,
        next: Self,
        e: ProcessExitEvent,
        now: u64,
        r: Option<CompletedProcess>,
    ) -> bool {
        &&& next.cap() == self.cap()
        &&& if self.active().contains_key(e.tgid) {
            &&& r is Some
            &&& completed_from(r->0, self.active()[e.tgid], e, now)
            &&& next.active() == self.active().remove(e.tgid)
            &&& next.recent() == push_bounded(self.recent(), r->0, self.cap())
        } else {
            &&& r is None
            &&& next.active() == self.active()
            &&& next.recent() == self.recent()
        }
    }

    /// An empty tracker keeping at most `max_history` completions.
    pub fn new(max_history: usize) -> (r: Self)
        ensures
            r.wf(),
            r.active() == Map::<u32, TrackedProcess>::empty(),
            r.recent() == Seq::<CompletedProcess>::empty(),
            r.cap() == max_history,
    {
        ProcessTracker { processes: HashMap::new(), history: Vec::new(), max_history }
    }

    /// Starts tracking the process of exec record `event`, handled at `now`;
    /// an earlier entry for the same thread group is replaced.
    pub fn on_exec(&mut self, event: &ProcessExecEvent, now: u64)
        requires
            old(self).wf(),
        ensures
            final(self).wf(),
            old(self).exec_step(*final(self), *event, now),
    {
        let entry = TrackedProcess {
            pid: event.pid,
            tgid: event.tgid,
            ppid: event.ppid,
            uid: event.uid,
            comm: event.comm_str().to_owned(),
            filename: event.filename_str().to_owned(),
            start_time: now,
            start_timestamp_ns: event.timestamp_ns,
        };
        self.processes.insert(event.tgid, entry);
    }

    /// Pairs exit record `event`, handled at `now`, with its exec; `None`
    /// when its thread group is not entry.
    pub fn on_exit(&mut self, event: &ProcessExitEvent, now: u64) -> (r: Option<CompletedProcess>)
        requires
            old(self).wf(),
        ensures
            final(self).wf(),
            old(self).exit_step(*final(self), *event, now, r),
    {
        let entry = match self.processes.remove(&event.tgid) {
            Some(t) => t,
            None => {
                assert(self.processes@ =~= old(self).processes@);
                return None;
            },
        };
        let duration = if event.timestamp_ns > entry.start_timestamp_ns {
            event.timestamp_ns - entry.start_timestamp_ns
        } else if now > entry.start_time {
            now - entry.start_time
        } else {
            0
        };
        let completed = CompletedProcess {
            pid: entry.pid,
            tgid: entry.tgid,
            uid: entry.uid,
            comm: entry.comm,
            filename: entry.filename,
            exit_code: event.exit_code,
            duration,
        };
        self.history.push(completed.clone());
        if self.history.len() > self.max_history {
            self.history.remove(0);
        }
        Some(completed)
    }

    /// The active entries, in no particular order.
    pub fn active_processes(&self) -> (r: Vec<&TrackedProcess>)
        ensures
            r@.len() == self.active().len(),
            forall|i: int| 0 <= i < r@.len() ==> self.active().values().contains(*r@[i]),
    {
        let mut out: Vec<&TrackedProcess> = Vec::new();
        for p in it: self.processes.values()
            invariant
                out@.len() == it.index(),
                it.seq().unref().to_set() == self.processes@.values(),
                forall|i: int| 0 <= i < out@.len() ==> out@[i] == it.seq()[i],
                forall|i: int|
                    0 <= i < out@.len() ==> self.processes@.values().contains(#[trigger] *out@[i]),
        {
            proof {
                let s = it.seq().unref();
                assert(s[it.index()] == *p);
                assert(s.contains(*p));
            }
            out.push(p);
        }
        out
    }

    /// Completed processes, oldest first.
    pub fn history(&self) -> (r: &[CompletedProcess])
        ensures
            r@ == self.recent(),
    {
        self.history.as_slice()
    }

    /// Number of active entries.
    pub fn active_count(&self) -> (r: usize)
        ensures
            r == self.active().len(),
    {
        self.processes.len()
    }

    /// Drops the entries active longer than `max_age` at `now`; the history is
    /// left as it is.
    pub fn cleanup_stale(&mut self, max_age: u64, now: u64)
        requires
            old(self).wf(),
        ensures
            final(self).wf(),
            final(self).active() == old(self).active().restrict(
                old(self).active().dom().filter(
                    |k: u32| !is_stale(old(self).active()[k], now, max_age),
                ),
            ),
            forall|k: u32| #[trigger]
                final(self).active().contains_key(k) ==> !is_stale(
                    final(self).active()[k],
                    now,
                    max_age,
                ),
            final(self).recent() == old(self).recent(),
            final(self).cap() == old(self).cap(),
    {
        retain_fresh(&mut self.processes, now, max_age);
    }
}

/// History after appending each of `cs` in turn.
pub open spec fn push_all(h: Seq<CompletedProcess>, cs: Seq<CompletedProcess>, cap: nat) -> Seq<
    CompletedProcess,
>
    decreases cs.len(),
{
    if cs.len() == 0 {
        h
    } else {
        push_bounded(push_all(h, cs.drop_last(), cap), cs.last(), cap)
    }
}

pub open spec fn min_nat(a: nat, b: nat) -> nat {
    if a < b {
        a
    } else {
        b
    }
}

/// An exit that follows the exec of the same thread group yields a completion
/// with the exec's uid, thread group and command name. Its duration is the
/// kernel timestamps' difference when the exit's is the later one, else the
/// wall-clock time between handling the two records. The entry is gone
/// afterwards, and every other entry is as before the exec.
pub proof fn lemma_exec_then_exit(
    t0: ProcessTracker,
    t1: ProcessTracker,
    t2: ProcessTracker,
    e: ProcessExecEvent,
    exec_now: u64,
    x: ProcessExitEvent,
    exit_now: u64,
    r: Option<CompletedProcess>,
)
    requires
        t0.exec_step(t1, e, exec_now),
        t1.exit_step(t2, x, exit_now, r),
        x.tgid == e.tgid,
    ensures
        r is Some,
        r->0.uid == e.uid,
        r->0.tgid == e.tgid,
        r->0.pid == e.pid,
        r->0.comm@ == field_text(e.comm@),
        r->0.exit_code == x.exit_code,
        x.timestamp_ns > e.timestamp_ns ==> r->0.duration == x.timestamp_ns - e.timestamp_ns,
        x.timestamp_ns <= e.timestamp_ns ==> r->0.duration == elapsed(exit_now, exec_now),
        t2.active() == t0.active().remove(e.tgid),
{
    assert(t1.active().contains_key(e.tgid));
    assert(t2.active() =~= t0.active().remove(e.tgid));
}

/// A second exec for a thread group replaces the first: one entry remains,
/// built from the second record, and a later exit is timed from it.
pub proof fn lemma_rebind(
    t0: ProcessTracker,
    t1: ProcessTracker,
    t2: ProcessTracker,
    t3: ProcessTracker,
    e1: ProcessExecEvent,
    now1: u64,
    e2: ProcessExecEvent,
    now2: u64,
    x: ProcessExitEvent,
    now3: u64,
    r: Option<CompletedProcess>,
)
    requires
        t0.exec_step(t1, e1, now1),
        t1.exec_step(t2, e2, now2),
        t2.exit_step(t3, x, now3, r),
        e1.tgid == e2.tgid,
        x.tgid == e2.tgid,
    ensures
        t2.active().dom() == t0.active().dom().insert(e2.tgid),
        entry_from(t2.active()[e2.tgid], e2, now2),
        r is Some,
        r->0.duration == run_time(t2.active()[e2.tgid], x.timestamp_ns, now3),
        x.timestamp_ns > e2.timestamp_ns ==> r->0.duration == x.timestamp_ns - e2.timestamp_ns,
        x.timestamp_ns <= e2.timestamp_ns ==> r->0.duration == elapsed(now3, now2),
        t3.active() == t0.active().remove(e2.tgid),
{
    assert(t0.active().dom().insert(e1.tgid).insert(e2.tgid) =~= t0.active().dom().insert(
        e2.tgid,
    ));
    assert(t3.active() =~= t0.active().remove(e2.tgid));
}

/// After `cs.len()` completions into an empty history bounded by `cap`, the
/// history holds the last `min(cs.len(), cap)` of them, in the order they came.
pub proof fn lemma_history_bound(cs: Seq<CompletedProcess>, cap: nat)
    ensures
        push_all(Seq::empty(), cs, cap).len() == min_nat(cs.len(), cap),
        push_all(Seq::empty(), cs, cap) == cs.subrange(
            cs.len() - min_nat(cs.len(), cap),
            cs.len() as int,
        ),
    decreases cs.len(),
{
    if cs.len() > 0 {
        let prev = cs.drop_last();
        lemma_history_bound(prev, cap);
        let h = push_all(Seq::empty(), prev, cap);
        let n = cs.len();
        let m = min_nat(prev.len(), cap);
        assert(h =~= cs.subrange(n - 1 - m, n - 1));
        if h.len() + 1 > cap {
            assert(h.push(cs.last()).drop_first() =~= cs.subrange(n - min_nat(n, cap), n as int));
        } else {
            assert(h.push(cs.last()) =~= cs.subrange(n - min_nat(n, cap), n as int));
        }
    } else {
        assert(cs.subrange(0, 0) =~= Seq::<CompletedProcess>::empty());
    }
}

/// A run of exits that each completed a process, from a tracker with an
/// empty history: `ts[i + 1]` follows `ts[i]` by an exit that returned `cs[i]`.
pub open spec fn completion_run(ts: Seq<ProcessTracker>, cs: Seq<CompletedProcess>) -> bool {
    &&& ts.len() == cs.len() + 1
    &&& ts[0].recent() == Seq::<CompletedProcess>::empty()
    &&& forall|i: int|
        #![trigger cs[i]]
        0 <= i < cs.len() ==> exists|e: ProcessExitEvent, now: u64| #[trigger]
            ts[i].exit_step(ts[i + 1], e, now, Some(cs[i]))
}

proof fn lemma_run_prefix(ts: Seq<ProcessTracker>, cs: Seq<CompletedProcess>, i: int)
    requires
        completion_run(ts, cs),
        0 <= i <= cs.len(),
    ensures
        ts[i].cap() == ts[0].cap(),
        ts[i].recent() == push_all(Seq::empty(), cs.subrange(0, i), ts[0].cap()),
    decreases i,
{
    if i == 0 {
        assert(cs.subrange(0, 0) =~= Seq::<CompletedProcess>::empty());
    } else {
        lemma_run_prefix(ts, cs, i - 1);
        let j = i - 1;
        let (e, now) = choose|e: ProcessExitEvent, now: u64|
            #[trigger] ts[j].exit_step(ts[j + 1], e, now, Some(cs[j]));
        assert(ts[j].exit_step(ts[j + 1], e, now, Some(cs[j])));
        assert(cs.subrange(0, i).drop_last() =~= cs.subrange(0, j));
    }
}

/// After `n` completions with history bound `k`, the history holds the last
/// `min(n, k)` completions in the order they happened.
pub proof fn lemma_history_after_completions(ts: Seq<ProcessTracker>, cs: Seq<CompletedProcess>)
    requires
        completion_run(ts, cs),
    ensures
        ts.last().recent().len() == min_nat(cs.len(), ts[0].cap()),
        ts.last().recent() == cs.subrange(
            cs.len() - min_nat(cs.len(), ts[0].cap()),
            cs.len() as int,
        ),
{
    let k = ts[0].cap();
    lemma_run_prefix(ts, cs, cs.len() as int);
    assert(cs.subrange(0, cs.len() as int) =~= cs);
    lemma_history_bound(cs, k);
}

} // verus!
