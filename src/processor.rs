//! The daemon's event handling: one ring record at a time, the decision
//! whether a completion notifies, and the periodic cleanup.
//!
//! Reading the ring, loading per-user policy files, querying the user
//! database and running the delivery command are the caller's part.
use vstd::prelude::*;
use std::collections::HashMap;
use crate::notifier::{body_text, runner_args, summary_text, Notifier};
use crate::text::texts;
use crate::policy::{merged_decide, DaemonConfig, EffectiveConfig, UserConfig};
use crate::record::{decodes_exec, decodes_exit, ProcessExecEvent, ProcessExitEvent, EXEC_RECORD_LEN, EXIT_RECORD_LEN};
use crate::session::{describes, SessionDiscovery, SessionType, UserSession};
use crate::tracker::{CompletedProcess, ProcessTracker};

verus! {

broadcast use vstd::std_specs::hash::group_hash_axioms;

/// History bound of the daemon's tracker.
pub const HISTORY_CAP: usize = 1000;

/// Age, in nanoseconds, beyond which an active entry is swept (24 hours).
pub const STALE_AGE_NS: u64 = 86_400_000_000_000;

/// What handling one ring record did.
pub enum RecordOutcome {
    /// Empty, or shorter than its tag's layout: skipped.
    Skipped,
    /// A tag that names no record kind.
    Unknown(u8),
    /// An exec record: its process is now active.
    Started,
    /// An exit record paired with its exec.
    Completed(CompletedProcess),
    /// An exit record with no matching exec: dropped.
    Orphan,
}

/// Owns the tracker, the caches and the policy; fed one record at a time.
pub struct EventProcessor {
    tracker: ProcessTracker,
    sessions: SessionDiscovery,
    notifier: Notifier,
    config: DaemonConfig,
    user_configs: HashMap<u32, Option<UserConfig>>,
    unknown_records: u64,
}

impl EventProcessor {
    pub closed spec fn tracker_state(&self) -> ProcessTracker {
        self.tracker
    }

    pub closed spec fn sessions_state(&self) -> SessionDiscovery {
        self.sessions
    }

    pub closed spec fn policy(&self) -> DaemonConfig {
        self.config
    }

    /// Cached per-user overrides by uid (`None`: the user has none).
    pub closed spec fn user_cfgs(&self) -> Map<u32, Option<UserConfig>> {
        self.user_configs@
    }

    /// How many records with an unknown tag were seen (saturating).
    pub closed spec fn unknown_seen(&self) -> u64 {
        self.unknown_records
    }

    pub open spec fn wf(&self) -> bool {
        self.tracker_state().wf()
    }

    /// How many records with an unknown tag were seen (saturating).
    pub fn unknown_count(&self) -> (r: u64)
        ensures
            r == self.unknown_seen(),
    {
        self.unknown_records
    }

    /// A processor with system policy `config` and empty state.
    pub fn new(config: DaemonConfig) -> (r: Self)
        ensures
            r.wf(),
            r.tracker_state().active() == Map::<u32, crate::tracker::TrackedProcess>::empty(),
            r.tracker_state().recent() == Seq::<CompletedProcess>::empty(),
            r.tracker_state().cap() == HISTORY_CAP,
            r.sessions_state().cached() == Map::<u32, UserSession>::empty(),
            r.user_cfgs() == Map::<u32, Option<UserConfig>>::empty(),
            r.policy() == config,
            r.unknown_seen() == 0,
    {
        EventProcessor {
            tracker: ProcessTracker::new(HISTORY_CAP),
            sessions: SessionDiscovery::new(),
            notifier: Notifier::new(),
            config,
            user_configs: HashMap::new(),
            unknown_records: 0,
        }
    }

    /// The tracker, for inspection.
    pub fn tracker(&self) -> (r: &ProcessTracker)
        ensures
            *r == self.tracker_state(),
    {
        &self.tracker
    }

    /// The session cache, for inspection.
    pub fn sessions(&self) -> (r: &SessionDiscovery)
        ensures
            *r == self.sessions_state(),
    {
        &self.sessions
    }

    /// Handles a decoded exec record at `now`.
    pub fn handle_exec(&mut self, event: &ProcessExecEvent, now: u64)
        requires
            old(self).wf(),
        ensures
            final(self).wf(),
            old(self).tracker_state().exec_step(final(self).tracker_state(), *event, now),
            final(self).sessions_state() == old(self).sessions_state(),
            final(self).policy() == old(self).policy(),
            final(self).user_cfgs() == old(self).user_cfgs(),
            final(self).unknown_seen() == old(self).unknown_seen(),
    {
        self.tracker.on_exec(event, now);
    }

    /// Handles a decoded exit record at `now`; the completion, if it pairs.
    pub fn handle_exit(&mut self, event: &ProcessExitEvent, now: u64) -> (r: Option<
        CompletedProcess,
    >)
        requires
            old(self).wf(),
        ensures
            final(self).wf(),
            old(self).tracker_state().exit_step(final(self).tracker_state(), *event, now, r),
            final(self).sessions_state() == old(self).sessions_state(),
            final(self).policy() == old(self).policy(),
            final(self).user_cfgs() == old(self).user_cfgs(),
            final(self).unknown_seen() == old(self).unknown_seen(),
    {
        self.tracker.on_exit(event, now)
    }

    /// Handles one ring record, read at `now`: the tag byte picks the layout;
    /// a record shorter than its layout, or empty, is skipped.
    pub fn handle_record(&mut self, data: &[u8], now: u64) -> (r: RecordOutcome)
        requires
            old(self).wf(),
        ensures
            final(self).wf(),
            final(self).sessions_state() == old(self).sessions_state(),
            final(self).policy() == old(self).policy(),
            final(self).user_cfgs() == old(self).user_cfgs(),
            data@.len() == 0 ==> r is Skipped && *final(self) == *old(self),
            data@.len() > 0 && data@[0] != 1 && data@[0] != 2 ==> {
                &&& r == RecordOutcome::Unknown(data@[0])
                &&& final(self).unknown_seen() == if old(self).unknown_seen() == u64::MAX {
                    u64::MAX
                } else {
                    (old(self).unknown_seen() + 1) as u64
                }
                &&& final(self).tracker_state() == old(self).tracker_state()
            },
            !(data@.len() > 0 && data@[0] != 1 && data@[0] != 2) ==> final(self).unknown_seen()
                == old(self).unknown_seen(),
            data@.len() > 0 && data@[0] == 1 ==> if data@.len() >= EXEC_RECORD_LEN {
                &&& r is Started
                &&& exists|e: ProcessExecEvent|
                    decodes_exec(data@, e) && old(self).tracker_state().exec_step(
                        final(self).tracker_state(),
                        e,
                        now,
                    )
            } else {
                r is Skipped && *final(self) == *old(self)
            },
            data@.len() > 0 && data@[0] == 2 ==> if data@.len() >= EXIT_RECORD_LEN {
                &&& (r is Completed || r is Orphan)
                &&& exists|e: ProcessExitEvent|
                    decodes_exit(data@, e) && old(self).tracker_state().exit_step(
                        final(self).tracker_state(),
                        e,
                        now,
                        match r {
                            RecordOutcome::Completed(c) => Some(c),
                            _ => None,
                        },
                    )
            } else {
                r is Skipped && *final(self) == *old(self)
            },
    {
        if data.len() == 0 {
            return RecordOutcome::Skipped;
        }
        let tag = data[0];
        if tag == 1 {
            match ProcessExecEvent::from_bytes(data) {
                Some(e) => {
                    self.handle_exec(&e, now);
                    RecordOutcome::Started
                },
                None => RecordOutcome::Skipped,
            }
        } else if tag == 2 {
            match ProcessExitEvent::from_bytes(data) {
                Some(e) => match self.handle_exit(&e, now) {
                    Some(c) => RecordOutcome::Completed(c),
                    None => RecordOutcome::Orphan,
                },
                None => RecordOutcome::Skipped,
            }
        } else {
            if self.unknown_records < u64::MAX {
                self.unknown_records = self.unknown_records + 1;
            }
            RecordOutcome::Unknown(tag)
        }
    }

    /// Whether overrides for `uid` are cached (an absent policy file counts).
    pub fn has_user_config(&self, uid: u32) -> (r: bool)
        ensures
            r == self.user_cfgs().contains_key(uid),
    {
        self.user_configs.contains_key(&uid)
    }

    /// The overrides of `uid`: the cached ones, else `loaded` (read from the
    /// user's policy file, `None` when there is none or it is unreadable),
    /// which is cached.
    pub fn get_user_config(&mut self, uid: u32, loaded: Option<UserConfig>) -> (r: Option<
        &UserConfig,
    >)
        ensures
            final(self).user_cfgs() == if old(self).user_cfgs().contains_key(uid) {
                old(self).user_cfgs()
            } else {
                old(self).user_cfgs().insert(uid, loaded)
            },
            match final(self).user_cfgs()[uid] {
                Some(u) => r == Some(&u),
                None => r is None,
            },
    {
        if !self.user_configs.contains_key(&uid) {
            self.user_configs.insert(uid, loaded);
        }
        match self.user_configs.get(&uid) {
            Some(Some(u)) => Some(u),
            _ => None,
        }
    }

    /// Whether `process` earns a notification under the system policy and
    /// its user's overrides (fetched as `get_user_config` does).
    pub fn wants_notification(&mut self, process: &CompletedProcess, loaded: Option<UserConfig>) -> (r:
        bool)
        requires
            old(self).wf(),
        ensures
            final(self).wf(),
            final(self).user_cfgs() == if old(self).user_cfgs().contains_key(process.uid) {
                old(self).user_cfgs()
            } else {
                old(self).user_cfgs().insert(process.uid, loaded)
            },
            r == merged_decide(
                old(self).policy(),
                final(self).user_cfgs()[process.uid],
                process.comm@,
                process.duration / 1_000_000_000,
            ),
            final(self).tracker_state() == old(self).tracker_state(),
            final(self).sessions_state() == old(self).sessions_state(),
            final(self).policy() == old(self).policy(),
    {
        if !self.user_configs.contains_key(&process.uid) {
            self.user_configs.insert(process.uid, loaded);
        }
        let user: Option<&UserConfig> = match self.user_configs.get(&process.uid) {
            Some(Some(u)) => Some(u),
            _ => None,
        };
        let effective = EffectiveConfig::new(&self.config, user);
        effective.should_notify(process.comm.as_str(), process.duration / 1_000_000_000)
    }

    /// The session and runner arguments that deliver the notification for
    /// `process`; the session is found as `SessionDiscovery::get_session`
    /// does, and `None` means none could be.
    pub fn delivery_for(
        &mut self,
        process: &CompletedProcess,
        username: Option<String>,
        session_type: SessionType,
    ) -> (r: Option<(UserSession, Vec<String>)>)
        requires
            old(self).wf(),
        ensures
            final(self).wf(),
            final(self).tracker_state() == old(self).tracker_state(),
            final(self).policy() == old(self).policy(),
            final(self).user_cfgs() == old(self).user_cfgs(),
            old(self).sessions_state().cached().contains_key(process.uid) ==> (r matches Some(d)
                && d.0 == old(self).sessions_state().cached()[process.uid]),
            r matches Some(d) ==> texts(d.1@) == runner_args(
                d.0,
                summary_text(process.comm@),
                body_text(*process),
            ),
            !old(self).sessions_state().cached().contains_key(process.uid) ==> {
                &&& (r is Some <==> (old(self).sessions_state().names().contains_key(process.uid)
                    || username is Some))
                &&& r matches Some(d) ==> {
                    &&& final(self).sessions_state().cached() == old(
                        self,
                    ).sessions_state().cached().insert(process.uid, d.0)
                    &&& describes(
                        d.0,
                        process.uid,
                        if old(self).sessions_state().names().contains_key(process.uid) {
                            old(self).sessions_state().names()[process.uid]@
                        } else {
                            username->0@
                        },
                        session_type,
                    )
                }
            },
    {
        let session = match self.sessions.get_session(process.uid, username, session_type) {
            Some(s) => s,
            None => return None,
        };
        let summary = self.notifier.summary(process);
        let body = self.notifier.format_body(process);
        let args = self.notifier.command_args(&session, summary.as_str(), body.as_str());
        Some((session, args))
    }

    /// The hourly sweep at `now`: entries active longer than a day are
    /// dropped, and the session and per-user caches are emptied.
    pub fn cleanup(&mut self, now: u64)
        requires
            old(self).wf(),
        ensures
            final(self).wf(),
            final(self).tracker_state().active() == old(self).tracker_state().active().restrict(
                old(self).tracker_state().active().dom().filter(
                    |k: u32|
                        !crate::tracker::is_stale(
                            old(self).tracker_state().active()[k],
                            now,
                            STALE_AGE_NS,
                        ),
                ),
            ),
            final(self).tracker_state().recent() == old(self).tracker_state().recent(),
            final(self).sessions_state().cached() == Map::<u32, UserSession>::empty(),
            final(self).user_cfgs() == Map::<u32, Option<UserConfig>>::empty(),
            final(self).policy() == old(self).policy(),
    {
        self.tracker.cleanup_stale(STALE_AGE_NS, now);
        self.sessions.clear_cache();
        self.user_configs.clear();
    }
}

} // verus!
