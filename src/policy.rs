//! The system policy, per-user overrides, and the decision whether a
//! completed command is worth a notification.
use vstd::prelude::*;
use vstd::string::*;
use crate::text::{same_text, texts};

verus! {

/// Whether `pre` begins `s`.
pub open spec fn has_prefix(s: Seq<char>, pre: Seq<char>) -> bool {
    pre.len() <= s.len() && s.subrange(0, pre.len() as int) == pre
}

/// Whether `suf` ends `s`.
pub open spec fn has_suffix(s: Seq<char>, suf: Seq<char>) -> bool {
    suf.len() <= s.len() && s.subrange(s.len() - suf.len(), s.len() as int) == suf
}

/// `p` holds exactly one `*`, at index `i`.
pub open spec fn single_star_at(p: Seq<char>, i: int) -> bool {
    &&& 0 <= i < p.len()
    &&& p[i] == '*'
    &&& forall|j: int| 0 <= j < p.len() && j != i ==> p[j] != '*'
}

/// Whether command name `name` matches pattern `p`: a pattern with exactly
/// one `*` matches names that begin with the part before it and end with the
/// part after it; any other pattern matches only itself.
pub open spec fn pattern_matches(p: Seq<char>, name: Seq<char>) -> bool {
    if exists|i: int| single_star_at(p, i) {
        let i = choose|i: int| single_star_at(p, i);
        has_prefix(name, p.subrange(0, i)) && has_suffix(name, p.subrange(i + 1, p.len() as int))
    } else {
        name == p
    }
}

/// Whether some pattern of `ps` matches `name`.
pub open spec fn matches_any(ps: Seq<String>, name: Seq<char>) -> bool {
    exists|k: int| 0 <= k < ps.len() && pattern_matches(ps[k]@, name)
}

/// Index of the only `*` of `p`, if it has exactly one.
fn single_star(p: &str) -> (r: Option<usize>)
    ensures
        r matches Some(i) ==> single_star_at(p@, i as int),
        r is None ==> !exists|i: int| single_star_at(p@, i),
{
    let n = p.unicode_len();
    let mut found: Option<usize> = None;
    let mut i: usize = 0;
    while i < n
        invariant
            n == p@.len(),
            i <= n,
            found matches Some(f) ==> f < i && p@[f as int] == '*' && forall|j: int|
                0 <= j < i && j != f ==> p@[j] != '*',
            found is None ==> forall|j: int| 0 <= j < i ==> p@[j] != '*',
        decreases n - i,
    {
        if p.get_char(i) == '*' {
            if found.is_some() {
                proof {
                    let f = found->0;
                    assert forall|k: int| !single_star_at(p@, k) by {
                        if single_star_at(p@, k) {
                            assert(k == f || k == i);
                        }
                    }
                }
                return None;
            }
            found = Some(i);
        }
        i = i + 1;
    }
    found
}

/// Whether `s` begins with the characters `pre[from..to]`.
fn starts_with_part(s: &str, pre: &str, from: usize, to: usize) -> (r: bool)
    requires
        from <= to <= pre@.len(),
    ensures
        r == has_prefix(s@, pre@.subrange(from as int, to as int)),
{
    let n = s.unicode_len();
    let len = to - from;
    if len > n {
        return false;
    }
    let mut k: usize = 0;
    while k < len
        invariant
            n == s@.len(),
            len == to - from,
            from <= to <= pre@.len(),
            len <= n,
            k <= len,
            forall|j: int| 0 <= j < k ==> s@[j] == pre@[from + j],
        decreases len - k,
    {
        if s.get_char(k) != pre.get_char(from + k) {
            assert(s@.subrange(0, len as int)[k as int] != pre@.subrange(from as int, to as int)[k as int]);
            return false;
        }
        k = k + 1;
    }
    assert(s@.subrange(0, len as int) =~= pre@.subrange(from as int, to as int));
    true
}

/// Whether `s` ends with the characters `suf[from..to]`.
fn ends_with_part(s: &str, suf: &str, from: usize, to: usize) -> (r: bool)
    requires
        from <= to <= suf@.len(),
    ensures
        r == has_suffix(s@, suf@.subrange(from as int, to as int)),
{
    let n = s.unicode_len();
    let len = to - from;
    if len > n {
        return false;
    }
    let start = n - len;
    let mut k: usize = 0;
    while k < len
        invariant
            n == s@.len(),
            len == to - from,
            from <= to <= suf@.len(),
            start == n - len,
            k <= len,
            forall|j: int| start <= j < start + k ==> s@[j] == suf@[from + j - start],
        decreases len - k,
    {
        if s.get_char(start + k) != suf.get_char(from + k) {
            assert(s@.subrange(start as int, n as int)[k as int] != suf@.subrange(
                from as int,
                to as int,
            )[k as int]);
            return false;
        }
        k = k + 1;
    }
    assert(s@.subrange(start as int, n as int) =~= suf@.subrange(from as int, to as int));
    true
}

/// Whether command name `name` matches `pattern` (see `pattern_matches`).
pub fn matches_pattern(pattern: &str, name: &str) -> (r: bool)
    ensures
        r == pattern_matches(pattern@, name@),
{
    match single_star(pattern) {
        Some(i) => {
            let n = pattern.unicode_len();
            proof {
                assert forall|j: int| single_star_at(pattern@, j) implies j == i by {}
            }
            starts_with_part(name, pattern, 0, i) && ends_with_part(name, pattern, i + 1, n)
        },
        None => same_text(name, pattern),
    }
}

/// Whether some pattern of `patterns` matches `name`.
pub fn matches_any_pattern(patterns: &Vec<String>, name: &str) -> (r: bool)
    ensures
        r == matches_any(patterns@, name@),
{
    let mut k: usize = 0;
    while k < patterns.len()
        invariant
            k <= patterns@.len(),
            forall|j: int| 0 <= j < k ==> !pattern_matches(patterns@[j]@, name@),
        decreases patterns@.len() - k,
    {
        if matches_pattern(patterns[k].as_str(), name) {
            return true;
        }
        k = k + 1;
    }
    false
}

/// The shipped list of commands that never notify by default.
pub open spec fn default_ignores() -> Seq<Seq<char>> {
    seq![
        "vim"@, "nvim"@, "nano"@, "less"@, "more"@, "man"@, "bash"@, "zsh"@, "fish"@, "sh"@,
        "ssh"@, "tmux"@, "screen"@, "htop"@, "top"@, "ls"@, "cat"@, "grep"@, "find"@, "pwd"@,
        "cd"@, "echo"@, "printf"@, "test"@, "["@,
    ]
}

/// System-wide policy.
pub struct DaemonConfig {
    /// Lowest uid whose processes are watched.
    pub min_uid: u32,
    /// Minimum run time, in seconds, that earns a notification.
    pub threshold_seconds: u64,
    /// Command-name patterns that never notify.
    pub ignore_patterns: Vec<String>,
    /// Whether every event is logged.
    pub debug: bool,
}

/// Per-user overrides of the system policy.
pub struct UserConfig {
    pub threshold_seconds: Option<u64>,
    /// Patterns ignored on top of the system's.
    pub ignore_patterns: Vec<String>,
    /// Patterns that notify even when ignored.
    pub always_notify: Vec<String>,
    /// Turns notifications off for this user.
    pub disabled: bool,
}

/// The policy in force for one user: the system policy merged with the user's
/// overrides.
pub struct EffectiveConfig {
    pub threshold_seconds: u64,
    pub ignore_set: Vec<String>,
    pub always_notify: Vec<String>,
    pub disabled: bool,
}

pub fn default_min_uid() -> (r: u32)
    ensures
        r == 1000,
{
    1000
}

pub fn default_threshold_seconds() -> (r: u64)
    ensures
        r == 10,
{
    10
}

fn push_text(v: &mut Vec<String>, s: &str)
    ensures
        texts(final(v)@) == texts(old(v)@).push(s@),
{
    v.push(s.to_owned());
    assert(texts(v@) =~= texts(old(v)@).push(s@));
}

/// The shipped ignore list.
pub fn default_ignore_patterns() -> (r: Vec<String>)
    ensures
        texts(r@) == default_ignores(),
{
    let mut v: Vec<String> = Vec::new();
    push_text(&mut v, "vim");
    push_text(&mut v, "nvim");
    push_text(&mut v, "nano");
    push_text(&mut v, "less");
    push_text(&mut v, "more");
    push_text(&mut v, "man");
    push_text(&mut v, "bash");
    push_text(&mut v, "zsh");
    push_text(&mut v, "fish");
    push_text(&mut v, "sh");
    push_text(&mut v, "ssh");
    push_text(&mut v, "tmux");
    push_text(&mut v, "screen");
    push_text(&mut v, "htop");
    push_text(&mut v, "top");
    push_text(&mut v, "ls");
    push_text(&mut v, "cat");
    push_text(&mut v, "grep");
    push_text(&mut v, "find");
    push_text(&mut v, "pwd");
    push_text(&mut v, "cd");
    push_text(&mut v, "echo");
    push_text(&mut v, "printf");
    push_text(&mut v, "test");
    push_text(&mut v, "[");
    assert(texts(v@) =~= default_ignores());
    v
}

impl Default for DaemonConfig {
    fn default() -> (r: Self)
        ensures
            r.min_uid == 1000,
            r.threshold_seconds == 10,
            texts(r.ignore_patterns@) == default_ignores(),
            !r.debug,
    {
        DaemonConfig {
            min_uid: default_min_uid(),
            threshold_seconds: default_threshold_seconds(),
            ignore_patterns: default_ignore_patterns(),
            debug: false,
        }
    }
}

impl Default for UserConfig {
    fn default() -> (r: Self)
        ensures
            r.threshold_seconds is None,
            r.ignore_patterns@.len() == 0,
            r.always_notify@.len() == 0,
            !r.disabled,
    {
        UserConfig {
            threshold_seconds: None,
            ignore_patterns: Vec::new(),
            always_notify: Vec::new(),
            disabled: false,
        }
    }
}

/// Whether some string of `v` has the characters `p`.
pub open spec fn holds_text(v: Seq<String>, p: Seq<char>) -> bool {
    exists|k: int| 0 <= k < v.len() && v[k]@ == p
}

/// Appends `p` unless `v` already holds it; whether it was appended.
fn add_unique(v: &mut Vec<String>, p: String) -> (r: bool)
    ensures
        r == !holds_text(old(v)@, p@),
        r ==> final(v)@ == old(v)@.push(p),
        !r ==> final(v)@ == old(v)@,
{
    let mut k: usize = 0;
    while k < v.len()
        invariant
            k <= v@.len(),
            forall|j: int| 0 <= j < k ==> v@[j]@ != p@,
        decreases v@.len() - k,
    {
        if v[k] == p {
            return false;
        }
        k = k + 1;
    }
    v.push(p);
    true
}

impl UserConfig {
    /// Adds an ignore pattern unless it is there already; whether it was added.
    pub fn add_ignore_pattern(&mut self, pattern: String) -> (r: bool)
        ensures
            r == !holds_text(old(self).ignore_patterns@, pattern@),
            r ==> final(self).ignore_patterns@ == old(self).ignore_patterns@.push(pattern),
            !r ==> final(self).ignore_patterns@ == old(self).ignore_patterns@,
            final(self).always_notify == old(self).always_notify,
            final(self).threshold_seconds == old(self).threshold_seconds,
            final(self).disabled == old(self).disabled,
    {
        add_unique(&mut self.ignore_patterns, pattern)
    }

    /// Adds an always-notify pattern unless it is there already; whether it
    /// was added.
    pub fn add_always_notify(&mut self, pattern: String) -> (r: bool)
        ensures
            r == !holds_text(old(self).always_notify@, pattern@),
            r ==> final(self).always_notify@ == old(self).always_notify@.push(pattern),
            !r ==> final(self).always_notify@ == old(self).always_notify@,
            final(self).ignore_patterns == old(self).ignore_patterns,
            final(self).threshold_seconds == old(self).threshold_seconds,
            final(self).disabled == old(self).disabled,
    {
        add_unique(&mut self.always_notify, pattern)
    }
}

impl DaemonConfig {
    /// Where the system policy file lives.
    pub fn system_config_path() -> (r: String)
        ensures
            r@ == "/etc/notify-done/config.toml"@,
    {
        "/etc/notify-done/config.toml".to_owned()
    }

    /// Whether a command name is on the system ignore list.
    pub fn should_ignore(&self, comm: &str) -> (r: bool)
        ensures
            r == matches_any(self.ignore_patterns@, comm@),
    {
        matches_any_pattern(&self.ignore_patterns, comm)
    }
}

/// `v` with copies of the strings of `extra` appended.
fn extend_copies(v: &mut Vec<String>, extra: &Vec<String>)
    ensures
        final(v)@ == old(v)@ + extra@,
{
    let mut k: usize = 0;
    while k < extra.len()
        invariant
            k <= extra@.len(),
            v@ == old(v)@ + extra@.subrange(0, k as int),
        decreases extra@.len() - k,
    {
        v.push(extra[k].clone());
        k = k + 1;
        assert(v@ =~= old(v)@ + extra@.subrange(0, k as int));
    }
    assert(extra@.subrange(0, extra@.len() as int) =~= extra@);
}

impl EffectiveConfig {
    /// Decides, for a command `name` that ran `secs` seconds, whether to notify:
    /// never when disabled; an always-notify match notifies at the threshold
    /// even if ignored; an ignore match never notifies; otherwise the threshold
    /// decides.
    pub open spec fn decide(&self, name: Seq<char>, secs: u64) -> bool {
        if self.disabled {
            false
        } else if matches_any(self.always_notify@, name) {
            secs >= self.threshold_seconds
        } else if matches_any(self.ignore_set@, name) {
            false
        } else {
            secs >= self.threshold_seconds
        }
    }

    /// Merges the system policy with a user's overrides, if there are any.
    pub fn new(daemon: &DaemonConfig, user: Option<&UserConfig>) -> (r: Self)
        ensures
            r.threshold_seconds == match user {
                Some(u) => match u.threshold_seconds {
                    Some(t) => t,
                    None => daemon.threshold_seconds,
                },
                None => daemon.threshold_seconds,
            },
            r.ignore_set@ == match user {
                Some(u) => daemon.ignore_patterns@ + u.ignore_patterns@,
                None => daemon.ignore_patterns@,
            },
            r.always_notify@ == match user {
                Some(u) => u.always_notify@,
                None => Seq::<String>::empty(),
            },
            r.disabled == match user {
                Some(u) => u.disabled,
                None => false,
            },
    {
        let threshold_seconds = match user {
            Some(u) => match u.threshold_seconds {
                Some(t) => t,
                None => daemon.threshold_seconds,
            },
            None => daemon.threshold_seconds,
        };
        let mut ignore_set: Vec<String> = Vec::new();
        extend_copies(&mut ignore_set, &daemon.ignore_patterns);
        let mut always_notify: Vec<String> = Vec::new();
        let mut disabled = false;
        if let Some(u) = user {
            extend_copies(&mut ignore_set, &u.ignore_patterns);
            extend_copies(&mut always_notify, &u.always_notify);
            disabled = u.disabled;
        }
        assert(Seq::<String>::empty() + daemon.ignore_patterns@ =~= daemon.ignore_patterns@);
        assert(Seq::<String>::empty() + daemon.ignore_patterns@ + Seq::<String>::empty() =~= daemon.ignore_patterns@);
        EffectiveConfig { threshold_seconds, ignore_set, always_notify, disabled }
    }

    /// Whether command `comm`, having run `duration_secs` seconds, earns a
    /// notification (see `decide`).
    pub fn should_notify(&self, comm: &str, duration_secs: u64) -> (r: bool)
        ensures
            r == self.decide(comm@, duration_secs),
    {
        if self.disabled {
            return false;
        }
        if matches_any_pattern(&self.always_notify, comm) {
            return duration_secs >= self.threshold_seconds;
        }
        if matches_any_pattern(&self.ignore_set, comm) {
            return false;
        }
        duration_secs >= self.threshold_seconds
    }
}

/// The decision for a user with overrides `user` (if any) under system
/// policy `daemon` (see `EffectiveConfig::decide`).
pub open spec fn merged_decide(
    daemon: DaemonConfig,
    user: Option<UserConfig>,
    name: Seq<char>,
    secs: u64,
) -> bool {
    let threshold = match user {
        Some(u) => match u.threshold_seconds {
            Some(t) => t,
            None => daemon.threshold_seconds,
        },
        None => daemon.threshold_seconds,
    };
    let always = match user {
        Some(u) => u.always_notify@,
        None => Seq::<String>::empty(),
    };
    let ignore = match user {
        Some(u) => daemon.ignore_patterns@ + u.ignore_patterns@,
        None => daemon.ignore_patterns@,
    };
    let disabled = match user {
        Some(u) => u.disabled,
        None => false,
    };
    if disabled {
        false
    } else if matches_any(always, name) {
        secs >= threshold
    } else if matches_any(ignore, name) {
        false
    } else {
        secs >= threshold
    }
}

/// The decision for every name and duration: a disabled user is never
/// notified; an always-notify match overrides an ignore match and leaves the
/// threshold to decide; an ignore match alone never notifies; otherwise the
/// duration notifies exactly when it reaches the threshold.
pub proof fn lemma_decision(c: EffectiveConfig, name: Seq<char>, secs: u64)
    ensures
        c.disabled ==> !c.decide(name, secs),
        !c.disabled && matches_any(c.always_notify@, name) ==> (c.decide(name, secs) <==> secs
            >= c.threshold_seconds),
        !c.disabled && matches_any(c.ignore_set@, name) && !matches_any(c.always_notify@, name)
            ==> !c.decide(name, secs),
        !c.disabled && !matches_any(c.ignore_set@, name) && !matches_any(c.always_notify@, name)
            ==> (c.decide(name, secs) <==> secs >= c.threshold_seconds),
{
}

} // verus!
