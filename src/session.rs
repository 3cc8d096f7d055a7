//! Where a user's graphical session can be reached.
//!
//! Reading the user database and asking the login manager are the caller's
//! part; this module turns their answers into session descriptors and keeps
//! them cached by uid.
use vstd::prelude::*;
use vstd::string::*;
use std::collections::HashMap;
use crate::text::{decimal, push_decimal};

verus! {

broadcast use vstd::std_specs::hash::group_hash_axioms;

/// The kind of graphical session.
#[derive(Clone, Copy, Debug, PartialEq, Eq, Structural)]
pub enum SessionType {
    X11,
    Wayland,
    Unknown,
}

/// A user's live session, as far as delivering a notification needs it.
pub struct UserSession {
    pub uid: u32,
    pub username: String,
    pub display: Option<String>,
    pub dbus_address: String,
    pub session_type: SessionType,
}

impl Clone for UserSession {
    fn clone(&self) -> (r: Self)
        ensures
            r == *self,
    {
        UserSession {
            uid: self.uid,
            username: self.username.clone(),
            display: match &self.display {
                Some(d) => Some(d.clone()),
                None => None,
            },
            dbus_address: self.dbus_address.clone(),
            session_type: self.session_type,
        }
    }
}

/// Whether `n` occurs in `h`.
pub open spec fn contains_text(h: Seq<char>, n: Seq<char>) -> bool {
    exists|i: int| 0 <= i && i + n.len() <= h.len() && #[trigger] h.subrange(i, i + n.len()) == n
}

/// Session kind named by the login manager's `Type` property output.
pub open spec fn kind_of_property(out: Seq<char>) -> SessionType {
    if contains_text(out, "x11"@) {
        SessionType::X11
    } else if contains_text(out, "wayland"@) {
        SessionType::Wayland
    } else {
        SessionType::Unknown
    }
}

/// The per-user session bus address.
pub open spec fn bus_address(uid: u32) -> Seq<char> {
    "unix:path=/run/user/"@ + decimal(uid as nat) + "/bus"@
}

/// The runtime directory of a user.
pub open spec fn runtime_dir(uid: u32) -> Seq<char> {
    "/run/user/"@ + decimal(uid as nat)
}

/// The descriptor for user `uid` named `name` in a session of kind `kind`.
pub open spec fn describes(s: UserSession, uid: u32, name: Seq<char>, kind: SessionType) -> bool {
    &&& s.uid == uid
    &&& s.username@ == name
    &&& s.dbus_address@ == bus_address(uid)
    &&& s.session_type == kind
    &&& (s.display is Some <==> kind == SessionType::X11)
    &&& s.display matches Some(d) ==> d@ == ":0"@
}

fn occurs_at(h: &str, n: &str, i: usize) -> (r: bool)
    requires
        i + n@.len() <= h@.len(),
    ensures
        r == (h@.subrange(i as int, i + n@.len()) == n@),
{
    let len = n.unicode_len();
    let hl = h.unicode_len();
    let mut k: usize = 0;
    while k < len
        invariant
            len == n@.len(),
            hl == h@.len(),
            i + len <= h@.len(),
            k <= len,
            forall|j: int| i <= j < i + k ==> h@[j] == n@[j - i],
        decreases len - k,
    {
        if h.get_char(i + k) != n.get_char(k) {
            assert(h@.subrange(i as int, i + len)[k as int] != n@[k as int]);
            return false;
        }
        k = k + 1;
    }
    assert(h@.subrange(i as int, i + len) =~= n@);
    true
}

/// Whether `n` occurs in `h`.
pub fn contains_str(h: &str, n: &str) -> (r: bool)
    ensures
        r == contains_text(h@, n@),
{
    let hl = h.unicode_len();
    let nl = n.unicode_len();
    if nl > hl {
        return false;
    }
    if nl == 0 {
        assert(h@.subrange(0, 0 + n@.len() as int) =~= n@);
        assert(contains_text(h@, n@));
        return true;
    }
    let mut i: usize = 0;
    while i <= hl - nl
        invariant
            hl == h@.len(),
            nl == n@.len(),
            0 < nl <= hl,
            i <= hl - nl + 1,
            forall|j: int| 0 <= j < i ==> #[trigger] h@.subrange(j, j + nl) != n@,
        decreases hl + 1 - i,
    {
        if occurs_at(h, n, i) {
            return true;
        }
        i = i + 1;
    }
    false
}

/// Session kind from the output of the login manager's `Type` property query.
pub fn session_type_from_property(out: &str) -> (r: SessionType)
    ensures
        r == kind_of_property(out@),
{
    if contains_str(out, "x11") {
        SessionType::X11
    } else if contains_str(out, "wayland") {
        SessionType::Wayland
    } else {
        SessionType::Unknown
    }
}

/// The session bus address of user `uid`.
pub fn dbus_address_for(uid: u32) -> (r: String)
    ensures
        r@ == bus_address(uid),
{
    let mut s = "unix:path=/run/user/".to_owned();
    push_decimal(&mut s, uid as u64);
    s.append("/bus");
    s
}

/// Discovers and caches session descriptors by uid.
pub struct SessionDiscovery {
    sessions: HashMap<u32, UserSession>,
    usernames: HashMap<u32, String>,
}

impl SessionDiscovery {
    /// Cached descriptors by uid.
    pub closed spec fn cached(&self) -> Map<u32, UserSession> {
        self.sessions@
    }

    /// Cached user names by uid.
    pub closed spec fn names(&self) -> Map<u32, String> {
        self.usernames@
    }

    /// An empty discovery cache.
    pub fn new() -> (r: Self)
        ensures
            r.cached() == Map::<u32, UserSession>::empty(),
            r.names() == Map::<u32, String>::empty(),
    {
        SessionDiscovery { sessions: HashMap::new(), usernames: HashMap::new() }
    }

    /// The cached name of user `uid`, if it was resolved before.
    pub fn cached_username(&self, uid: u32) -> (r: Option<&String>)
        ensures
            r is Some <==> self.names().contains_key(uid),
            r matches Some(n) ==> *n == self.names()[uid],
    {
        self.usernames.get(&uid)
    }

    /// Whether a descriptor for `uid` is cached.
    pub fn has_session(&self, uid: u32) -> (r: bool)
        ensures
            r == self.cached().contains_key(uid),
    {
        self.sessions.contains_key(&uid)
    }

    /// The display to use in an X11 session of `uid`. Display `:0` is taken
    /// whether or not an X authority file is found for it.
    pub fn get_display_for_user(&self, uid: u32) -> (r: Option<String>)
        ensures
            r matches Some(d) && d@ == ":0"@,
    {
        Some(":0".to_owned())
    }

    /// Builds the descriptor of user `uid` in a session of kind `session_type`.
    /// The user's name is the cached one, else `username`, as read from the
    /// user database (`None` when it has no entry for `uid`); without a name
    /// there is no descriptor. A resolved name is cached.
    pub fn discover_session(
        &mut self,
        uid: u32,
        username: Option<String>,
        session_type: SessionType,
    ) -> (r: Option<UserSession>)
        ensures
            final(self).cached() == old(self).cached(),
            old(self).names().contains_key(uid) ==> {
                &&& final(self).names() == old(self).names()
                &&& r matches Some(s) && describes(
                    s,
                    uid,
                    old(self).names()[uid]@,
                    session_type,
                )
            },
            !old(self).names().contains_key(uid) ==> match username {
                Some(n) => {
                    &&& final(self).names() == old(self).names().insert(uid, n)
                    &&& r matches Some(s) && describes(s, uid, n@, session_type)
                },
                None => final(self).names() == old(self).names() && r is None,
            },
    {
        let name = match self.usernames.get(&uid) {
            Some(n) => n.clone(),
            None => match username {
                Some(n) => {
                    self.usernames.insert(uid, n.clone());
                    n
                },
                None => return None,
            },
        };
        let display = if session_type == SessionType::X11 {
            self.get_display_for_user(uid)
        } else {
            None
        };
        Some(
            UserSession {
                uid,
                username: name,
                display,
                dbus_address: dbus_address_for(uid),
                session_type,
            },
        )
    }

    /// The descriptor of user `uid`: the cached one, else one discovered from
    /// `username` and `session_type` (see `discover_session`) and cached.
    pub fn get_session(
        &mut self,
        uid: u32,
        username: Option<String>,
        session_type: SessionType,
    ) -> (r: Option<UserSession>)
        ensures
            old(self).cached().contains_key(uid) ==> {
                &&& r == Some(old(self).cached()[uid])
                &&& final(self).cached() == old(self).cached()
                &&& final(self).names() == old(self).names()
            },
            !old(self).cached().contains_key(uid) ==> {
                &&& r is None ==> final(self).cached() == old(self).cached()
                &&& r matches Some(s) ==> final(self).cached() == old(self).cached().insert(
                    uid,
                    s,
                )
                &&& old(self).names().contains_key(uid) ==> {
                    &&& final(self).names() == old(self).names()
                    &&& r matches Some(s) && describes(
                        s,
                        uid,
                        old(self).names()[uid]@,
                        session_type,
                    )
                }
                &&& !old(self).names().contains_key(uid) ==> match username {
                    Some(n) => {
                        &&& final(self).names() == old(self).names().insert(uid, n)
                        &&& r matches Some(s) && describes(s, uid, n@, session_type)
                    },
                    None => final(self).names() == old(self).names() && r is None,
                }
            },
    {
        if let Some(s) = self.sessions.get(&uid) {
            return Some(s.clone());
        }
        match self.discover_session(uid, username, session_type) {
            Some(s) => {
                self.sessions.insert(uid, s.clone());
                Some(s)
            },
            None => None,
        }
    }

    /// Forgets every cached descriptor; resolved names are kept.
    pub fn clear_cache(&mut self)
        ensures
            final(self).cached() == Map::<u32, UserSession>::empty(),
            final(self).names() == old(self).names(),
    {
        self.sessions.clear();
    }
}

impl Default for SessionDiscovery {
    fn default() -> (r: Self)
        ensures
            r.cached() == Map::<u32, UserSession>::empty(),
            r.names() == Map::<u32, String>::empty(),
    {
        SessionDiscovery::new()
    }
}

} // verus!
