//! Fetches on their way, sessions whose monitoring is parked, and the network's
//! speed.

use vstd::prelude::*;

use crate::catalog::Catalog;
use crate::names::{NameMap, NameSet};
use crate::text;

verus! {

// ---- fetches on their way -----------------------------------------------------------

/// Sessions with a fetch out on a blocking thread, one set per kind of fetch.
///
/// Monitor and ports fetches queue on a session's exec connection, which a
/// folder transfer holds for its whole length. A session gets its next fetch
/// only once the last one is back; other sessions are not held up.
#[derive(Debug)]
pub struct InFlight {
    pub sessions: NameSet,
}

impl View for InFlight {
    type V = Set<Seq<char>>;

    open spec fn view(&self) -> Set<Seq<char>> {
        self.sessions@
    }
}

impl InFlight {
    pub fn new() -> (r: InFlight)
        ensures
            r@ == Set::<Seq<char>>::empty(),
    {
        InFlight { sessions: NameSet::new() }
    }

    /// Claim the fetch for `session_id`: false — skip this tick — while the
    /// previous one is still out, or when there is no session to ask.
    pub fn start(&mut self, session_id: &str) -> (claimed: bool)
        ensures
            claimed == (session_id@.len() > 0 && !old(self)@.contains(session_id@)),
            final(self)@ == (if session_id@.len() > 0 {
                old(self)@.insert(session_id@)
            } else {
                old(self)@
            }),
    {
        if session_id.is_empty() {
            false
        } else {
            self.sessions.insert(session_id.to_owned())
        }
    }

    /// The fetch for `session_id` came back, answered or not.
    pub fn finish(&mut self, session_id: &str)
        ensures
            final(self)@ == old(self)@.remove(session_id@),
    {
        let _was = self.sessions.remove(session_id);
    }

    pub fn contains(&self, session_id: &str) -> (r: bool)
        ensures
            r == self@.contains(session_id@),
    {
        self.sessions.contains(session_id)
    }
}

// ---- parked sessions -------------------------------------------------------------------

/// One parked session.
#[derive(Debug)]
pub struct ParkedMonitor {
    /// The reconnect is out. The button stays off until it is back: one
    /// press, one challenge.
    pub resuming: bool,
    /// Why the last reconnect failed.
    pub error: Option<String>,
}

/// Sessions whose monitoring is parked (see [`exec_parked`]), with the
/// reconnect the monitor panel's one button sends for each.
#[derive(Debug)]
pub struct ParkedMonitors {
    pub sessions: NameMap<ParkedMonitor>,
}

impl View for ParkedMonitors {
    type V = Map<Seq<char>, ParkedMonitor>;

    open spec fn view(&self) -> Map<Seq<char>, ParkedMonitor> {
        self.sessions@
    }
}

/// A session just parked.
pub open spec fn freshly_parked() -> ParkedMonitor {
    ParkedMonitor { resuming: false, error: None }
}

/// A session whose reconnect is out.
pub open spec fn being_resumed() -> ParkedMonitor {
    ParkedMonitor { resuming: true, error: None }
}

impl ParkedMonitors {
    pub fn new() -> (r: ParkedMonitors)
        ensures
            r@ == Map::<Seq<char>, ParkedMonitor>::empty(),
    {
        ParkedMonitors { sessions: NameMap::new() }
    }

    /// The session is parked and no reconnect is out for it.
    pub open spec fn may_resume(&self, session_id: Seq<char>) -> bool {
        self@.contains_key(session_id) && !self@[session_id].resuming
    }

    /// A fetch found `session_id` parked. True the first time.
    pub fn park(&mut self, session_id: &str) -> (first: bool)
        ensures
            first == !old(self)@.contains_key(session_id@),
            final(self)@ == (if first {
                old(self)@.insert(session_id@, freshly_parked())
            } else {
                old(self)@
            }),
    {
        if self.sessions.contains_key(session_id) {
            return false;
        }
        self.sessions.insert(session_id.to_owned(), ParkedMonitor { resuming: false, error: None });
        true
    }

    /// A fetch came back with data, or the session is gone.
    pub fn unpark(&mut self, session_id: &str)
        ensures
            final(self)@ == old(self)@.remove(session_id@),
    {
        let _was = self.sessions.remove(session_id);
    }

    pub fn get(&self, session_id: &str) -> (r: Option<&ParkedMonitor>)
        ensures
            match r {
                Some(p) => self@.contains_key(session_id@) && *p == self@[session_id@],
                None => !self@.contains_key(session_id@),
            },
    {
        self.sessions.get(session_id)
    }

    /// "Reconnect monitoring" was pressed. True when the caller is to send
    /// the reconnect: the session is parked, and none is out already.
    pub fn begin_resume(&mut self, session_id: &str) -> (send: bool)
        ensures
            send == old(self).may_resume(session_id@),
            final(self)@ == (if send {
                old(self)@.insert(session_id@, being_resumed())
            } else {
                old(self)@
            }),
    {
        let free = match self.sessions.get(session_id) {
            Some(p) => !p.resuming,
            None => false,
        };
        if free {
            self.sessions.insert(session_id.to_owned(), ParkedMonitor { resuming: true, error: None });
        }
        free
    }

    /// The reconnect came back. True when it re-opened a parked connection.
    pub fn finish_resume(&mut self, session_id: &str, result: Result<(), String>) -> (reopened: bool)
        ensures
            reopened == (result is Ok && old(self)@.contains_key(session_id@)),
            final(self)@ == (match result {
                Ok(_) => old(self)@.remove(session_id@),
                Err(e) => if old(self)@.contains_key(session_id@) {
                    old(self)@.insert(
                        session_id@,
                        ParkedMonitor { resuming: false, error: Some(e) },
                    )
                } else {
                    old(self)@
                },
            }),
    {
        match result {
            Ok(_) => self.sessions.remove(session_id).is_some(),
            Err(e) => {
                if self.sessions.contains_key(session_id) {
                    self.sessions.insert(
                        session_id.to_owned(),
                        ParkedMonitor { resuming: false, error: Some(e) },
                    );
                }
                false
            },
        }
    }
}

/// One press of "Reconnect monitoring" sends one reconnect: until it is back
/// no further press sends another.
pub proof fn law_one_reconnect_at_a_time(
    parked: ParkedMonitors,
    pressed: ParkedMonitors,
    session_id: Seq<char>,
)
    requires
        pressed@ == parked@.insert(session_id, being_resumed()),
    ensures
        !pressed.may_resume(session_id),
{
}

/// A session that has claimed its fetch gets no second one before the first
/// is back, and other sessions are not held up.
pub proof fn law_one_fetch_per_session(
    before: Set<Seq<char>>,
    claimed: Set<Seq<char>>,
    session_id: Seq<char>,
    other: Seq<char>,
)
    requires
        claimed == before.insert(session_id),
        other != session_id,
    ensures
        claimed.contains(session_id),
        claimed.contains(other) == before.contains(other),
        !claimed.remove(session_id).contains(session_id),
{
}

/// The SSH layer's words for a parked exec connection.
pub open spec fn says_parked(error: Seq<char>, texts: Catalog) -> bool {
    error == texts.says("exec.err.needs_reconnect"@)
}

/// Whether a monitor fetch failed because the SSH layer has parked the
/// session's exec connection: keyboard-interactive, where re-opening it is a
/// new challenge, so it waits for the user. Told by the SSH layer's own words
/// for it.
pub fn exec_parked(error: &str, texts: &Catalog) -> (r: bool)
    ensures
        r == says_parked(error@, *texts),
{
    let words = texts.t("exec.err.needs_reconnect");
    text::same_text(error, words.as_str())
}

// ---- the network's speed --------------------------------------------------------------

/// What a host's network counters said, and when.
#[derive(Debug, Clone, Copy, PartialEq, Eq, Structural)]
pub struct NetCounters {
    pub rx: u64,
    pub tx: u64,
    pub at: u128,
}

/// What came and went between two reads, and in how many nanoseconds.
#[derive(Debug, Clone, Copy, PartialEq, Eq, Structural)]
pub struct NetGrowth {
    pub rx: u64,
    pub tx: u64,
    pub nanos: u128,
}

/// Reads closer together than this tell no speed.
pub const NET_MIN_GAP: u128 = 500_000_000;

/// The two reads tell a speed: they are far enough apart, the first one had
/// counted something, and the counter has not started over in between.
pub open spec fn tells_speed(before: NetCounters, now: NetCounters) -> bool {
    now.at > before.at + NET_MIN_GAP && before.rx > 0 && now.rx >= before.rx
}

/// What the network moved since the last read, where that tells a speed.
pub fn net_growth(before: Option<NetCounters>, now: NetCounters) -> (r: Option<NetGrowth>)
    requires
        before matches Some(b) ==> tells_speed(b, now) ==> now.tx >= b.tx,
    ensures
        match before {
            Some(b) => if tells_speed(b, now) {
                r == Some(
                    NetGrowth {
                        rx: (now.rx - b.rx) as u64,
                        tx: (now.tx - b.tx) as u64,
                        nanos: (now.at - b.at) as u128,
                    },
                )
            } else {
                r is None
            },
            None => r is None,
        },
{
    match before {
        Some(b) => {
            if now.at > b.at && now.at - b.at > NET_MIN_GAP && b.rx > 0 && now.rx >= b.rx {
                Some(NetGrowth { rx: now.rx - b.rx, tx: now.tx - b.tx, nanos: now.at - b.at })
            } else {
                None
            }
        },
        None => None,
    }
}

} // verus!
