//! Events of the SSH side, and how much of them one update takes.

use vstd::prelude::*;

use crate::tabs;
use crate::tabs::TerminalTab;

verus! {

/// Least time between two drains the SSH side wakes, in nanoseconds: about a
/// frame at 60 Hz.
pub const WAKE_MIN_GAP: u128 = 16_000_000;

/// A timer drain, beside the wakes, while something on screen moves with no
/// message of its own.
pub const LIVE_POLL: u128 = 50_000_000;

/// The slow timer under the wakes wherever output or a challenge can arrive,
/// so that a missed wake could never strand either.
pub const SAFETY_POLL: u128 = 1_000_000_000;

/// Most terminal output one drain feeds to the grids. What a drain leaves
/// stays queued, in order.
pub const SSH_DRAIN_BYTES: usize = 262_144;

/// Most events one drain takes, whatever they carry.
pub const SSH_DRAIN_EVENTS: usize = 1024;

/// When a wake that came at `now` may drain.
pub open spec fn drain_time(last: Option<u128>, now: u128) -> int {
    match last {
        Some(last) => if last + WAKE_MIN_GAP > now {
            last + WAKE_MIN_GAP
        } else {
            now as int
        },
        None => now as int,
    }
}

/// When a wake that came at `now` may drain: at once, unless the last
/// wake-driven drain began less than [`WAKE_MIN_GAP`] before.
pub fn wake_drain_at(last: Option<u128>, now: u128) -> (at: u128)
    requires
        last matches Some(t) ==> t + WAKE_MIN_GAP <= u128::MAX,
    ensures
        at == drain_time(last, now),
{
    match last {
        Some(last) => if last + WAKE_MIN_GAP > now {
            last + WAKE_MIN_GAP
        } else {
            now
        },
        None => now,
    }
}

/// Two drains that wakes start never begin closer together than the gap, and
/// a drain is never put off longer than that.
pub proof fn law_drains_keep_their_distance(last: u128, now: u128)
    requires
        last <= now,
    ensures
        drain_time(Some(last), now) >= last + WAKE_MIN_GAP,
        now <= drain_time(Some(last), now) <= now + WAKE_MIN_GAP,
{
}

/// How often a drain also runs on a timer, if at all.
pub open spec fn polled(on_main: bool, sessions: bool, challenge: bool, progress: bool) -> Option<u128> {
    if on_main && (challenge || progress) {
        Some(LIVE_POLL)
    } else if on_main || sessions || challenge {
        Some(SAFETY_POLL)
    } else {
        None
    }
}

/// How often a drain also runs on a timer, if at all. The wakes do the work;
/// nothing is left to poll for on the setup screen, or on the lock screen
/// with no session and no challenge.
pub fn poll_interval(
    on_main: bool,
    sessions: bool,
    challenge_waiting: bool,
    progress_moving: bool,
) -> (r: Option<u128>)
    ensures
        r == polled(on_main, sessions, challenge_waiting, progress_moving),
{
    if on_main && (challenge_waiting || progress_moving) {
        Some(LIVE_POLL)
    } else if on_main || sessions || challenge_waiting {
        Some(SAFETY_POLL)
    } else {
        None
    }
}

// ---- the budget of a drain -------------------------------------------------------------------

/// What one drain may still take.
#[derive(Debug, Clone, Copy, PartialEq, Eq, Structural)]
pub struct DrainBudget {
    pub bytes: usize,
    pub events: usize,
}

impl DrainBudget {
    pub fn new(bytes: usize, events: usize) -> (r: DrainBudget)
        ensures
            r == (DrainBudget { bytes, events }),
    {
        DrainBudget { bytes, events }
    }

    pub open spec fn room(&self) -> bool {
        self.bytes > 0 && self.events > 0
    }

    /// Whether another event may be taken. Asked before one is taken: an
    /// event once off the queue is handled whole, never put back.
    pub fn has_room(&self) -> (r: bool)
        ensures
            r == self.room(),
    {
        self.bytes > 0 && self.events > 0
    }

    /// What is left after an event carrying `bytes`.
    pub open spec fn charged(&self, bytes: usize) -> DrainBudget {
        DrainBudget {
            bytes: if self.bytes >= bytes {
                (self.bytes - bytes) as usize
            } else {
                0
            },
            events: if self.events >= 1 {
                (self.events - 1) as usize
            } else {
                0
            },
        }
    }

    /// Count one event carrying `bytes` of output. The event that crosses
    /// the line is still handled whole: a drain may overshoot its byte
    /// budget by one event, and never splits one.
    pub fn charge(&mut self, bytes: usize)
        ensures
            *final(self) == old(self).charged(bytes),
    {
        self.bytes = if self.bytes >= bytes {
            self.bytes - bytes
        } else {
            0
        };
        self.events = if self.events >= 1 {
            self.events - 1
        } else {
            0
        };
    }
}

/// Every event taken brings a drain closer to its end.
pub proof fn law_a_drain_ends(budget: DrainBudget, bytes: usize)
    requires
        budget.room(),
    ensures
        budget.charged(bytes).events < budget.events,
        budget.charged(bytes).bytes <= budget.bytes,
{
}

// ---- events ----------------------------------------------------------------------------------

#[derive(Debug)]
pub enum SshEvent {
    Data { session_id: String, data: Vec<u8> },
    Closed { session_id: String },
    Error { session_id: String, error: String },
    Reconnecting { session_id: String, attempt: u32 },
    Reconnected { session_id: String },
}

/// The output that an event carries, in bytes.
pub open spec fn weight(event: SshEvent) -> usize {
    match event {
        SshEvent::Data { data, .. } => data@.len() as usize,
        _ => 0,
    }
}

/// What an event weighs against a drain's byte budget: the output it carries.
pub fn ssh_event_bytes(event: &SshEvent) -> (n: usize)
    ensures
        n == weight(*event),
{
    match event {
        SshEvent::Data { data, .. } => data.len(),
        _ => 0,
    }
}

pub open spec fn session_of(event: SshEvent) -> Seq<char> {
    match event {
        SshEvent::Data { session_id, .. } => session_id@,
        SshEvent::Closed { session_id } => session_id@,
        SshEvent::Error { session_id, .. } => session_id@,
        SshEvent::Reconnecting { session_id, .. } => session_id@,
        SshEvent::Reconnected { session_id } => session_id@,
    }
}

/// The session an event is about.
pub fn ssh_event_session(event: &SshEvent) -> (r: &str)
    ensures
        r@ == session_of(*event),
{
    match event {
        SshEvent::Data { session_id, .. } => session_id.as_str(),
        SshEvent::Closed { session_id } => session_id.as_str(),
        SshEvent::Error { session_id, .. } => session_id.as_str(),
        SshEvent::Reconnecting { session_id, .. } => session_id.as_str(),
        SshEvent::Reconnected { session_id } => session_id.as_str(),
    }
}

/// The next event of the queue while `budget` has room, charged to it. What
/// is not taken stays queued, in order, for the next drain.
pub fn take_within(queue: &mut Vec<SshEvent>, budget: &mut DrainBudget) -> (r: Option<SshEvent>)
    ensures
        !(old(budget).room() && old(queue)@.len() > 0) ==> r is None && final(queue)@ == old(queue)@
            && *final(budget) == *old(budget),
        old(budget).room() && old(queue)@.len() > 0 ==> r == Some(old(queue)@[0]) && final(queue)@
            == old(queue)@.drop_first() && *final(budget) == old(budget).charged(
            weight(old(queue)@[0]),
        ),
{
    if !budget.has_room() || queue.len() == 0 {
        return None;
    }
    let event = queue.remove(0);
    assert(queue@ =~= old(queue)@.drop_first());
    budget.charge(ssh_event_bytes(&event));
    Some(event)
}

/// What a drain finds next.
pub open spec fn due(held: Option<SshEvent>, queue: Seq<SshEvent>, budget: DrainBudget) -> Option<SshEvent> {
    if held is Some {
        held
    } else if budget.room() && queue.len() > 0 {
        Some(queue[0])
    } else {
        None
    }
}

/// The next event for a drain, in arrival order.
///
/// An event held back earlier comes first. `None` ends the drain: the queue
/// is empty, `budget` is spent, or the event now due belongs to a session
/// still connecting. That event is kept in `held`, ahead of everything still
/// queued, until the session has a pane to show it. A server that prints the
/// moment its shell starts can send output before the connect has returned.
pub fn next_ssh_event(
    held: &mut Option<SshEvent>,
    queue: &mut Vec<SshEvent>,
    budget: &mut DrainBudget,
    open: &Vec<TerminalTab>,
) -> (r: Option<SshEvent>)
    ensures
        ({
            let next = due(*old(held), old(queue)@, *old(budget));
            let taken = *old(held) is None && next is Some;
            &&& match next {
                Some(e) => if tabs::connecting(open@, session_of(e)) {
                    r is None && *final(held) == Some(e)
                } else {
                    r == Some(e) && *final(held) == None::<SshEvent>
                },
                None => r is None && *final(held) == None::<SshEvent>,
            }
            &&& final(queue)@ == (if taken {
                old(queue)@.drop_first()
            } else {
                old(queue)@
            })
            &&& *final(budget) == (if taken {
                old(budget).charged(weight(old(queue)@[0]))
            } else {
                *old(budget)
            })
        }),
{
    let mut first: Option<SshEvent> = None;
    std::mem::swap(held, &mut first);
    let event = match first {
        Some(e) => e,
        None => match take_within(queue, budget) {
            Some(e) => e,
            None => {
                return None;
            },
        },
    };
    if tabs::session_connecting(open, ssh_event_session(&event)) {
        *held = Some(event);
        return None;
    }
    Some(event)
}

/// No event is lost or overtaken: what is held and what is queued after a
/// step, with the event that came out in front of it, is what was held and
/// queued before.
pub proof fn law_events_keep_their_order(
    held: Option<SshEvent>,
    queue: Seq<SshEvent>,
    budget: DrainBudget,
    came: Option<SshEvent>,
    held_after: Option<SshEvent>,
    queue_after: Seq<SshEvent>,
)
    requires
        ({
            let next = due(held, queue, budget);
            &&& (came == next && held_after is None) || (came is None && held_after == next)
            &&& queue_after == (if held is None && next is Some {
                queue.drop_first()
            } else {
                queue
            })
        }),
    ensures
        opt_seq(came) + opt_seq(held_after) + queue_after == opt_seq(held) + queue,
{
    assert(opt_seq(came) + opt_seq(held_after) + queue_after =~= opt_seq(held) + queue);
}

pub open spec fn opt_seq<T>(o: Option<T>) -> Seq<T> {
    match o {
        Some(x) => seq![x],
        None => Seq::empty(),
    }
}

} // verus!
