use crate::queue::Message;
use crate::registry::{head_of, pushed, queue_of};
use vstd::prelude::*;

verus! {

/// How long a timed pop sleeps between two probes, in nanoseconds.
pub const PROBE_INTERVAL_NANOS: u64 = 10_000_000;

/// What the caller of a timed pop does after a probe.
pub enum PollAction {
    /// A message was found: hand it out and stop.
    Deliver(Message),
    /// Nothing was found and the deadline has passed: report empty and stop.
    GiveUp,
    /// Nothing was found yet: sleep this many nanoseconds, then probe again.
    Sleep(u64),
}

/// The deadline of a pop that starts at `now` (nanoseconds on a monotonic
/// clock) with an optional timeout; no timeout means a single probe. A
/// deadline past the clock's range is held at its end.
pub open spec fn deadline_after(timeout: Option<u64>, now: u64) -> Option<u64> {
    match timeout {
        None => None,
        Some(t) => if now + t <= u64::MAX {
            Some((now + t) as u64)
        } else {
            Some(u64::MAX)
        },
    }
}

/// The decision after a probe that found `probe` at time `now`.
pub open spec fn next_action(deadline: Option<u64>, probe: Option<Message>, now: u64) -> PollAction {
    match probe {
        Some(m) => PollAction::Deliver(m),
        None => match deadline {
            Some(d) => if now < d {
                PollAction::Sleep(PROBE_INTERVAL_NANOS)
            } else {
                PollAction::GiveUp
            },
            None => PollAction::GiveUp,
        },
    }
}

/// A pop that waits: probes until a message is found or the deadline passes.
pub struct TimedPop {
    /// The time after which a failed probe ends the wait; `None` for a pop
    /// without a timeout, which probes once.
    pub deadline: Option<u64>,
}

impl TimedPop {
    /// Starts a pop at time `now` with an optional timeout in nanoseconds.
    pub fn start(timeout: Option<u64>, now: u64) -> (w: TimedPop)
        ensures
            w.deadline == deadline_after(timeout, now),
    {
        match timeout {
            None => TimedPop { deadline: None },
            Some(t) => {
                if t <= u64::MAX - now {
                    TimedPop { deadline: Some(now + t) }
                } else {
                    TimedPop { deadline: Some(u64::MAX) }
                }
            },
        }
    }

    /// Decides what follows a probe that found `probe` at time `now`: a found
    /// message is handed out at once; otherwise the pop sleeps one probing
    /// interval while the deadline lies ahead, and gives up once it is reached.
    pub fn step(&self, probe: Option<Message>, now: u64) -> (a: PollAction)
        ensures
            a == next_action(self.deadline, probe, now),
    {
        match probe {
            Some(m) => PollAction::Deliver(m),
            None => match self.deadline {
                Some(d) => {
                    if now < d {
                        PollAction::Sleep(PROBE_INTERVAL_NANOS)
                    } else {
                        PollAction::GiveUp
                    }
                },
                None => PollAction::GiveUp,
            },
        }
    }
}

/// A message already queued is handed out by the first probe of a pop,
/// whatever its timeout and whenever that probe runs: no waiting.
pub proof fn immediate_hit(
    m: Map<Seq<char>, Seq<Message>>,
    key: Seq<char>,
    timeout: Option<u64>,
    start: u64,
    now: u64,
)
    requires
        queue_of(m, key).len() > 0,
    ensures
        next_action(deadline_after(timeout, start), head_of(m, key), now) == PollAction::Deliver(
            queue_of(m, key)[0],
        ),
{
}

/// While the queue is empty and the deadline lies ahead, a pop sleeps no more
/// than one probing interval at a time; once a message is pushed, the next
/// probe hands it out, before or after the deadline alike.
pub proof fn wait_then_hit(
    m: Map<Seq<char>, Seq<Message>>,
    key: Seq<char>,
    message: Message,
    timeout: u64,
    start: u64,
    now: u64,
    later: u64,
)
    requires
        queue_of(m, key).len() == 0,
        start + timeout <= u64::MAX,
        now < start + timeout,
    ensures
        next_action(deadline_after(Some(timeout), start), head_of(m, key), now)
            == PollAction::Sleep(PROBE_INTERVAL_NANOS),
        next_action(deadline_after(Some(timeout), start), head_of(pushed(m, key, message), key), later)
            == PollAction::Deliver(message),
{
    assert(queue_of(pushed(m, key, message), key) =~= seq![message]);
}

/// A pop on an empty queue gives up no earlier than its deadline, and the
/// last sleep before that ends less than one probing interval after it. A
/// pop without a timeout gives up after its single probe.
pub proof fn expiry_bounds(timeout: u64, start: u64, now: u64)
    requires
        start + timeout <= u64::MAX,
    ensures
        next_action(deadline_after(Some(timeout), start), None, now) is GiveUp ==> now >= start
            + timeout,
        forall|s: u64|
            #[trigger] next_action(deadline_after(Some(timeout), start), None, now)
                == PollAction::Sleep(s) ==> now < start + timeout && now + s < start + timeout
                + PROBE_INTERVAL_NANOS,
        next_action(deadline_after(None, start), None, now) is GiveUp,
{
}

} // verus!
