use msg_queue::waiter::{PollAction, TimedPop, PROBE_INTERVAL_NANOS};
use msg_queue::{request_timeout, response_status, Message, Queue, QueueRegistry};

const SECOND: u64 = 1_000_000_000;

fn msg(s: &str) -> Message {
    s.as_bytes().to_vec()
}

/// Runs a timed pop on `key` against a simulated clock that starts at zero;
/// `event` may change the registry at each probe time. Returns the outcome and
/// the time at which the pop ended.
fn run_pop(
    reg: &mut QueueRegistry,
    key: &str,
    timeout: Option<u64>,
    mut event: impl FnMut(&mut QueueRegistry, u64),
) -> (Option<Message>, u64) {
    let mut now: u64 = 0;
    let waiter = TimedPop::start(timeout, now);
    loop {
        event(reg, now);
        let probe = reg.pop_now(key);
        match waiter.step(probe, now) {
            PollAction::Deliver(m) => return (Some(m), now),
            PollAction::GiveUp => return (None, now),
            PollAction::Sleep(d) => now += d,
        }
    }
}

#[test]
fn test_fifo() {
    let mut reg = QueueRegistry::new();
    assert_eq!(response_status(&reg.pop_now("test")), 404);
    reg.push("test", msg("one"));
    reg.push("test", msg("two"));
    assert_eq!(reg.pop_now("test"), Some(msg("one")));
    assert_eq!(reg.pop_now("test"), Some(msg("two")));
    assert_eq!(response_status(&reg.pop_now("test")), 404);
}

#[test]
fn test_blocking() {
    let mut reg = QueueRegistry::new();
    assert_eq!(response_status(&reg.pop_now("test")), 404);
    assert_eq!(response_status(&reg.pop_now("test")), 404);
    let pairs = vec![("timeout".to_string(), "5s".to_string())];
    let timeout = request_timeout(&pairs).unwrap();
    assert_eq!(timeout, Some(5 * SECOND));
    let (found, at) = run_pop(&mut reg, "test", timeout, |r, now| {
        if now == 3 * SECOND {
            r.push("test", msg("one"));
        }
    });
    assert_eq!(found, Some(msg("one")));
    assert_eq!(response_status(&found), 200);
    assert!(at >= 3 * SECOND && at <= 3 * SECOND + PROBE_INTERVAL_NANOS);
}

#[test]
fn fifo_third_pop_is_empty() {
    let mut reg = QueueRegistry::new();
    reg.push("q", msg("one"));
    reg.push("q", msg("two"));
    assert_eq!(reg.pop_now("q"), Some(msg("one")));
    assert_eq!(reg.pop_now("q"), Some(msg("two")));
    assert_eq!(reg.pop_now("q"), None);
}

#[test]
fn unknown_key_leaves_no_queue() {
    let mut reg = QueueRegistry::new();
    assert_eq!(reg.pop_now("never"), None);
    assert!(!reg.contains("never"));
    assert_eq!(reg.queue_len("never"), 0);
    reg.push("never", msg("x"));
    assert_eq!(reg.pop_now("never"), Some(msg("x")));
}

#[test]
fn drained_queue_persists() {
    let mut reg = QueueRegistry::new();
    reg.push("q", msg("a"));
    assert_eq!(reg.pop_now("q"), Some(msg("a")));
    assert!(reg.contains("q"));
    assert_eq!(reg.queue_len("q"), 0);
}

#[test]
fn keys_are_independent() {
    let mut reg = QueueRegistry::new();
    reg.push("a", msg("1"));
    reg.push("b", msg("2"));
    reg.push("a", msg("3"));
    assert_eq!(reg.queue_len("a"), 2);
    assert_eq!(reg.pop_now("b"), Some(msg("2")));
    assert_eq!(reg.pop_now("b"), None);
    assert_eq!(reg.pop_now("a"), Some(msg("1")));
    assert_eq!(reg.pop_now("a"), Some(msg("3")));
}

#[test]
fn empty_and_binary_payloads() {
    let mut reg = QueueRegistry::new();
    reg.push("", Vec::new());
    reg.push("", vec![0, 255, 0]);
    assert_eq!(reg.pop_now(""), Some(Vec::new()));
    assert_eq!(reg.pop_now(""), Some(vec![0, 255, 0]));
    assert_eq!(reg.pop_now(""), None);
}

#[test]
fn interleaved_pushes_and_pops_keep_order() {
    let mut reg = QueueRegistry::new();
    let mut popped = Vec::new();
    for i in 0..20u8 {
        reg.push("k", vec![i]);
        if i % 3 == 0 {
            if let Some(m) = reg.pop_now("k") {
                popped.push(m);
            }
        }
    }
    while let Some(m) = reg.pop_now("k") {
        popped.push(m);
    }
    let expected: Vec<Message> = (0..20u8).map(|i| vec![i]).collect();
    assert_eq!(popped, expected);
}

#[test]
fn queue_basics() {
    let mut q = Queue::new();
    assert_eq!(q.len(), 0);
    assert_eq!(q.pop(), None);
    q.push(msg("a"));
    q.push(msg("b"));
    assert_eq!(q.len(), 2);
    assert_eq!(q.pop(), Some(msg("a")));
    assert_eq!(q.pop(), Some(msg("b")));
    assert_eq!(q.pop(), None);
}

#[test]
fn immediate_hit_does_not_wait() {
    let mut reg = QueueRegistry::new();
    reg.push("q", msg("ready"));
    let (found, at) = run_pop(&mut reg, "q", Some(5 * SECOND), |_, _| {});
    assert_eq!(found, Some(msg("ready")));
    assert_eq!(at, 0);
    reg.push("q", msg("zero"));
    let (found, at) = run_pop(&mut reg, "q", Some(0), |_, _| {});
    assert_eq!(found, Some(msg("zero")));
    assert_eq!(at, 0);
}

#[test]
fn expiry_on_empty_queue() {
    let mut reg = QueueRegistry::new();
    let (found, at) = run_pop(&mut reg, "q", Some(SECOND), |_, _| {});
    assert_eq!(found, None);
    assert!(at >= SECOND);
    assert!(at < SECOND + PROBE_INTERVAL_NANOS);
}

#[test]
fn no_timeout_probes_once() {
    let mut reg = QueueRegistry::new();
    let (found, at) = run_pop(&mut reg, "q", None, |_, _| {});
    assert_eq!(found, None);
    assert_eq!(at, 0);
}

#[test]
fn step_decisions() {
    let w = TimedPop::start(Some(100), 50);
    assert_eq!(w.deadline, Some(150));
    assert!(matches!(w.step(None, 149), PollAction::Sleep(PROBE_INTERVAL_NANOS)));
    assert!(matches!(w.step(None, 150), PollAction::GiveUp));
    assert!(matches!(w.step(Some(msg("m")), 10_000), PollAction::Deliver(m) if m == msg("m")));
    let once = TimedPop::start(None, 7);
    assert_eq!(once.deadline, None);
    assert!(matches!(once.step(None, 7), PollAction::GiveUp));
}

#[test]
fn deadline_saturates() {
    let w = TimedPop::start(Some(u64::MAX), 10);
    assert_eq!(w.deadline, Some(u64::MAX));
    assert!(matches!(w.step(None, u64::MAX - 1), PollAction::Sleep(_)));
}
