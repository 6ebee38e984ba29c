//! An in-memory store of named FIFO message queues, with the decision logic
//! of a bounded-wait pop and the helpers that read a pop request's timeout.

pub mod queue;
pub mod registry;
pub mod request;
pub mod waiter;

pub use queue::{Message, Queue};
pub use registry::QueueRegistry;
pub use request::{
    parse_timeout, request_timeout, response_status, timeout_from_parsed, timeout_param,
    TimeoutError,
};
pub use waiter::{PollAction, TimedPop, PROBE_INTERVAL_NANOS};
