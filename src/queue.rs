use std::collections::VecDeque;
use vstd::prelude::*;

verus! {

/// An opaque payload: any bytes, of any length.
pub type Message = Vec<u8>;

/// The messages stored under one name, oldest first.
pub struct Queue {
    messages: VecDeque<Message>,
}

impl View for Queue {
    type V = Seq<Message>;

    closed spec fn view(&self) -> Seq<Message> {
        self.messages@
    }
}

impl Queue {
    /// An empty queue.
    pub fn new() -> (q: Queue)
        ensures
            q@ == Seq::<Message>::empty(),
    {
        Queue { messages: VecDeque::new() }
    }

    /// Appends `message` at the tail.
    pub fn push(&mut self, message: Message)
        ensures
            final(self)@ == old(self)@.push(message),
    {
        self.messages.push_back(message)
    }

    /// Removes and returns the head, or returns `None` when the queue is empty.
    pub fn pop(&mut self) -> (r: Option<Message>)
        ensures
            old(self)@.len() == 0 ==> r is None && final(self)@ == old(self)@,
            old(self)@.len() > 0 ==> r == Some(old(self)@[0]) && final(self)@ == old(self)@.drop_first(),
    {
        self.messages.pop_front()
    }

    /// The number of messages waiting.
    pub fn len(&self) -> (n: usize)
        ensures
            n == self@.len(),
    {
        self.messages.len()
    }
}

} // verus!
