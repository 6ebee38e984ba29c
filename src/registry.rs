use crate::queue::{Message, Queue};
use vstd::prelude::*;

verus! {

/// What a name holds in a registry model: its queue, or nothing for a name
/// that was never pushed to. An unknown name reads as an empty queue.
pub open spec fn queue_of(m: Map<Seq<char>, Seq<Message>>, key: Seq<char>) -> Seq<Message> {
    if m.contains_key(key) {
        m[key]
    } else {
        Seq::empty()
    }
}

/// The model after `message` is appended to the queue of `key`; the queue is
/// created on the first push.
pub open spec fn pushed(
    m: Map<Seq<char>, Seq<Message>>,
    key: Seq<char>,
    message: Message,
) -> Map<Seq<char>, Seq<Message>> {
    m.insert(key, queue_of(m, key).push(message))
}

/// The head of the queue of `key`, if there is one.
pub open spec fn head_of(m: Map<Seq<char>, Seq<Message>>, key: Seq<char>) -> Option<Message> {
    if queue_of(m, key).len() > 0 {
        Some(queue_of(m, key)[0])
    } else {
        None
    }
}

/// The model after a non-blocking pop on `key`: the head is gone, and an empty
/// or unknown queue is left as it was.
pub open spec fn popped(m: Map<Seq<char>, Seq<Message>>, key: Seq<char>) -> Map<
    Seq<char>,
    Seq<Message>,
> {
    if queue_of(m, key).len() > 0 {
        m.insert(key, queue_of(m, key).drop_first())
    } else {
        m
    }
}

/// All named queues. Each name appears once; a queue, once created, stays,
/// also when it has been drained.
pub struct QueueRegistry {
    names: Vec<String>,
    queues: Vec<Queue>,
    model: Ghost<Map<Seq<char>, Seq<Message>>>,
}

impl View for QueueRegistry {
    type V = Map<Seq<char>, Seq<Message>>;

    closed spec fn view(&self) -> Map<Seq<char>, Seq<Message>> {
        self.model@
    }
}

impl QueueRegistry {
    /// The names are distinct, each one's queue is at the same position, and
    /// the model maps exactly the stored names to their queues.
    pub closed spec fn wf(&self) -> bool {
        &&& self.names@.len() == self.queues@.len()
        &&& forall|i: int, j: int|
            0 <= i < j < self.names@.len() ==> #[trigger] self.names@[i]@
                != #[trigger] self.names@[j]@
        &&& forall|i: int|
            0 <= i < self.names@.len() ==> #[trigger] self.model@.contains_key(self.names@[i]@)
                && self.model@[self.names@[i]@] == self.queues@[i]@
        &&& forall|k: Seq<char>|
            #[trigger] self.model@.contains_key(k) ==> exists|i: int|
                0 <= i < self.names@.len() && #[trigger] self.names@[i]@ == k
    }

    /// A registry with no queues.
    pub fn new() -> (r: QueueRegistry)
        ensures
            r.wf(),
            r@ == Map::<Seq<char>, Seq<Message>>::empty(),
    {
        QueueRegistry { names: Vec::new(), queues: Vec::new(), model: Ghost(Map::empty()) }
    }

    /// The position of `key` among the names, if it is there.
    fn position(&self, key: &str) -> (r: Option<usize>)
        requires
            self.wf(),
        ensures
            match r {
                Some(i) => i < self.names@.len() && self.names@[i as int]@ == key@,
                None => !self@.contains_key(key@),
            },
    {
        let wanted = key.to_owned();
        let mut i: usize = 0;
        while i < self.names.len()
            invariant
                self.wf(),
                wanted@ == key@,
                i <= self.names@.len(),
                forall|j: int| 0 <= j < i ==> self.names@[j]@ != key@,
            decreases self.names@.len() - i,
        {
            if self.names[i] == wanted {
                return Some(i);
            }
            i = i + 1;
        }
        None
    }

    /// Appends `message` to the queue of `key`, creating the queue on the
    /// first push. Never fails.
    pub fn push(&mut self, key: &str, message: Message)
        requires
            old(self).wf(),
        ensures
            final(self).wf(),
            final(self)@ == pushed(old(self)@, key@, message),
    {
        match self.position(key) {
            Some(i) => {
                let ghost before = self.queues@[i as int]@;
                let ghost old_queues = self.queues@;
                let ghost old_model = self.model@;
                self.queues[i].push(message);
                self.model = Ghost(self.model@.insert(key@, before.push(message)));
                assert forall|j: int| 0 <= j < self.names@.len() implies #[trigger] self.model@.contains_key(
                    self.names@[j]@,
                ) && self.model@[self.names@[j]@] == self.queues@[j]@ by {
                    if j != i {
                        assert(old_model.contains_key(self.names@[j]@));
                        assert(old_model[self.names@[j]@] == old_queues[j]@);
                        assert(self.queues@[j] == old_queues[j]);
                        if j < i {
                            assert(self.names@[j]@ != self.names@[i as int]@);
                        } else {
                            assert(self.names@[i as int]@ != self.names@[j]@);
                        }
                    }
                }
            },
            None => {
                let mut q = Queue::new();
                q.push(message);
                let ghost n = self.names@.len();
                let ghost old_names = self.names@;
                let ghost old_model = self.model@;
                self.names.push(key.to_owned());
                self.queues.push(q);
                self.model = Ghost(self.model@.insert(key@, seq![message]));
                assert forall|k: Seq<char>| #[trigger] self.model@.contains_key(k) implies exists|
                    i: int,
                |
                    0 <= i < self.names@.len() && #[trigger] self.names@[i]@ == k by {
                    if k == key@ {
                        assert(self.names@[n as int]@ == k);
                    } else {
                        assert(old_model.contains_key(k));
                        let w = choose|w: int| 0 <= w < old_names.len() && #[trigger] old_names[w]@ == k;
                        assert(self.names@[w]@ == k);
                    }
                }
            },
        }
        assert(queue_of(old(self)@, key@).push(message) == self.model@[key@]);
    }

    /// Removes and returns the head of the queue of `key`; an unknown name or
    /// an empty queue gives `None` and leaves the registry as it was.
    pub fn pop_now(&mut self, key: &str) -> (r: Option<Message>)
        requires
            old(self).wf(),
        ensures
            final(self).wf(),
            r == head_of(old(self)@, key@),
            final(self)@ == popped(old(self)@, key@),
    {
        match self.position(key) {
            Some(i) => {
                let ghost before = self.queues@[i as int]@;
                let ghost old_queues = self.queues@;
                let ghost old_model = self.model@;
                let r = self.queues[i].pop();
                if r.is_some() {
                    self.model = Ghost(self.model@.insert(key@, before.drop_first()));
                    assert(self.model@ == old(self).model@.insert(key@, before.drop_first()));
                }
                assert forall|j: int| 0 <= j < self.names@.len() implies #[trigger] self.model@.contains_key(
                    self.names@[j]@,
                ) && self.model@[self.names@[j]@] == self.queues@[j]@ by {
                    if j != i {
                        assert(old_model.contains_key(self.names@[j]@));
                        assert(old_model[self.names@[j]@] == old_queues[j]@);
                        assert(self.queues@[j] == old_queues[j]);
                        if j < i {
                            assert(self.names@[j]@ != self.names@[i as int]@);
                        } else {
                            assert(self.names@[i as int]@ != self.names@[j]@);
                        }
                    }
                }
                r
            },
            None => None,
        }
    }

    /// Whether a queue was ever created for `key`.
    pub fn contains(&self, key: &str) -> (r: bool)
        requires
            self.wf(),
        ensures
            r == self@.contains_key(key@),
    {
        self.position(key).is_some()
    }

    /// The number of messages waiting under `key`.
    pub fn queue_len(&self, key: &str) -> (n: usize)
        requires
            self.wf(),
        ensures
            n == queue_of(self@, key@).len(),
    {
        match self.position(key) {
            Some(i) => self.queues[i].len(),
            None => 0,
        }
    }
}

/// One operation on the registry, as the exclusion lock lets them through
/// one at a time.
pub enum Op {
    Push(Seq<char>, Message),
    Pop(Seq<char>),
}

/// The model after one operation.
pub open spec fn apply(m: Map<Seq<char>, Seq<Message>>, op: Op) -> Map<Seq<char>, Seq<Message>> {
    match op {
        Op::Push(k, x) => pushed(m, k, x),
        Op::Pop(k) => popped(m, k),
    }
}

/// The model after a run of operations, first to last.
pub open spec fn run(m: Map<Seq<char>, Seq<Message>>, ops: Seq<Op>) -> Map<
    Seq<char>,
    Seq<Message>,
>
    decreases ops.len(),
{
    if ops.len() == 0 {
        m
    } else {
        apply(run(m, ops.drop_last()), ops.last())
    }
}

/// The messages that a run pushes to `key`, in order.
pub open spec fn pushes_to(ops: Seq<Op>, key: Seq<char>) -> Seq<Message>
    decreases ops.len(),
{
    if ops.len() == 0 {
        Seq::empty()
    } else {
        let before = pushes_to(ops.drop_last(), key);
        match ops.last() {
            Op::Push(k, x) => if k == key {
                before.push(x)
            } else {
                before
            },
            Op::Pop(_) => before,
        }
    }
}

/// The messages that the pops of a run hand out from `key`, in order.
pub open spec fn delivered(m: Map<Seq<char>, Seq<Message>>, ops: Seq<Op>, key: Seq<char>) -> Seq<
    Message,
>
    decreases ops.len(),
{
    if ops.len() == 0 {
        Seq::empty()
    } else {
        let before = delivered(m, ops.drop_last(), key);
        match ops.last() {
            Op::Pop(k) => if k == key && head_of(run(m, ops.drop_last()), key) is Some {
                before.push(head_of(run(m, ops.drop_last()), key)->0)
            } else {
                before
            },
            Op::Push(_, _) => before,
        }
    }
}

/// Two pushes to a queue that holds nothing come out in the order they went
/// in, and a third pop then finds nothing.
pub proof fn fifo_law(m: Map<Seq<char>, Seq<Message>>, key: Seq<char>, m1: Message, m2: Message)
    requires
        queue_of(m, key).len() == 0,
    ensures
        head_of(pushed(pushed(m, key, m1), key, m2), key) == Some(m1),
        head_of(popped(pushed(pushed(m, key, m1), key, m2), key), key) == Some(m2),
        head_of(popped(popped(pushed(pushed(m, key, m1), key, m2), key), key), key) is None,
{
    let a = pushed(pushed(m, key, m1), key, m2);
    assert(queue_of(a, key) =~= seq![m1, m2]);
    assert(queue_of(popped(a, key), key) =~= seq![m2]);
    assert(queue_of(popped(popped(a, key), key), key) =~= Seq::<Message>::empty());
}

/// A pop on a name that was never pushed to finds nothing and leaves no
/// record behind.
pub proof fn unknown_key_probe(m: Map<Seq<char>, Seq<Message>>, key: Seq<char>)
    requires
        !m.contains_key(key),
    ensures
        head_of(m, key) is None,
        popped(m, key) == m,
        !popped(m, key).contains_key(key),
{
}

/// Whatever order the lock lets pushes and pops through, what was queued
/// under a name followed by what was pushed to it equals what the pops handed
/// out followed by what is left: nothing is handed out twice, skipped or made
/// up, and the order of pushes is kept.
pub proof fn serial_runs_keep_order(m: Map<Seq<char>, Seq<Message>>, ops: Seq<Op>, key: Seq<char>)
    ensures
        queue_of(m, key) + pushes_to(ops, key) == delivered(m, ops, key) + queue_of(run(m, ops), key),
    decreases ops.len(),
{
    if ops.len() == 0 {
        assert(queue_of(m, key) + pushes_to(ops, key) =~= queue_of(m, key));
        assert(delivered(m, ops, key) + queue_of(run(m, ops), key) =~= queue_of(m, key));
    } else {
        let prev = ops.drop_last();
        serial_runs_keep_order(m, prev, key);
        let s = run(m, prev);
        let p = pushes_to(prev, key);
        let d = delivered(m, prev, key);
        let q0 = queue_of(m, key);
        let qs = queue_of(s, key);
        match ops.last() {
            Op::Push(k, x) => {
                if k == key {
                    assert((q0 + p).push(x) =~= q0 + p.push(x));
                    assert((d + qs).push(x) =~= d + qs.push(x));
                } else {
                    assert(queue_of(run(m, ops), key) == qs);
                }
            },
            Op::Pop(k) => {
                if k == key && qs.len() > 0 {
                    assert(d + qs =~= d.push(qs[0]) + qs.drop_first());
                } else {
                    assert(queue_of(run(m, ops), key) == qs);
                }
            },
        }
    }
}

} // verus!
