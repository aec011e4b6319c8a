//! The bounded channel that moves morsels from one pipeline stage to the next.
//!
//! A task that cannot proceed (a full buffer on the sending side, an empty
//! one on the receiving side) is told so and suspends; the functions here
//! decide, they never wait.

use vstd::prelude::*;
use std::collections::VecDeque;

verus! {

/// What a connector holds: the queued items, oldest first, the bound on
/// their number, and whether it was closed.
pub struct ConnectorView<T> {
    pub queue: Seq<T>,
    pub capacity: nat,
    pub closed: bool,
}

/// How an attempt to send ended.
#[derive(Debug, PartialEq, Eq)]
pub enum SendOutcome<T> {
    /// The item was queued.
    Sent,
    /// The buffer is full: the sender suspends and tries again with the item.
    Full(T),
    /// The connector is closed: the item is handed back and will never be sent.
    Closed(T),
}

/// How an attempt to receive ended.
#[derive(Debug, PartialEq, Eq)]
pub enum RecvOutcome<T> {
    /// The oldest queued item.
    Item(T),
    /// Nothing is queued yet: the receiver suspends and tries again.
    Empty,
    /// The connector is closed and drained: nothing will ever arrive.
    Finished,
}

/// One operation on a connector, as a trace records it.
pub enum ConnectorOp<T> {
    Send(T),
    Recv,
    Close,
}

/// A connector together with the record of what it accepted and delivered.
pub struct ConnectorRun<T> {
    pub conn: ConnectorView<T>,
    /// Every item a send queued, in the order of the sends.
    pub accepted: Seq<T>,
    /// Every item a receive handed out, in the order of the receives.
    pub delivered: Seq<T>,
}

/// The connector after an attempt to send `item`.
pub open spec fn spec_send<T>(c: ConnectorView<T>, item: T) -> ConnectorView<T> {
    if c.closed || c.queue.len() >= c.capacity {
        c
    } else {
        ConnectorView { queue: c.queue.push(item), ..c }
    }
}

/// The connector after an attempt to receive.
pub open spec fn spec_recv<T>(c: ConnectorView<T>) -> ConnectorView<T> {
    if c.queue.len() > 0 {
        ConnectorView { queue: c.queue.drop_first(), ..c }
    } else {
        c
    }
}

/// The connector after a close.
pub open spec fn spec_close<T>(c: ConnectorView<T>) -> ConnectorView<T> {
    ConnectorView { closed: true, ..c }
}

/// A fresh run: an open, empty connector and empty records.
pub open spec fn start_run<T>(capacity: nat) -> ConnectorRun<T> {
    ConnectorRun {
        conn: ConnectorView { queue: Seq::empty(), capacity, closed: false },
        accepted: Seq::empty(),
        delivered: Seq::empty(),
    }
}

/// The run after one more operation.
pub open spec fn step_run<T>(r: ConnectorRun<T>, op: ConnectorOp<T>) -> ConnectorRun<T> {
    match op {
        ConnectorOp::Send(item) => ConnectorRun {
            conn: spec_send(r.conn, item),
            accepted: if r.conn.closed || r.conn.queue.len() >= r.conn.capacity {
                r.accepted
            } else {
                r.accepted.push(item)
            },
            delivered: r.delivered,
        },
        ConnectorOp::Recv => ConnectorRun {
            conn: spec_recv(r.conn),
            accepted: r.accepted,
            delivered: if r.conn.queue.len() > 0 {
                r.delivered.push(r.conn.queue[0])
            } else {
                r.delivered
            },
        },
        ConnectorOp::Close => ConnectorRun { conn: spec_close(r.conn), ..r },
    }
}

/// The run after the operations `ops`, applied in order.
pub open spec fn run_ops<T>(r: ConnectorRun<T>, ops: Seq<ConnectorOp<T>>) -> ConnectorRun<T>
    decreases ops.len(),
{
    if ops.len() == 0 {
        r
    } else {
        step_run(run_ops(r, ops.drop_last()), ops.last())
    }
}

/// The connector after sending each of `items` in order.
pub open spec fn send_all<T>(c: ConnectorView<T>, items: Seq<T>) -> ConnectorView<T>
    decreases items.len(),
{
    if items.len() == 0 {
        c
    } else {
        spec_send(send_all(c, items.drop_last()), items.last())
    }
}

/// What `n` receives in a row hand out.
pub open spec fn recv_many<T>(c: ConnectorView<T>, n: nat) -> Seq<T>
    decreases n,
{
    if n == 0 || c.queue.len() == 0 {
        Seq::empty()
    } else {
        seq![c.queue[0]] + recv_many(spec_recv(c), (n - 1) as nat)
    }
}

/// The connector after `n` receives in a row.
pub open spec fn after_recv_many<T>(c: ConnectorView<T>, n: nat) -> ConnectorView<T>
    decreases n,
{
    if n == 0 {
        c
    } else {
        after_recv_many(spec_recv(c), (n - 1) as nat)
    }
}

/// Whatever operations are applied to a fresh connector, in whatever
/// order: what was delivered, followed by what is still queued, is exactly
/// what was accepted. So items arrive in the order they were sent, none is
/// lost and none arrives twice; and the buffer never holds more than its bound.
pub proof fn lemma_fifo<T>(capacity: nat, ops: Seq<ConnectorOp<T>>)
    ensures
        ({
            let r = run_ops(start_run::<T>(capacity), ops);
            &&& r.accepted == r.delivered + r.conn.queue
            &&& r.conn.queue.len() <= capacity
            &&& r.conn.capacity == capacity
        }),
    decreases ops.len(),
{
    if ops.len() == 0 {
        let r = start_run::<T>(capacity);
        assert(r.accepted =~= r.delivered + r.conn.queue);
    } else {
        lemma_fifo(capacity, ops.drop_last());
        let p = run_ops(start_run::<T>(capacity), ops.drop_last());
        let r = step_run(p, ops.last());
        assert(r.accepted =~= r.delivered + r.conn.queue);
    }
}

/// Once a connector is closed it accepts nothing more: whatever is
/// applied afterwards, the record of accepted items stays as it was, and
/// the connector stays closed.
pub proof fn lemma_closed_accepts_nothing<T>(r: ConnectorRun<T>, ops: Seq<ConnectorOp<T>>)
    requires
        r.conn.closed,
    ensures
        run_ops(r, ops).accepted == r.accepted,
        run_ops(r, ops).conn.closed,
    decreases ops.len(),
{
    if ops.len() > 0 {
        lemma_closed_accepts_nothing(r, ops.drop_last());
    }
}

/// Sending `items` into an empty connector that has room for them queues
/// them in order.
pub proof fn lemma_send_all<T>(capacity: nat, items: Seq<T>)
    requires
        items.len() <= capacity,
    ensures
        send_all(
            ConnectorView { queue: Seq::empty(), capacity, closed: false },
            items,
        ) == (ConnectorView { queue: items, capacity, closed: false }),
    decreases items.len(),
{
    let c = ConnectorView { queue: Seq::<T>::empty(), capacity, closed: false };
    if items.len() == 0 {
        assert(items =~= Seq::<T>::empty());
    } else {
        lemma_send_all(capacity, items.drop_last());
        assert(items.drop_last().push(items.last()) =~= items);
    }
}

/// Receiving as often as items are queued hands them out oldest first and
/// leaves the queue empty.
pub proof fn lemma_recv_all<T>(c: ConnectorView<T>)
    ensures
        recv_many(c, c.queue.len()) == c.queue,
        after_recv_many(c, c.queue.len()).queue.len() == 0,
        after_recv_many(c, c.queue.len()).closed == c.closed,
    decreases c.queue.len(),
{
    if c.queue.len() > 0 {
        lemma_recv_all(spec_recv(c));
        assert(seq![c.queue[0]] + c.queue.drop_first() =~= c.queue);
    } else {
        assert(c.queue =~= Seq::<T>::empty());
    }
}

/// The items sent into a connector before it is closed are received in the
/// order they were sent, and after them nothing: the connector is then
/// closed and empty, which is when a receive reports the end.
pub proof fn lemma_sent_then_closed_then_drained<T>(capacity: nat, items: Seq<T>)
    requires
        items.len() <= capacity,
    ensures
        ({
            let open = ConnectorView { queue: Seq::<T>::empty(), capacity, closed: false };
            let closed = spec_close(send_all(open, items));
            let end = after_recv_many(closed, items.len());
            &&& recv_many(closed, items.len()) == items
            &&& end.closed
            &&& end.queue.len() == 0
        }),
{
    lemma_send_all(capacity, items);
    let open = ConnectorView { queue: Seq::<T>::empty(), capacity, closed: false };
    let closed = spec_close(send_all(open, items));
    lemma_recv_all(closed);
}

/// A bounded queue between one sending and one receiving stage, with an
/// explicit close.
pub struct Connector<T> {
    queue: VecDeque<T>,
    capacity: usize,
    closed: bool,
}

impl<T> View for Connector<T> {
    type V = ConnectorView<T>;

    closed spec fn view(&self) -> ConnectorView<T> {
        ConnectorView { queue: self.queue@, capacity: self.capacity as nat, closed: self.closed }
    }
}

impl<T> Connector<T> {
    #[verifier::type_invariant]
    closed spec fn wf(self) -> bool {
        self.queue@.len() <= self.capacity
    }

    /// An open, empty connector that buffers at most `capacity` items.
    pub fn new(capacity: usize) -> (c: Connector<T>)
        ensures
            c@ == (ConnectorView { queue: Seq::<T>::empty(), capacity: capacity as nat, closed: false }),
    {
        Connector { queue: VecDeque::new(), capacity, closed: false }
    }

    /// The number of queued items, which never exceeds the capacity.
    pub fn len(&self) -> (n: usize)
        ensures
            n == self@.queue.len(),
            n <= self@.capacity,
    {
        proof {
            use_type_invariant(self);
        }
        self.queue.len()
    }

    /// The bound on the number of queued items.
    pub fn capacity(&self) -> (n: usize)
        ensures
            n == self@.capacity,
    {
        self.capacity
    }

    /// Whether the connector was closed.
    pub fn is_closed(&self) -> (b: bool)
        ensures
            b == self@.closed,
    {
        self.closed
    }

    /// Queues `item` behind what is queued already, unless the connector is
    /// closed or full; then the item comes back and nothing changes.
    pub fn send(&mut self, item: T) -> (r: SendOutcome<T>)
        ensures
            final(self)@ == spec_send(old(self)@, item),
            r == if old(self)@.closed {
                SendOutcome::Closed(item)
            } else if old(self)@.queue.len() >= old(self)@.capacity {
                SendOutcome::Full(item)
            } else {
                SendOutcome::Sent
            },
    {
        proof {
            use_type_invariant(&*self);
        }
        if self.closed {
            SendOutcome::Closed(item)
        } else if self.queue.len() >= self.capacity {
            SendOutcome::Full(item)
        } else {
            let mut queue = VecDeque::new();
            core::mem::swap(&mut queue, &mut self.queue);
            queue.push_back(item);
            self.queue = queue;
            SendOutcome::Sent
        }
    }

    /// Takes the oldest queued item. With nothing queued, says whether more
    /// may come (`Empty`) or not (`Finished`: closed and drained).
    pub fn recv(&mut self) -> (r: RecvOutcome<T>)
        ensures
            final(self)@ == spec_recv(old(self)@),
            r == if old(self)@.queue.len() > 0 {
                RecvOutcome::Item(old(self)@.queue[0])
            } else if old(self)@.closed {
                RecvOutcome::Finished
            } else {
                RecvOutcome::Empty
            },
    {
        proof {
            use_type_invariant(&*self);
        }
        let mut queue = VecDeque::new();
        core::mem::swap(&mut queue, &mut self.queue);
        let front = queue.pop_front();
        self.queue = queue;
        match front {
            Some(item) => {
                assert(self.queue@ =~= old(self)@.queue.drop_first());
                RecvOutcome::Item(item)
            },
            None => {
                if self.closed {
                    RecvOutcome::Finished
                } else {
                    RecvOutcome::Empty
                }
            },
        }
    }

    /// Closes the connector, from either end. What is queued stays queued;
    /// closing again changes nothing.
    pub fn close(&mut self)
        ensures
            final(self)@ == spec_close(old(self)@),
    {
        proof {
            use_type_invariant(&*self);
        }
        self.closed = true;
    }
}

} // verus!
