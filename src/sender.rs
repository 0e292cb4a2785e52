//! The outbound queue: every message to the chat server goes through it, in
//! order, with at least a fixed interval between two sends.

use vstd::prelude::*;

verus! {

/// A message for the chat server.
pub enum OutboundMessage {
    /// A command outside any room.
    GlobalCommand { command: String },
    /// A command in a room.
    ChatCommand { room: String, command: String },
}

impl View for OutboundMessage {
    /// The room, if any, and the text.
    type V = (Option<Seq<char>>, Seq<char>);

    open spec fn view(&self) -> (Option<Seq<char>>, Seq<char>) {
        match self {
            OutboundMessage::GlobalCommand { command } => (None, command@),
            OutboundMessage::ChatCommand { room, command } => (Some(room@), command@),
        }
    }
}

} // verus!

verus! {

/// The least time between two sends, in milliseconds.
pub const MIN_INTERVAL_MS: u64 = 700;

/// The queue has stopped for good: its connection failed.
#[derive(Debug, PartialEq, Eq, Structural, Clone, Copy)]
pub struct QueueClosed;

/// What the delivery worker does next.
pub enum Delivery {
    /// Write this message to the connection now.
    Send(OutboundMessage),
    /// Nothing may be sent before this time.
    WaitUntil(u64),
    /// Nothing to send: wait for a message.
    Idle,
}

/// The earliest time of the send after one made at `now`.
pub open spec fn next_ready(now: u64) -> u64 {
    if now <= u64::MAX - MIN_INTERVAL_MS {
        (now + MIN_INTERVAL_MS) as u64
    } else {
        u64::MAX
    }
}

/// Messages waiting, the earliest time of the next send, and whether the
/// queue has stopped.
pub struct SenderState {
    pub pending: Seq<OutboundMessage>,
    pub ready_at: u64,
    pub closed: bool,
}

/// What queueing `message` does: appends it, unless the queue has stopped.
pub open spec fn send_step(s: SenderState, message: OutboundMessage) -> SenderState {
    if s.closed {
        s
    } else {
        SenderState { pending: s.pending.push(message), ..s }
    }
}

/// The state after queueing each of `messages` in turn.
pub open spec fn send_all(s: SenderState, messages: Seq<OutboundMessage>) -> SenderState
    decreases messages.len(),
{
    if messages.len() == 0 {
        s
    } else {
        send_step(send_all(s, messages.drop_last()), messages.last())
    }
}

/// One step of the delivery worker at time `now`.
pub open spec fn poll_step(s: SenderState, now: u64) -> (SenderState, Delivery) {
    if s.closed || s.pending.len() == 0 {
        (s, Delivery::Idle)
    } else if now >= s.ready_at {
        (SenderState { pending: s.pending.drop_first(), ready_at: next_ready(now), closed: false }, Delivery::Send(s.pending[0]))
    } else {
        (s, Delivery::WaitUntil(s.ready_at))
    }
}

/// The ordered, paced queue of messages for the chat server. `send` never
/// waits; the delivery worker calls `poll` with the time and does what it
/// returns.
pub struct DelayedSender {
    queue: Vec<OutboundMessage>,
    ready_at: u64,
    closed: bool,
}

impl View for DelayedSender {
    type V = SenderState;

    closed spec fn view(&self) -> SenderState {
        SenderState { pending: self.queue@, ready_at: self.ready_at, closed: self.closed }
    }
}

impl DelayedSender {
    /// An open queue whose first message goes out at once.
    pub fn new() -> (r: DelayedSender)
        ensures
            r@ == (SenderState { pending: Seq::empty(), ready_at: 0, closed: false }),
    {
        DelayedSender { queue: Vec::new(), ready_at: 0, closed: false }
    }

    /// Appends `message`, unless the queue has stopped.
    pub fn send(&mut self, message: OutboundMessage) -> (r: Result<(), QueueClosed>)
        ensures
            r is Err <==> old(self)@.closed,
            final(self)@ == send_step(old(self)@, message),
    {
        if self.closed {
            return Err(QueueClosed);
        }
        self.queue.push(message);
        Ok(())
    }

    pub fn poll(&mut self, now: u64) -> (r: Delivery)
        ensures
            (final(self)@, r) == poll_step(old(self)@, now),
    {
        if self.closed || self.queue.len() == 0 {
            return Delivery::Idle;
        }
        if now >= self.ready_at {
            let message = self.queue.remove(0);
            self.ready_at = if now <= u64::MAX - MIN_INTERVAL_MS {
                now + MIN_INTERVAL_MS
            } else {
                u64::MAX
            };
            assert(self.queue@ =~= old(self).queue@.drop_first());
            Delivery::Send(message)
        } else {
            Delivery::WaitUntil(self.ready_at)
        }
    }

    /// Stops the queue for good after its connection failed; what was
    /// waiting is dropped.
    pub fn stop(&mut self)
        ensures
            final(self)@ == (SenderState { pending: Seq::empty(), ready_at: old(self)@.ready_at, closed: true }),
    {
        self.queue = Vec::new();
        self.closed = true;
    }

    pub fn is_closed(&self) -> (r: bool)
        ensures
            r == self@.closed,
    {
        self.closed
    }
}

/// The sends that polling at each of `times` in turn makes: each with its
/// time.
pub open spec fn deliveries(s: SenderState, times: Seq<u64>) -> Seq<(u64, OutboundMessage)>
    decreases times.len(),
{
    if times.len() == 0 {
        Seq::empty()
    } else {
        let (next, d) = poll_step(s, times[0]);
        let rest = deliveries(next, times.drop_first());
        match d {
            Delivery::Send(m) => seq![(times[0], m)] + rest,
            _ => rest,
        }
    }
}

/// Messages go out in the order they were queued, none before the queue's
/// ready time, and each at least the interval after the one before it.
pub proof fn lemma_deliveries(s: SenderState, times: Seq<u64>)
    requires
        forall|i: int| 0 <= i < times.len() ==> #[trigger] times[i] <= u64::MAX - MIN_INTERVAL_MS,
    ensures
        deliveries(s, times).len() <= s.pending.len(),
        forall|k: int| 0 <= k < deliveries(s, times).len() ==> #[trigger] deliveries(s, times)[k].1 == s.pending[k],
        forall|k: int| 0 <= k < deliveries(s, times).len() ==> #[trigger] deliveries(s, times)[k].0 >= s.ready_at,
        forall|k: int| 0 < k < deliveries(s, times).len() ==> #[trigger] deliveries(s, times)[k].0 >= deliveries(s, times)[k - 1].0 + MIN_INTERVAL_MS,
    decreases times.len(),
{
    if times.len() > 0 {
        let rest_times = times.drop_first();
        assert forall|i: int| 0 <= i < rest_times.len() implies #[trigger] rest_times[i] <= u64::MAX - MIN_INTERVAL_MS by {
            assert(rest_times[i] == times[i + 1]);
        }
        let (next, d) = poll_step(s, times[0]);
        lemma_deliveries(next, rest_times);
        let rest = deliveries(next, rest_times);
        match d {
            Delivery::Send(m) => {
                let all = deliveries(s, times);
                assert(all == seq![(times[0], m)] + rest);
                assert forall|k: int| 0 <= k < all.len() implies #[trigger] all[k].1 == s.pending[k] by {
                    if k > 0 {
                        assert(all[k] == rest[k - 1]);
                        assert(next.pending[k - 1] == s.pending[k]);
                    }
                }
                assert forall|k: int| 0 <= k < all.len() implies #[trigger] all[k].0 >= s.ready_at by {
                    if k > 0 {
                        assert(all[k] == rest[k - 1]);
                    }
                }
                assert forall|k: int| 0 < k < all.len() implies #[trigger] all[k].0 >= all[k - 1].0 + MIN_INTERVAL_MS by {
                    assert(all[k] == rest[k - 1]);
                    if k > 1 {
                        assert(all[k - 1] == rest[k - 2]);
                    }
                }
            },
            _ => {},
        }
    }
}

/// Messages queued one after another on a fresh queue: the first goes out at
/// the first poll, each later one at least the interval after the one before
/// it, and all in the order they were queued.
pub proof fn lemma_paced_in_order(messages: Seq<OutboundMessage>, times: Seq<u64>)
    requires
        forall|i: int| 0 <= i < times.len() ==> #[trigger] times[i] <= u64::MAX - MIN_INTERVAL_MS,
    ensures
        ({
            let s = SenderState { pending: messages, ready_at: 0, closed: false };
            let d = deliveries(s, times);
            &&& messages.len() > 0 && times.len() > 0 ==> d.len() > 0 && d[0] == (times[0], messages[0])
            &&& forall|k: int| 0 < k < d.len() ==> #[trigger] d[k].0 >= d[k - 1].0 + MIN_INTERVAL_MS
            &&& forall|k: int| 0 <= k < d.len() ==> #[trigger] d[k].1 == messages[k]
        }),
{
    let s = SenderState { pending: messages, ready_at: 0, closed: false };
    lemma_deliveries(s, times);
}


/// Queueing messages one after another on a fresh queue leaves exactly
/// those messages waiting, in the order they were queued.
pub proof fn lemma_send_all(messages: Seq<OutboundMessage>)
    ensures
        send_all(SenderState { pending: Seq::empty(), ready_at: 0, closed: false }, messages)
            == (SenderState { pending: messages, ready_at: 0, closed: false }),
    decreases messages.len(),
{
    if messages.len() > 0 {
        lemma_send_all(messages.drop_last());
        assert(messages.drop_last().push(messages.last()) =~= messages);
    } else {
        assert(messages =~= Seq::<OutboundMessage>::empty());
    }
}

/// Messages queued back-to-back on a fresh queue and then delivered by
/// polling at `times`: the first goes out at the first poll, each later one
/// at least the interval after the one before it, all in the order they were
/// queued, none twice and none invented.
pub proof fn lemma_back_to_back(messages: Seq<OutboundMessage>, times: Seq<u64>)
    requires
        forall|i: int| 0 <= i < times.len() ==> #[trigger] times[i] <= u64::MAX - MIN_INTERVAL_MS,
    ensures
        ({
            let s = send_all(SenderState { pending: Seq::empty(), ready_at: 0, closed: false }, messages);
            let d = deliveries(s, times);
            &&& d.len() <= messages.len()
            &&& messages.len() > 0 && times.len() > 0 ==> d.len() > 0 && d[0] == (times[0], messages[0])
            &&& forall|k: int| 0 < k < d.len() ==> #[trigger] d[k].0 >= d[k - 1].0 + MIN_INTERVAL_MS
            &&& forall|k: int| 0 <= k < d.len() ==> #[trigger] d[k].1 == messages[k]
        }),
{
    lemma_send_all(messages);
    lemma_paced_in_order(messages, times);
    lemma_deliveries(SenderState { pending: messages, ready_at: 0, closed: false }, times);
}

} // verus!
