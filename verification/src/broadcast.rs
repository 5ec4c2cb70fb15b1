//! A multi-consumer fan-out channel with a bounded per-subscriber backlog.
//!
//! A `Channel` keeps the most recent messages in a ring; every `Receiver`
//! holds a cursor into the channel's send history. A subscriber that falls
//! more than the capacity behind is told how many messages it skipped (a lag
//! notification) instead of being handed stale data.

use vstd::prelude::*;

verus! {

/// What one receive attempt yields: the next message, a lag notification
/// carrying the number of skipped messages, or nothing pending.
pub enum RecvOutcome {
    Msg(String),
    Lagged(usize),
    Empty,
}

/// The fan-out channel: a bounded ring of the most recent messages, the
/// total number of messages ever sent, and the ghost history of all of them.
pub struct Channel {
    ring: Vec<String>,
    sent: usize,
    capacity: usize,
    hist: Ghost<Seq<Seq<char>>>,
}

/// A receiving end: a cursor into the channel's history, the point at which
/// it subscribed, the indices it has received, and how many it has missed.
pub struct Receiver {
    next: usize,
    sub_at: Ghost<nat>,
    taken: Ghost<Seq<nat>>,
    missed: Ghost<nat>,
}

impl Channel {
    /// Every message ever sent into the channel, oldest first.
    pub closed spec fn history(&self) -> Seq<Seq<char>> {
        self.hist@
    }

    /// How many messages have ever been sent.
    pub closed spec fn total_sent(&self) -> nat {
        self.sent as nat
    }

    /// The per-subscriber backlog bound the channel was created with.
    pub closed spec fn cap(&self) -> nat {
        self.capacity as nat
    }

    /// The index of the oldest message still held in the ring.
    pub open spec fn oldest_kept(&self) -> nat {
        if self.total_sent() <= self.cap() {
            0
        } else {
            (self.total_sent() - self.cap()) as nat
        }
    }

    pub closed spec fn wf(&self) -> bool {
        &&& self.capacity >= 1
        &&& self.hist@.len() == self.sent
        &&& self.ring@.len() == self.sent - self.oldest_kept()
        &&& forall|i: int|
            0 <= i < self.ring@.len() ==> self.ring@[i]@ == self.hist@[self.oldest_kept() + i]
    }

    /// A fresh channel with the given backlog bound and an empty history.
    pub fn new(capacity: usize) -> (r: Channel)
        requires
            capacity >= 1,
        ensures
            r.wf(),
            r.cap() == capacity,
            r.total_sent() == 0,
            r.history() == Seq::<Seq<char>>::empty(),
    {
        Channel { ring: Vec::new(), sent: 0, capacity, hist: Ghost(Seq::empty()) }
    }

    /// Publishes a message: it is appended to the history and to the ring,
    /// evicting the oldest ring entry once the ring is full. Once the send
    /// counter has reached its machine bound the channel stops accepting.
    pub fn send(&mut self, msg: String)
        requires
            old(self).wf(),
        ensures
            final(self).wf(),
            final(self).cap() == old(self).cap(),
            old(self).total_sent() < usize::MAX ==> {
                &&& final(self).history() == old(self).history().push(msg@)
                &&& final(self).total_sent() == old(self).total_sent() + 1
            },
            old(self).total_sent() >= usize::MAX ==> *final(self) == *old(self),
    {
        if self.sent < usize::MAX {
            if self.ring.len() == self.capacity {
                self.ring.remove(0);
            }
            let ghost m = msg@;
            self.ring.push(msg);
            self.sent = self.sent + 1;
            proof {
                self.hist@ = self.hist@.push(m);
            }
        }
    }

    /// A new receiving end, attached at the current end of the history: it
    /// will only ever see messages sent from this point on.
    pub fn subscribe(&self) -> (r: Receiver)
        ensures
            r.wf(),
            r.cursor() == self.total_sent(),
            r.sub_point() == self.total_sent(),
            r.received() == Seq::<nat>::empty(),
            r.missed() == 0,
    {
        Receiver {
            next: self.sent,
            sub_at: Ghost(self.sent as nat),
            taken: Ghost(Seq::empty()),
            missed: Ghost(0),
        }
    }
}

impl Receiver {
    /// The index of the next message this receiver would take.
    pub closed spec fn cursor(&self) -> nat {
        self.next as nat
    }

    /// The history index at which this receiver subscribed.
    pub closed spec fn sub_point(&self) -> nat {
        self.sub_at@
    }

    /// The history indices of the messages this receiver has taken, in the
    /// order it took them.
    pub closed spec fn received(&self) -> Seq<nat> {
        self.taken@
    }

    /// How many messages this receiver has skipped through lagging.
    pub closed spec fn missed(&self) -> nat {
        self.missed@
    }

    pub closed spec fn wf(&self) -> bool {
        &&& self.sub_at@ <= self.next
        &&& self.taken@.len() + self.missed@ == self.next - self.sub_at@
        &&& forall|i: int|
            0 <= i < self.taken@.len() ==> self.sub_at@ <= #[trigger] self.taken@[i] < self.next
        &&& forall|i: int, j: int|
            0 <= i < j < self.taken@.len() ==> self.taken@[i] < self.taken@[j]
    }

    /// Takes the next pending message from `chan`, if any. A receiver that
    /// has fallen further behind than the ring holds is moved forward to the
    /// oldest kept message and told how many it skipped.
    pub fn recv(&mut self, chan: &Channel) -> (r: RecvOutcome)
        requires
            chan.wf(),
            old(self).wf(),
        ensures
            final(self).wf(),
            final(self).sub_point() == old(self).sub_point(),
            (match r {
                RecvOutcome::Empty => {
                    &&& old(self).cursor() >= chan.total_sent()
                    &&& *final(self) == *old(self)
                },
                RecvOutcome::Msg(m) => {
                    &&& old(self).cursor() < chan.total_sent()
                    &&& chan.oldest_kept() <= old(self).cursor()
                    &&& m@ == chan.history()[old(self).cursor() as int]
                    &&& final(self).cursor() == old(self).cursor() + 1
                    &&& final(self).received() == old(self).received().push(old(self).cursor())
                    &&& final(self).missed() == old(self).missed()
                },
                RecvOutcome::Lagged(k) => {
                    &&& old(self).cursor() < chan.oldest_kept()
                    &&& k as nat == chan.oldest_kept() - old(self).cursor()
                    &&& final(self).cursor() == chan.oldest_kept()
                    &&& final(self).received() == old(self).received()
                    &&& final(self).missed() == old(self).missed() + k
                },
            }),
    {
        let held = chan.ring.len();
        let oldest = chan.sent - held;
        if self.next >= chan.sent {
            RecvOutcome::Empty
        } else if self.next >= oldest {
            let idx = self.next - oldest;
            let m = chan.ring[idx].clone();
            let ghost c = self.next as nat;
            self.next = self.next + 1;
            proof {
                self.taken@ = self.taken@.push(c);
            }
            RecvOutcome::Msg(m)
        } else {
            let k = oldest - self.next;
            self.next = oldest;
            proof {
                self.missed@ = self.missed@ + k as nat;
            }
            RecvOutcome::Lagged(k)
        }
    }
}

/// Law: a receiver never takes a message sent before it subscribed, and the
/// messages it takes come in send order.
pub proof fn lemma_receiver_in_order(rx: Receiver)
    requires
        rx.wf(),
    ensures
        forall|i: int| 0 <= i < rx.received().len() ==> rx.sub_point() <= rx.received()[i],
        forall|i: int, j: int|
            0 <= i < j < rx.received().len() ==> rx.received()[i] < rx.received()[j],
{
}

proof fn lemma_strict_incr_gap(s: Seq<nat>, i: int, j: int)
    requires
        forall|a: int, b: int| 0 <= a < b < s.len() ==> s[a] < s[b],
        0 <= i <= j < s.len(),
    ensures
        s[i] + (j - i) <= s[j],
    decreases j - i,
{
    if i < j {
        lemma_strict_incr_gap(s, i, j - 1);
    }
}

/// Law: a receiver that never lagged has taken every message from its
/// subscription point up to its cursor, each one in send order.
pub proof fn lemma_no_lag_receives_all(rx: Receiver)
    requires
        rx.wf(),
        rx.missed() == 0,
    ensures
        rx.received().len() == rx.cursor() - rx.sub_point(),
        forall|i: int| 0 <= i < rx.received().len() ==> rx.received()[i] == rx.sub_point() + i,
{
    let s = rx.received();
    let len = s.len() as int;
    assert forall|i: int| 0 <= i < len implies s[i] == rx.sub_point() + i by {
        lemma_strict_incr_gap(s, 0, i);
        lemma_strict_incr_gap(s, i, len - 1);
    }
}

} // verus!
