//! A room: a broadcast channel plus a live-member counter. The counter is
//! explicit bookkeeping maintained by the sessions that join and leave; it is
//! not derived from the number of subscribed receiving ends.

use vstd::prelude::*;
use crate::broadcast::{Channel, Receiver, RecvOutcome};

verus! {

/// The unit of message fan-out: every member holds a receiving end of the
/// room's channel, and the member counter decides when the room is reaped.
pub struct Room {
    chan: Channel,
    users: usize,
}

/// One adjustment of a room's member counter.
pub enum CounterOp {
    Inc,
    Dec,
}

impl Room {
    /// The live-member count.
    pub closed spec fn member_count(&self) -> nat {
        self.users as nat
    }

    /// The room's broadcast channel.
    pub closed spec fn channel(&self) -> Channel {
        self.chan
    }

    /// Every message ever broadcast into the room, oldest first.
    pub open spec fn history(&self) -> Seq<Seq<char>> {
        self.channel().history()
    }

    pub open spec fn wf(&self) -> bool {
        self.channel().wf()
    }

    /// A new room: a channel with a backlog of `capacity` pending messages
    /// per subscriber, and a member counter at zero.
    pub fn new(capacity: usize) -> (r: Room)
        requires
            capacity >= 1,
        ensures
            r.wf(),
            r.member_count() == 0,
            r.channel().cap() == capacity,
            r.history() == Seq::<Seq<char>>::empty(),
            r.channel().total_sent() == 0,
    {
        Room { chan: Channel::new(capacity), users: 0 }
    }

    /// A new receiving end attached to the channel; the member counter is
    /// not touched (counter changes are explicit, separate calls).
    pub fn subscribe(&self) -> (r: Receiver)
        ensures
            r.wf(),
            r.cursor() == self.channel().total_sent(),
            r.sub_point() == self.channel().total_sent(),
            r.received() == Seq::<nat>::empty(),
            r.missed() == 0,
    {
        self.chan.subscribe()
    }

    /// Publishes a message to all current receiving ends. With no receivers
    /// the message still enters the history; nobody will ever take it.
    pub fn send(&mut self, msg: String)
        requires
            old(self).wf(),
        ensures
            final(self).wf(),
            final(self).member_count() == old(self).member_count(),
            final(self).channel().cap() == old(self).channel().cap(),
            old(self).channel().total_sent() < usize::MAX ==> {
                &&& final(self).history() == old(self).history().push(msg@)
                &&& final(self).channel().total_sent() == old(self).channel().total_sent() + 1
            },
            old(self).channel().total_sent() >= usize::MAX ==> *final(self) == *old(self),
    {
        self.chan.send(msg)
    }

    /// Takes the next pending broadcast for `rx`, which must have been
    /// subscribed to this room's channel.
    pub fn recv(&self, rx: &mut Receiver) -> (r: RecvOutcome)
        requires
            self.wf(),
            old(rx).wf(),
        ensures
            final(rx).wf(),
            final(rx).sub_point() == old(rx).sub_point(),
            (match r {
                RecvOutcome::Empty => {
                    &&& old(rx).cursor() >= self.channel().total_sent()
                    &&& *final(rx) == *old(rx)
                },
                RecvOutcome::Msg(m) => {
                    &&& old(rx).cursor() < self.channel().total_sent()
                    &&& self.channel().oldest_kept() <= old(rx).cursor()
                    &&& m@ == self.history()[old(rx).cursor() as int]
                    &&& final(rx).cursor() == old(rx).cursor() + 1
                    &&& final(rx).received() == old(rx).received().push(old(rx).cursor())
                    &&& final(rx).missed() == old(rx).missed()
                },
                RecvOutcome::Lagged(k) => {
                    &&& old(rx).cursor() < self.channel().oldest_kept()
                    &&& k as nat == self.channel().oldest_kept() - old(rx).cursor()
                    &&& final(rx).cursor() == self.channel().oldest_kept()
                    &&& final(rx).received() == old(rx).received()
                    &&& final(rx).missed() == old(rx).missed() + k
                },
            }),
    {
        rx.recv(&self.chan)
    }

    /// Counts one member in. The counter stops at its machine bound.
    pub fn inc(&mut self)
        requires
            old(self).wf(),
        ensures
            final(self).wf(),
            final(self).channel() == old(self).channel(),
            old(self).member_count() < usize::MAX ==> final(self).member_count() == old(
                self,
            ).member_count() + 1,
            old(self).member_count() >= usize::MAX ==> final(self).member_count() == old(
                self,
            ).member_count(),
    {
        if self.users < usize::MAX {
            self.users = self.users + 1;
        }
    }

    /// Counts one member out. Callers pair every decrement with a prior
    /// increment of their own, so the counter is positive here.
    pub fn dec(&mut self)
        requires
            old(self).wf(),
            old(self).member_count() > 0,
        ensures
            final(self).wf(),
            final(self).channel() == old(self).channel(),
            final(self).member_count() == old(self).member_count() - 1,
    {
        self.users = self.users - 1;
    }

    /// A snapshot read of the member counter.
    pub fn len(&self) -> (r: usize)
        ensures
            r as nat == self.member_count(),
    {
        self.users
    }
}

/// The counter value after a sequence of increments and decrements, in exact
/// integer arithmetic, starting from zero.
pub open spec fn count_after(ops: Seq<CounterOp>) -> int
    decreases ops.len(),
{
    if ops.len() == 0 {
        0
    } else {
        count_after(ops.drop_last()) + (if ops.last() is Inc {
            1int
        } else {
            -1int
        })
    }
}

/// How many increments a sequence holds.
pub open spec fn incs(ops: Seq<CounterOp>) -> int
    decreases ops.len(),
{
    if ops.len() == 0 {
        0
    } else {
        incs(ops.drop_last()) + (if ops.last() is Inc {
            1int
        } else {
            0int
        })
    }
}

/// How many decrements a sequence holds.
pub open spec fn decs(ops: Seq<CounterOp>) -> int
    decreases ops.len(),
{
    if ops.len() == 0 {
        0
    } else {
        decs(ops.drop_last()) + (if ops.last() is Dec {
            1int
        } else {
            0int
        })
    }
}

/// A sequence of counter adjustments is paired when no prefix decrements
/// more often than it has incremented before.
pub open spec fn paired(ops: Seq<CounterOp>) -> bool {
    forall|i: int| 0 <= i <= ops.len() ==> decs(#[trigger] ops.take(i)) <= incs(ops.take(i))
}

proof fn lemma_count_is_diff(ops: Seq<CounterOp>)
    ensures
        count_after(ops) == incs(ops) - decs(ops),
    decreases ops.len(),
{
    if ops.len() > 0 {
        lemma_count_is_diff(ops.drop_last());
    }
}

/// Law: after any paired sequence of increments and decrements the member
/// count is never negative, at the end nor at any point along the way.
pub proof fn lemma_paired_count_never_negative(ops: Seq<CounterOp>)
    requires
        paired(ops),
    ensures
        forall|i: int| 0 <= i <= ops.len() ==> count_after(#[trigger] ops.take(i)) >= 0,
        count_after(ops) >= 0,
{
    assert forall|i: int| 0 <= i <= ops.len() implies count_after(#[trigger] ops.take(i)) >= 0 by {
        lemma_count_is_diff(ops.take(i));
    }
    assert(ops.take(ops.len() as int) == ops);
}

} // verus!
