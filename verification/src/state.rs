//! The room registry: a mapping from room code to room. Every operation
//! states exactly which entry it touches and that all others stay as they
//! were.

use vstd::prelude::*;
use vstd::string::StringExecFns;
use crate::broadcast::{Receiver, RecvOutcome};
use crate::room::Room;

verus! {

/// One registry entry: a room and the code it is keyed by.
pub struct RoomEntry {
    pub code: String,
    pub room: Room,
}

/// The registry of live rooms, keyed by their short codes.
pub struct ServerState {
    rooms: Vec<RoomEntry>,
}

/// Rooms other than the one keyed by `code` are the same in `post` as in
/// `pre`.
pub open spec fn same_rooms_except(pre: ServerState, post: ServerState, code: Seq<char>) -> bool {
    &&& forall|c: Seq<char>|
        c != code ==> #[trigger] post.has_code(c) == pre.has_code(c)
    &&& forall|c: Seq<char>|
        c != code && pre.has_code(c) ==> #[trigger] post.room_of(c) == pre.room_of(c)
}

impl ServerState {
    /// The registry's entries, in insertion order.
    pub closed spec fn entries(&self) -> Seq<RoomEntry> {
        self.rooms@
    }

    /// Whether some room is registered under `code`.
    pub open spec fn has_code(&self, code: Seq<char>) -> bool {
        exists|i: int|
            0 <= i < self.entries().len() && (#[trigger] self.entries()[i]).code@ == code
    }

    /// The entry index of the room registered under `code`.
    pub open spec fn idx_of(&self, code: Seq<char>) -> int {
        choose|i: int|
            0 <= i < self.entries().len() && (#[trigger] self.entries()[i]).code@ == code
    }

    /// The room registered under `code`.
    pub open spec fn room_of(&self, code: Seq<char>) -> Room {
        self.entries()[self.idx_of(code)].room
    }

    pub open spec fn wf(&self) -> bool {
        &&& forall|i: int, j: int|
            0 <= i < j < self.entries().len() ==> (#[trigger] self.entries()[i]).code@ != (
            #[trigger] self.entries()[j]).code@
        &&& forall|i: int|
            0 <= i < self.entries().len() ==> (#[trigger] self.entries()[i]).room.wf()
    }

    /// An empty registry.
    pub fn new() -> (r: ServerState)
        ensures
            r.wf(),
            r.entries().len() == 0,
            forall|c: Seq<char>| !r.has_code(c),
    {
        ServerState { rooms: Vec::new() }
    }

    /// Pins `idx_of` and `room_of` to a known matching index.
    proof fn lemma_idx_is(&self, code: Seq<char>, i: int)
        requires
            self.wf(),
            0 <= i < self.entries().len(),
            self.entries()[i].code@ == code,
        ensures
            self.has_code(code),
            self.idx_of(code) == i,
            self.room_of(code) == self.entries()[i].room,
    {
        assert(self.has_code(code));
        let j = self.idx_of(code);
        if j < i {
            assert(self.entries()[j].code@ != self.entries()[i].code@);
        } else if i < j {
            assert(self.entries()[i].code@ != self.entries()[j].code@);
        }
    }

    /// Frame argument for replacing the room at one index, keeping its code.
    proof fn lemma_update_frame(pre: ServerState, post: ServerState, i: int)
        requires
            pre.wf(),
            0 <= i < pre.entries().len(),
            post.entries().len() == pre.entries().len(),
            forall|j: int|
                0 <= j < pre.entries().len() && j != i ==> post.entries()[j] == pre.entries()[j],
            post.entries()[i].code@ == pre.entries()[i].code@,
            post.entries()[i].room.wf(),
        ensures
            post.wf(),
            post.has_code(pre.entries()[i].code@),
            post.room_of(pre.entries()[i].code@) == post.entries()[i].room,
            pre.room_of(pre.entries()[i].code@) == pre.entries()[i].room,
            same_rooms_except(pre, post, pre.entries()[i].code@),
            forall|c: Seq<char>| #[trigger] post.has_code(c) == pre.has_code(c),
    {
        let code = pre.entries()[i].code@;
        assert(forall|j: int|
            0 <= j < post.entries().len() ==> (#[trigger] post.entries()[j]).code@
                == pre.entries()[j].code@);
        assert forall|c: Seq<char>| #[trigger] post.has_code(c) == pre.has_code(c) by {
            if pre.has_code(c) {
                let j = pre.idx_of(c);
                assert(post.entries()[j].code@ == c);
            }
            if post.has_code(c) {
                let j = choose|j: int|
                    0 <= j < post.entries().len() && (#[trigger] post.entries()[j]).code@ == c;
                assert(pre.entries()[j].code@ == c);
            }
        }
        post.lemma_idx_is(code, i);
        pre.lemma_idx_is(code, i);
        assert forall|c: Seq<char>| c != code && pre.has_code(c) implies #[trigger] post.room_of(c)
            == pre.room_of(c) by {
            let j = pre.idx_of(c);
            assert(pre.entries()[j].code@ == c);
            pre.lemma_idx_is(c, j);
            assert(j != i);
            post.lemma_idx_is(c, j);
        }
    }

    /// Frame argument for appending an entry under a fresh code.
    proof fn lemma_push_frame(pre: ServerState, post: ServerState, e: RoomEntry)
        requires
            pre.wf(),
            !pre.has_code(e.code@),
            e.room.wf(),
            post.entries() == pre.entries().push(e),
        ensures
            post.wf(),
            post.has_code(e.code@),
            post.room_of(e.code@) == e.room,
            same_rooms_except(pre, post, e.code@),
    {
        let n = pre.entries().len() as int;
        assert(forall|j: int| 0 <= j < n ==> post.entries()[j] == pre.entries()[j]);
        assert(post.entries()[n] == e);
        assert forall|j: int| 0 <= j < n implies (#[trigger] pre.entries()[j]).code@ != e.code@ by {
            if pre.entries()[j].code@ == e.code@ {
                assert(pre.has_code(e.code@));
            }
        }
        post.lemma_idx_is(e.code@, n);
        assert forall|c: Seq<char>| c != e.code@ implies #[trigger] post.has_code(c) == pre.has_code(
            c,
        ) by {
            if pre.has_code(c) {
                let j = pre.idx_of(c);
                assert(post.entries()[j].code@ == c);
            }
            if post.has_code(c) {
                let j = choose|j: int|
                    0 <= j < post.entries().len() && (#[trigger] post.entries()[j]).code@ == c;
                assert(j < n);
                assert(pre.entries()[j].code@ == c);
            }
        }
        assert forall|c: Seq<char>| c != e.code@ && pre.has_code(c) implies #[trigger] post.room_of(c)
            == pre.room_of(c) by {
            let j = pre.idx_of(c);
            pre.lemma_idx_is(c, j);
            post.lemma_idx_is(c, j);
        }
    }

    /// Frame argument for removing the entry at one index.
    proof fn lemma_remove_frame(pre: ServerState, post: ServerState, i: int)
        requires
            pre.wf(),
            0 <= i < pre.entries().len(),
            post.entries() == pre.entries().remove(i),
        ensures
            post.wf(),
            !post.has_code(pre.entries()[i].code@),
            same_rooms_except(pre, post, pre.entries()[i].code@),
    {
        let code = pre.entries()[i].code@;
        let n = pre.entries().len() as int;
        assert(forall|j: int| 0 <= j < i ==> post.entries()[j] == pre.entries()[j]);
        assert(forall|j: int| i <= j < n - 1 ==> post.entries()[j] == pre.entries()[j + 1]);
        assert forall|j: int| 0 <= j < n - 1 implies (#[trigger] post.entries()[j]).code@ != code by {
            if j < i {
                assert(pre.entries()[j].code@ != pre.entries()[i].code@);
            } else {
                assert(pre.entries()[i].code@ != pre.entries()[j + 1].code@);
            }
        }
        assert forall|c: Seq<char>| c != code implies #[trigger] post.has_code(c) == pre.has_code(
            c,
        ) by {
            if pre.has_code(c) {
                let j = pre.idx_of(c);
                pre.lemma_idx_is(c, j);
                if j < i {
                    assert(post.entries()[j].code@ == c);
                } else {
                    assert(j > i);
                    assert(post.entries()[j - 1].code@ == c);
                }
            }
            if post.has_code(c) {
                let j = choose|j: int|
                    0 <= j < post.entries().len() && (#[trigger] post.entries()[j]).code@ == c;
                if j < i {
                    assert(pre.entries()[j].code@ == c);
                } else {
                    assert(pre.entries()[j + 1].code@ == c);
                }
            }
        }
        assert forall|c: Seq<char>| c != code && pre.has_code(c) implies #[trigger] post.room_of(c)
            == pre.room_of(c) by {
            let j = pre.idx_of(c);
            pre.lemma_idx_is(c, j);
            if j < i {
                post.lemma_idx_is(c, j);
            } else {
                assert(j > i);
                assert(post.entries()[j - 1] == pre.entries()[j]);
                post.lemma_idx_is(c, j - 1);
            }
        }
    }

    /// The index holding `code`, found by a scan.
    fn position(&self, code: &str) -> (r: Option<usize>)
        ensures
            (match r {
                Some(i) => i < self.entries().len() && self.entries()[i as int].code@ == code@,
                None => !self.has_code(code@),
            }),
    {
        let key = String::from_str(code);
        let n = self.rooms.len();
        let mut i: usize = 0;
        while i < n
            invariant
                i <= n,
                n == self.entries().len(),
                key@ == code@,
                forall|j: int| 0 <= j < i ==> (#[trigger] self.entries()[j]).code@ != code@,
            decreases n - i,
        {
            if self.rooms[i].code.eq(&key) {
                return Some(i);
            }
            i = i + 1;
        }
        None
    }

    /// Whether a room is registered under `code`.
    pub fn contains_code(&self, code: &str) -> (r: bool)
        ensures
            r == self.has_code(code@),
    {
        match self.position(code) {
            Some(i) => {
                proof {
                    assert(self.has_code(code@));
                }
                true
            },
            None => false,
        }
    }

    /// Registers `room` under `code`. On a key collision the last writer
    /// wins; the unique-code procedure makes collisions all but impossible.
    pub fn insert_room(&mut self, code: String, room: Room)
        requires
            old(self).wf(),
            room.wf(),
        ensures
            final(self).wf(),
            final(self).has_code(code@),
            final(self).room_of(code@) == room,
            same_rooms_except(*old(self), *final(self), code@),
    {
        let ghost pre = *self;
        match self.position(code.as_str()) {
            Some(i) => {
                self.rooms.remove(i);
                proof {
                    Self::lemma_remove_frame(pre, *self, i as int);
                }
            },
            None => {},
        }
        let ghost mid = *self;
        let ghost e = RoomEntry { code, room };
        self.rooms.push(RoomEntry { code, room });
        proof {
            Self::lemma_push_frame(mid, *self, e);
        }
    }

    /// Looks the room for `code` up.
    pub fn get_room(&self, code: &str) -> (r: Option<&Room>)
        requires
            self.wf(),
        ensures
            (match r {
                Some(room) => self.has_code(code@) && *room == self.room_of(code@),
                None => !self.has_code(code@),
            }),
    {
        match self.position(code) {
            Some(i) => {
                proof {
                    self.lemma_idx_is(code@, i as int);
                }
                Some(&self.rooms[i].room)
            },
            None => None,
        }
    }

    /// Removes the room for `code` when its member count reads zero; a room
    /// with members, or an unknown code, is left alone.
    pub fn remove_if_empty(&mut self, code: &str)
        requires
            old(self).wf(),
        ensures
            final(self).wf(),
            (old(self).has_code(code@) && old(self).room_of(code@).member_count() == 0) ==> {
                &&& !final(self).has_code(code@)
                &&& same_rooms_except(*old(self), *final(self), code@)
            },
            !(old(self).has_code(code@) && old(self).room_of(code@).member_count() == 0)
                ==> *final(self) == *old(self),
    {
        let ghost pre = *self;
        match self.position(code) {
            Some(i) => {
                proof {
                    self.lemma_idx_is(code@, i as int);
                }
                if self.rooms[i].room.len() == 0 {
                    self.rooms.remove(i);
                    proof {
                        Self::lemma_remove_frame(pre, *self, i as int);
                    }
                }
            },
            None => {},
        }
    }

    /// A snapshot of (code, member count) pairs, in registry order.
    pub fn list_rooms(&self) -> (r: Vec<(String, usize)>)
        ensures
            r@.len() == self.entries().len(),
            forall|i: int|
                0 <= i < r@.len() ==> (#[trigger] r@[i]).0@ == self.entries()[i].code@ && r@[i].1
                    as nat == self.entries()[i].room.member_count(),
    {
        let n = self.rooms.len();
        let mut r: Vec<(String, usize)> = Vec::new();
        let mut i: usize = 0;
        while i < n
            invariant
                i <= n,
                n == self.entries().len(),
                r@.len() == i,
                forall|j: int|
                    0 <= j < i ==> (#[trigger] r@[j]).0@ == self.entries()[j].code@ && r@[j].1
                        as nat == self.entries()[j].room.member_count(),
            decreases n - i,
        {
            let code = self.rooms[i].code.clone();
            let count = self.rooms[i].room.len();
            r.push((code, count));
            i = i + 1;
        }
        r
    }

    /// Counts one member into the room for `code`, when it exists.
    pub fn inc_member(&mut self, code: &str) -> (r: bool)
        requires
            old(self).wf(),
        ensures
            final(self).wf(),
            r == old(self).has_code(code@),
            !r ==> *final(self) == *old(self),
            r ==> {
                let before = old(self).room_of(code@);
                let after = final(self).room_of(code@);
                &&& final(self).has_code(code@)
                &&& same_rooms_except(*old(self), *final(self), code@)
                &&& after.channel() == before.channel()
                &&& after.member_count() == (if before.member_count() < usize::MAX {
                    before.member_count() + 1
                } else {
                    before.member_count()
                })
            },
    {
        let ghost pre = *self;
        match self.position(code) {
            Some(i) => {
                proof {
                    self.lemma_idx_is(code@, i as int);
                }
                let room_ref = &mut self.rooms[i].room;
                room_ref.inc();
                proof {
                    Self::lemma_update_frame(pre, *self, i as int);
                }
                true
            },
            None => false,
        }
    }

    /// Counts one member out of the room for `code`. A decrement is only
    /// applied against a positive count, which paired callers always find.
    pub fn dec_member(&mut self, code: &str) -> (r: bool)
        requires
            old(self).wf(),
        ensures
            final(self).wf(),
            r == old(self).has_code(code@),
            !r ==> *final(self) == *old(self),
            r ==> {
                let before = old(self).room_of(code@);
                let after = final(self).room_of(code@);
                &&& final(self).has_code(code@)
                &&& same_rooms_except(*old(self), *final(self), code@)
                &&& after.channel() == before.channel()
                &&& after.member_count() == (if before.member_count() > 0 {
                    (before.member_count() - 1) as nat
                } else {
                    0nat
                })
            },
    {
        let ghost pre = *self;
        match self.position(code) {
            Some(i) => {
                proof {
                    self.lemma_idx_is(code@, i as int);
                }
                if self.rooms[i].room.len() > 0 {
                    self.rooms[i].room.dec();
                }
                proof {
                    Self::lemma_update_frame(pre, *self, i as int);
                }
                true
            },
            None => false,
        }
    }

    /// Publishes `msg` into the room for `code`, when it exists.
    pub fn broadcast(&mut self, code: &str, msg: String) -> (r: bool)
        requires
            old(self).wf(),
        ensures
            final(self).wf(),
            r == old(self).has_code(code@),
            !r ==> *final(self) == *old(self),
            r ==> {
                let before = old(self).room_of(code@);
                let after = final(self).room_of(code@);
                &&& final(self).has_code(code@)
                &&& same_rooms_except(*old(self), *final(self), code@)
                &&& after.member_count() == before.member_count()
                &&& after.channel().cap() == before.channel().cap()
                &&& (before.channel().total_sent() < usize::MAX ==> {
                    &&& after.history() == before.history().push(msg@)
                    &&& after.channel().total_sent() == before.channel().total_sent() + 1
                })
                &&& (before.channel().total_sent() >= usize::MAX ==> after == before)
            },
    {
        let ghost pre = *self;
        match self.position(code) {
            Some(i) => {
                proof {
                    self.lemma_idx_is(code@, i as int);
                }
                self.rooms[i].room.send(msg);
                proof {
                    Self::lemma_update_frame(pre, *self, i as int);
                }
                true
            },
            None => false,
        }
    }

    /// A new receiving end on the room for `code`, when it exists.
    pub fn subscribe_to(&self, code: &str) -> (r: Option<Receiver>)
        requires
            self.wf(),
        ensures
            (match r {
                Some(rx) => {
                    &&& self.has_code(code@)
                    &&& rx.wf()
                    &&& rx.cursor() == self.room_of(code@).channel().total_sent()
                    &&& rx.sub_point() == rx.cursor()
                    &&& rx.received() == Seq::<nat>::empty()
                    &&& rx.missed() == 0
                },
                None => !self.has_code(code@),
            }),
    {
        match self.position(code) {
            Some(i) => {
                proof {
                    self.lemma_idx_is(code@, i as int);
                }
                Some(self.rooms[i].room.subscribe())
            },
            None => None,
        }
    }

    /// Takes the next pending broadcast of the room for `code` for `rx`;
    /// yields nothing when the room is gone.
    pub fn recv_from(&self, code: &str, rx: &mut Receiver) -> (r: Option<RecvOutcome>)
        requires
            self.wf(),
            old(rx).wf(),
        ensures
            final(rx).wf(),
            final(rx).sub_point() == old(rx).sub_point(),
            (match r {
                None => !self.has_code(code@) && *final(rx) == *old(rx),
                Some(out) => {
                    let room = self.room_of(code@);
                    &&& self.has_code(code@)
                    &&& (match out {
                        RecvOutcome::Empty => {
                            &&& old(rx).cursor() >= room.channel().total_sent()
                            &&& *final(rx) == *old(rx)
                        },
                        RecvOutcome::Msg(m) => {
                            &&& old(rx).cursor() < room.channel().total_sent()
                            &&& room.channel().oldest_kept() <= old(rx).cursor()
                            &&& m@ == room.history()[old(rx).cursor() as int]
                            &&& final(rx).cursor() == old(rx).cursor() + 1
                            &&& final(rx).received() == old(rx).received().push(old(rx).cursor())
                            &&& final(rx).missed() == old(rx).missed()
                        },
                        RecvOutcome::Lagged(k) => {
                            &&& old(rx).cursor() < room.channel().oldest_kept()
                            &&& k as nat == room.channel().oldest_kept() - old(rx).cursor()
                            &&& final(rx).cursor() == room.channel().oldest_kept()
                            &&& final(rx).received() == old(rx).received()
                            &&& final(rx).missed() == old(rx).missed() + k
                        },
                    })
                },
            }),
    {
        match self.position(code) {
            Some(i) => {
                proof {
                    self.lemma_idx_is(code@, i as int);
                }
                Some(self.rooms[i].room.recv(rx))
            },
            None => None,
        }
    }
}

/// Chains two changes that each leave every room but the one keyed by
/// `code` alone.
pub proof fn lemma_same_rooms_trans(a: ServerState, b: ServerState, c: ServerState, code: Seq<char>)
    requires
        same_rooms_except(a, b, code),
        same_rooms_except(b, c, code),
    ensures
        same_rooms_except(a, c, code),
{
}

impl Default for ServerState {
    /// An empty registry.
    fn default() -> (r: ServerState)
        ensures
            r.wf(),
            r.entries().len() == 0,
            forall|c: Seq<char>| !r.has_code(c),
    {
        ServerState::new()
    }
}

} // verus!
