//! Room registry: which users sit in which room, each with the outbound
//! handle messages for them are delivered on.
//!
//! A room exists exactly as long as it has members: the first successful
//! join creates it, removing the last member removes it.  Within a room
//! every user identifier is unique.  Handles are opaque tokens; the
//! caller maps each to the writer feeding one connection.

use vstd::prelude::*;

use crate::message::MsgView;
use crate::message::WireMessage;

verus! {

/// One joined user: their identifier and the outbound handle messages
/// for them are sent on.
pub struct Member {
    pub user: String,
    pub handle: u64,
}

/// One live room: its identifier and its members, in join order.
pub struct Room {
    pub id: String,
    pub members: Vec<Member>,
}

/// All live rooms.
pub struct RoomRegistry {
    pub rooms: Vec<Room>,
}

/// One planned delivery: the message to hand to the outbound channel
/// behind `handle`.
pub struct Delivery {
    pub handle: u64,
    pub message: WireMessage,
}

/// The mathematical value of a member: identifier and handle.
pub type Entry = (Seq<char>, u64);

/// Whether some entry of `s` carries the user identifier `u`.
pub open spec fn seq_has_key(s: Seq<Entry>, u: Seq<char>) -> bool {
    exists|i: int| 0 <= i < s.len() && s[i].0 == u
}

/// The position of the entry carrying `u`.
pub open spec fn key_index(s: Seq<Entry>, u: Seq<char>) -> int {
    choose|i: int| 0 <= i < s.len() && s[i].0 == u
}

/// Whether no two entries of `s` carry the same user identifier.
pub open spec fn distinct_keys(s: Seq<Entry>) -> bool {
    forall|i: int, j: int| 0 <= i < j < s.len() ==> s[i].0 != s[j].0
}

impl Room {
    /// The mathematical value of the member list.
    pub open spec fn entries(self) -> Seq<Entry> {
        self.members@.map_values(|m: Member| (m.user@, m.handle))
    }
}

impl RoomRegistry {
    /// An empty registry: no rooms at all.
    pub fn new() -> (r: RoomRegistry)
        ensures
            r.wf(),
            r.rooms@.len() == 0,
    {
        RoomRegistry { rooms: Vec::new() }
    }

    /// Well-formedness: room identifiers are unique, every room has at
    /// least one member, and user identifiers are unique within a room.
    pub open spec fn wf(self) -> bool {
        &&& (forall|i: int, j: int|
            0 <= i < j < self.rooms@.len() ==> self.rooms@[i].id@ != self.rooms@[j].id@)
        &&& (forall|i: int|
            0 <= i < self.rooms@.len() ==> (#[trigger] self.rooms@[i]).members@.len() > 0)
        &&& (forall|i: int|
            0 <= i < self.rooms@.len() ==> distinct_keys(#[trigger] self.rooms@[i].entries()))
    }

    /// Whether a room with this identifier is live.
    pub open spec fn has_room(self, r: Seq<char>) -> bool {
        exists|i: int| 0 <= i < self.rooms@.len() && self.rooms@[i].id@ == r
    }

    /// The position of the room with this identifier.
    pub open spec fn room_index(self, r: Seq<char>) -> int {
        choose|i: int| 0 <= i < self.rooms@.len() && self.rooms@[i].id@ == r
    }

    /// The member entries of the room, in join order; empty if the room
    /// is not live.
    pub open spec fn entries_of(self, r: Seq<char>) -> Seq<Entry> {
        if self.has_room(r) {
            self.rooms@[self.room_index(r)].entries()
        } else {
            Seq::empty()
        }
    }

    /// The identifiers of the live rooms, in creation order.
    pub open spec fn room_ids(self) -> Seq<Seq<char>> {
        self.rooms@.map_values(|room: Room| room.id@)
    }

    /// Whether this user is currently joined to this room.
    pub open spec fn is_member(self, r: Seq<char>, u: Seq<char>) -> bool {
        seq_has_key(self.entries_of(r), u)
    }

    /// The outbound handle of a joined user.
    pub open spec fn handle_of(self, r: Seq<char>, u: Seq<char>) -> u64 {
        self.entries_of(r)[key_index(self.entries_of(r), u)].1
    }

    /// How many users are joined to the room; zero if it is not live.
    pub open spec fn count(self, r: Seq<char>) -> nat {
        self.entries_of(r).len()
    }

    /// A room seen at some position is the one its identifier finds.
    pub proof fn lemma_room_at(self, i: int)
        requires
            self.wf(),
            0 <= i < self.rooms@.len(),
        ensures
            self.has_room(self.rooms@[i].id@),
            self.room_index(self.rooms@[i].id@) == i,
    {
        let r = self.rooms@[i].id@;
        assert(self.has_room(r));
        let j = self.room_index(r);
        assert(0 <= j < self.rooms@.len() && self.rooms@[j].id@ == r);
        if i < j {
            assert(self.rooms@[i].id@ != self.rooms@[j].id@);
        } else if j < i {
            assert(self.rooms@[j].id@ != self.rooms@[i].id@);
        }
    }

    /// A live room holds members, a dead one none: the registry keeps no
    /// empty rooms.
    pub proof fn lemma_no_empty_rooms(self, r: Seq<char>)
        requires
            self.wf(),
        ensures
            self.count(r) == 0 <==> !self.has_room(r),
    {
        if self.has_room(r) {
            let i = self.room_index(r);
            assert(0 <= i < self.rooms@.len() && self.rooms@[i].id@ == r);
            assert(self.rooms@[i].members@.len() > 0);
        }
    }

    /// Membership is exact: a room's count is the number of its user
    /// identifiers, which are pairwise distinct, and a count of zero
    /// means the room itself is gone.
    pub proof fn lemma_membership_exact(self, r: Seq<char>)
        requires
            self.wf(),
        ensures
            distinct_keys(self.entries_of(r)),
            self.count(r) == self.entries_of(r).len(),
            self.count(r) == 0 <==> !self.has_room(r),
    {
        self.lemma_no_empty_rooms(r);
        if self.has_room(r) {
            let i = self.room_index(r);
            assert(0 <= i < self.rooms@.len() && self.rooms@[i].id@ == r);
            assert(distinct_keys(self.rooms@[i].entries()));
        }
    }

    /// Finds the position of the live room with this identifier.
    fn find_room(&self, room_id: &String) -> (r: Option<usize>)
        ensures
            match r {
                Option::Some(i) => 0 <= i < self.rooms@.len() && self.rooms@[i as int].id@
                    == room_id@,
                Option::None => !self.has_room(room_id@),
            },
    {
        let mut i: usize = 0;
        while i < self.rooms.len()
            invariant
                i <= self.rooms@.len(),
                forall|j: int| 0 <= j < i ==> (#[trigger] self.rooms@[j].id@) != room_id@,
            decreases self.rooms@.len() - i,
        {
            if self.rooms[i].id == *room_id {
                return Option::Some(i);
            }
            i = i + 1;
        }
        Option::None
    }

    /// How many users are joined to the room.
    pub fn member_count(&self, room_id: &String) -> (n: usize)
        requires
            self.wf(),
        ensures
            n == self.count(room_id@),
    {
        match self.find_room(room_id) {
            Option::Some(i) => {
                proof {
                    self.lemma_room_at(i as int);
                }
                self.rooms[i].members.len()
            },
            Option::None => 0,
        }
    }
}

/// Why a join was refused.
#[derive(Clone, Copy, Debug, PartialEq, Eq, Structural)]
pub enum JoinError {
    /// The room already has a live entry for this user identifier.
    AlreadyJoined,
}

/// Appending an entry with a fresh user identifier keeps identifiers
/// distinct.
proof fn lemma_distinct_push(s: Seq<Entry>, u: Seq<char>, h: u64)
    requires
        distinct_keys(s),
        !seq_has_key(s, u),
    ensures
        distinct_keys(s.push((u, h))),
{
    let t = s.push((u, h));
    assert forall|i: int, j: int| 0 <= i < j < t.len() implies t[i].0 != t[j].0 by {
        if j < s.len() {
            assert(s[i].0 != s[j].0);
        } else {
            assert(t[j].0 == u);
            assert(0 <= i < s.len() && s[i].0 == t[i].0);
        }
    }
}

/// A member appended to a room appends its entry.
proof fn lemma_entries_push(r1: Room, r2: Room, m: Member)
    requires
        r2.members@ == r1.members@.push(m),
    ensures
        r2.entries() == r1.entries().push((m.user@, m.handle)),
{
    assert(r2.entries() =~= r1.entries().push((m.user@, m.handle)));
}

impl RoomRegistry {
    /// Admits a user to a room, creating the room if it is not yet
    /// live.  A `(room, user)` pair with a live entry is rejected
    /// untouched: a second session may not take over an identity whose
    /// first session is still alive.
    pub fn join(&mut self, room_id: &String, user: &String, handle: u64) -> (r: Result<
        (),
        JoinError,
    >)
        requires
            old(self).wf(),
        ensures
            final(self).wf(),
            r is Err <==> old(self).is_member(room_id@, user@),
            r is Err ==> *final(self) == *old(self),
            r is Ok ==> final(self).entries_of(room_id@) == old(self).entries_of(
                room_id@,
            ).push((user@, handle)),
            r is Ok ==> final(self).room_ids() == (if old(self).has_room(room_id@) {
                old(self).room_ids()
            } else {
                old(self).room_ids().push(room_id@)
            }),
            forall|r2: Seq<char>|
                r2 != room_id@ ==> #[trigger] final(self).entries_of(r2) == old(
                    self,
                ).entries_of(r2),
            forall|r2: Seq<char>|
                r2 != room_id@ ==> #[trigger] final(self).has_room(r2) == old(self).has_room(
                    r2,
                ),
            r is Ok ==> final(self).has_room(room_id@) && final(self).is_member(
                room_id@,
                user@,
            ) && final(self).handle_of(room_id@, user@) == handle && final(self).count(
                room_id@,
            ) == old(self).count(room_id@) + 1,
    {
        let ghost old_self = *self;
        match self.find_room(room_id) {
            Option::Some(i) => {
                proof {
                    self.lemma_room_at(i as int);
                }
                if find_member(&self.rooms[i].members, user).is_some() {
                    proof {
                        let j = choose|j: int|
                            0 <= j < self.rooms@[i as int].members@.len()
                                && self.rooms@[i as int].members@[j].user@ == user@;
                        assert(self.entries_of(room_id@)[j].0 == user@);
                    }
                    return Result::Err(JoinError::AlreadyJoined);
                }
                let ghost old_room = self.rooms@[i as int];
                let mut room = self.rooms.remove(i);
                room.members.push(Member { user: user.clone(), handle });
                let ghost new_room = room;
                self.rooms.insert(i, room);
                proof {
                    assert(self.rooms@ =~= old_self.rooms@.update(i as int, new_room));
                    lemma_entries_push(old_room, new_room, new_room.members@.last());
                    assert(!seq_has_key(old_room.entries(), user@)) by {
                        if seq_has_key(old_room.entries(), user@) {
                            let k = key_index(old_room.entries(), user@);
                            assert(old_room.members@[k].user@ == user@);
                        }
                    }
                    lemma_distinct_push(old_room.entries(), user@, handle);
                    assert(self.wf());
                    self.lemma_room_at(i as int);
                    assert(self.entries_of(room_id@) == old_self.entries_of(room_id@).push(
                        (user@, handle),
                    ));
                    assert(self.room_ids() =~= old_self.room_ids());
                    self.lemma_frame_except(old_self, i as int, room_id@);
                    assert(self.is_member(room_id@, user@) && self.handle_of(room_id@, user@)
                        == handle) by {
                        let e = self.entries_of(room_id@);
                        assert(e[e.len() - 1].0 == user@);
                        let k = key_index(e, user@);
                        if k < e.len() - 1 {
                            assert(e[k].0 != e[e.len() - 1].0);
                        }
                    }
                }
                Result::Ok(())
            },
            Option::None => {
                let mut members: Vec<Member> = Vec::new();
                members.push(Member { user: user.clone(), handle });
                let room = Room { id: room_id.clone(), members };
                let ghost new_room = room;
                self.rooms.push(room);
                proof {
                    let n = old_self.rooms@.len() as int;
                    assert(self.rooms@ =~= old_self.rooms@.push(new_room));
                    assert(new_room.entries() =~= Seq::empty().push((user@, handle)));
                    assert(forall|i: int|
                        0 <= i < n ==> (#[trigger] self.rooms@[i]) == old_self.rooms@[i]);
                    assert forall|i: int, j: int|
                        0 <= i < j < self.rooms@.len() implies self.rooms@[i].id@
                        != self.rooms@[j].id@ by {
                        if j == n {
                            assert(old_self.has_room(old_self.rooms@[i].id@));
                        }
                    }
                    assert(self.wf());
                    self.lemma_room_at(n);
                    assert(self.entries_of(room_id@) == old_self.entries_of(room_id@).push(
                        (user@, handle),
                    ));
                    assert(self.room_ids() =~= old_self.room_ids().push(room_id@));
                    self.lemma_frame_except(old_self, n, room_id@);
                    let e = self.entries_of(room_id@);
                    assert(e[0].0 == user@ && e.len() == 1);
                    assert(key_index(e, user@) == 0);
                }
                Result::Ok(())
            },
        }
    }

    /// Rooms other than the one at `i` keep their liveness and entries
    /// when only the room at `i` changed and kept its identifier.
    proof fn lemma_frame_except(self, prior: RoomRegistry, i: int, rid: Seq<char>)
        requires
            self.wf(),
            prior.wf(),
            0 <= i < self.rooms@.len(),
            self.rooms@[i].id@ == rid,
            forall|k: int|
                0 <= k < self.rooms@.len() && k != i ==> 0 <= k < prior.rooms@.len()
                    && (#[trigger] self.rooms@[k]) == prior.rooms@[k],
            forall|k: int|
                0 <= k < prior.rooms@.len() && k != i ==> 0 <= k < self.rooms@.len()
                    && (#[trigger] prior.rooms@[k]) == self.rooms@[k],
            prior.has_room(rid) ==> prior.room_index(rid) == i,
            !prior.has_room(rid) ==> prior.rooms@.len() == i,
        ensures
            forall|r2: Seq<char>|
                r2 != rid ==> #[trigger] self.has_room(r2) == prior.has_room(r2),
            forall|r2: Seq<char>|
                r2 != rid ==> #[trigger] self.entries_of(r2) == prior.entries_of(r2),
    {
        assert forall|r2: Seq<char>| r2 != rid implies #[trigger] self.has_room(r2)
            == prior.has_room(r2) by {
            if self.has_room(r2) {
                let k = self.room_index(r2);
                assert(self.rooms@[k].id@ == r2);
                assert(k != i);
                assert(prior.rooms@[k].id@ == r2);
            }
            if prior.has_room(r2) {
                let k = prior.room_index(r2);
                assert(prior.rooms@[k].id@ == r2);
                if prior.has_room(rid) {
                    if k == i {
                        prior.lemma_room_at(i);
                    }
                } else {
                    assert(k < prior.rooms@.len());
                }
                assert(k != i);
                assert(self.rooms@[k].id@ == r2);
            }
        }
        assert forall|r2: Seq<char>| r2 != rid implies #[trigger] self.entries_of(r2)
            == prior.entries_of(r2) by {
            if self.has_room(r2) {
                let k = self.room_index(r2);
                assert(self.rooms@[k].id@ == r2);
                assert(k != i);
                assert(prior.rooms@[k].id@ == r2);
                prior.lemma_room_at(k);
                assert(prior.room_index(r2) == k);
            }
        }
    }
}

/// What `leave` observed.
#[derive(Clone, Copy, Debug, PartialEq, Eq, Structural)]
pub enum LeaveResult {
    /// The user had no live entry in the room; nothing changed.
    NotMember,
    /// The user's entry was removed; `room_now_empty` says whether that
    /// was the last one, which removed the room itself.
    Left { room_now_empty: bool },
}

/// An entry seen at some position is the one its key finds.
proof fn lemma_key_at(s: Seq<Entry>, j: int)
    requires
        distinct_keys(s),
        0 <= j < s.len(),
    ensures
        seq_has_key(s, s[j].0),
        key_index(s, s[j].0) == j,
{
    assert(seq_has_key(s, s[j].0));
    let k = key_index(s, s[j].0);
    if k < j {
        assert(s[k].0 != s[j].0);
    } else if j < k {
        assert(s[j].0 != s[k].0);
    }
}

/// Removing an entry keeps user identifiers distinct, and takes the
/// removed identifier out entirely.
proof fn lemma_distinct_remove(s: Seq<Entry>, j: int)
    requires
        distinct_keys(s),
        0 <= j < s.len(),
    ensures
        distinct_keys(s.remove(j)),
        !seq_has_key(s.remove(j), s[j].0),
{
    let t = s.remove(j);
    assert forall|a: int, b: int| 0 <= a < b < t.len() implies t[a].0 != t[b].0 by {
        let a0 = if a < j { a } else { a + 1 };
        let b0 = if b < j { b } else { b + 1 };
        assert(t[a] == s[a0] && t[b] == s[b0]);
        assert(s[a0].0 != s[b0].0);
    }
    if seq_has_key(t, s[j].0) {
        let a = key_index(t, s[j].0);
        let a0 = if a < j { a } else { a + 1 };
        assert(t[a] == s[a0]);
        if a0 < j {
            assert(s[a0].0 != s[j].0);
        } else {
            assert(s[j].0 != s[a0].0);
        }
    }
}

/// A member removed from a room removes its entry.
proof fn lemma_entries_remove(r1: Room, r2: Room, j: int)
    requires
        0 <= j < r1.members@.len(),
        r2.members@ == r1.members@.remove(j),
    ensures
        r2.entries() == r1.entries().remove(j),
{
    assert(r2.entries() =~= r1.entries().remove(j));
}

impl RoomRegistry {
    /// Rooms other than the one removed at `i` keep their liveness and
    /// entries; the removed identifier is no longer live.
    proof fn lemma_frame_removed(self, prior: RoomRegistry, i: int, rid: Seq<char>)
        requires
            prior.wf(),
            0 <= i < prior.rooms@.len(),
            prior.rooms@[i].id@ == rid,
            self.rooms@ == prior.rooms@.remove(i),
        ensures
            !self.has_room(rid),
            forall|r2: Seq<char>|
                r2 != rid ==> #[trigger] self.has_room(r2) == prior.has_room(r2),
            forall|r2: Seq<char>|
                r2 != rid ==> #[trigger] self.entries_of(r2) == prior.entries_of(r2),
            self.wf(),
    {
        assert(forall|k: int|
            0 <= k < self.rooms@.len() ==> (#[trigger] self.rooms@[k]) == prior.rooms@[
                if k < i {
                    k
                } else {
                    k + 1
                }
            ]);
        assert(self.wf());
        if self.has_room(rid) {
            let k = self.room_index(rid);
            let k0 = if k < i { k } else { k + 1 as int };
            assert(prior.rooms@[k0].id@ == rid);
            if k0 < i {
                assert(prior.rooms@[k0].id@ != prior.rooms@[i].id@);
            } else {
                assert(prior.rooms@[i].id@ != prior.rooms@[k0].id@);
            }
        }
        assert forall|r2: Seq<char>| r2 != rid implies #[trigger] self.has_room(r2)
            == prior.has_room(r2) by {
            if self.has_room(r2) {
                let k = self.room_index(r2);
                let k0 = if k < i { k } else { k + 1 as int };
                assert(prior.rooms@[k0].id@ == r2);
            }
            if prior.has_room(r2) {
                let k0 = prior.room_index(r2);
                assert(prior.rooms@[k0].id@ == r2);
                assert(k0 != i);
                let k = if k0 < i { k0 } else { k0 - 1 as int };
                assert(self.rooms@[k].id@ == r2);
            }
        }
        assert forall|r2: Seq<char>| r2 != rid implies #[trigger] self.entries_of(r2)
            == prior.entries_of(r2) by {
            if self.has_room(r2) {
                let k = self.room_index(r2);
                let k0 = if k < i { k } else { k + 1 as int };
                assert(self.rooms@[k] == prior.rooms@[k0]);
                assert(prior.rooms@[k0].id@ == r2);
                prior.lemma_room_at(k0);
            }
        }
    }

    /// Removes a user's entry from a room.  Removing the last member
    /// removes the room itself: no empty room stays live.
    pub fn leave(&mut self, room_id: &String, user: &String) -> (r: LeaveResult)
        requires
            old(self).wf(),
        ensures
            final(self).wf(),
            (r is NotMember) <==> !old(self).is_member(room_id@, user@),
            r is NotMember ==> *final(self) == *old(self),
            r matches LeaveResult::Left { room_now_empty } ==> (room_now_empty <==> old(
                self,
            ).count(room_id@) == 1),
            !(r is NotMember) ==> {
                &&& final(self).entries_of(room_id@) == old(self).entries_of(room_id@).remove(
                    key_index(old(self).entries_of(room_id@), user@),
                )
                &&& !final(self).is_member(room_id@, user@)
                &&& final(self).count(room_id@) == old(self).count(room_id@) - 1
                &&& (final(self).has_room(room_id@) <==> old(self).count(room_id@) > 1)
                &&& final(self).room_ids() == (if old(self).count(room_id@) == 1 {
                    old(self).room_ids().remove(old(self).room_index(room_id@))
                } else {
                    old(self).room_ids()
                })
            },
            forall|r2: Seq<char>|
                r2 != room_id@ ==> #[trigger] final(self).entries_of(r2) == old(
                    self,
                ).entries_of(r2),
            forall|r2: Seq<char>|
                r2 != room_id@ ==> #[trigger] final(self).has_room(r2) == old(self).has_room(
                    r2,
                ),
    {
        let ghost old_self = *self;
        match self.find_room(room_id) {
            Option::None => LeaveResult::NotMember,
            Option::Some(i) => {
                proof {
                    self.lemma_room_at(i as int);
                }
                match find_member(&self.rooms[i].members, user) {
                    Option::None => LeaveResult::NotMember,
                    Option::Some(j) => {
                        proof {
                            let e = old_self.entries_of(room_id@);
                            assert(e[j as int].0 == user@);
                            lemma_key_at(e, j as int);
                            lemma_distinct_remove(e, j as int);
                        }
                        let ghost old_room = self.rooms@[i as int];
                        let was_len = self.rooms[i].members.len();
                        let mut room = self.rooms.remove(i);
                        room.members.remove(j);
                        let ghost new_room = room;
                        proof {
                            lemma_entries_remove(old_room, new_room, j as int);
                        }
                        if room.members.len() == 0 {
                            proof {
                                assert(self.rooms@ =~= old_self.rooms@.remove(i as int));
                                self.lemma_frame_removed(old_self, i as int, room_id@);
                                assert(self.entries_of(room_id@) =~= old_self.entries_of(
                                    room_id@,
                                ).remove(j as int));
                                assert(self.room_ids() =~= old_self.room_ids().remove(
                                    i as int,
                                ));
                            }
                            LeaveResult::Left { room_now_empty: was_len == 1 }
                        } else {
                            self.rooms.insert(i, room);
                            proof {
                                assert(self.rooms@ =~= old_self.rooms@.update(
                                    i as int,
                                    new_room,
                                ));
                                assert(self.wf());
                                self.lemma_room_at(i as int);
                                self.lemma_frame_except(old_self, i as int, room_id@);
                                assert(self.room_ids() =~= old_self.room_ids());
                            }
                            LeaveResult::Left { room_now_empty: false }
                        }
                    },
                }
            },
        }
    }
}

/// The mathematical value of a planned delivery.
pub open spec fn delivery_view(d: Delivery) -> (u64, MsgView) {
    (d.handle, d.message@)
}

/// The mathematical value of a delivery list.
pub open spec fn deliveries_view(ds: Seq<Delivery>) -> Seq<(u64, MsgView)> {
    ds.map_values(|d: Delivery| delivery_view(d))
}

/// The fan-out of a message over a member list: one delivery per entry
/// whose user is not `except`, in member order, each carrying `m`.
pub open spec fn spec_deliveries(entries: Seq<Entry>, except: Seq<char>, m: MsgView) -> Seq<
    (u64, MsgView),
>
    decreases entries.len(),
{
    if entries.len() == 0 {
        Seq::empty()
    } else {
        let init = spec_deliveries(entries.drop_last(), except, m);
        if entries.last().0 == except {
            init
        } else {
            init.push((entries.last().1, m))
        }
    }
}

/// Fan-out delivers to exactly the members other than the sender, once
/// each, in member order, every copy carrying the same message.
pub proof fn lemma_deliveries_exact(entries: Seq<Entry>, except: Seq<char>, m: MsgView)
    ensures
        spec_deliveries(entries, except, m) == entries.filter(
            |e: Entry| e.0 != except,
        ).map_values(|e: Entry| (e.1, m)),
    decreases entries.len(),
{
    let f = |e: Entry| e.0 != except;
    let g = |e: Entry| (e.1, m);
    if entries.len() == 0 {
        assert(entries.filter(f).map_values(g) =~= Seq::empty());
    } else {
        lemma_deliveries_exact(entries.drop_last(), except, m);
        reveal_with_fuel(Seq::filter, 2);
        if f(entries.last()) {
            assert(entries.filter(f).map_values(g) =~= entries.drop_last().filter(
                f,
            ).map_values(g).push((entries.last().1, m)));
        } else {
            assert(entries.filter(f).map_values(g) =~= entries.drop_last().filter(
                f,
            ).map_values(g));
        }
    }
}

impl RoomRegistry {
    /// Plans the fan-out of a message to every member of the room other
    /// than the sender.  A room that is not live yields no deliveries.
    pub fn broadcast(&self, room_id: &String, except: &String, msg: &WireMessage) -> (r: Vec<
        Delivery,
    >)
        requires
            self.wf(),
        ensures
            deliveries_view(r@) == spec_deliveries(self.entries_of(room_id@), except@, msg@),
    {
        let mut out: Vec<Delivery> = Vec::new();
        match self.find_room(room_id) {
            Option::None => {
                proof {
                    assert(deliveries_view(out@) =~= spec_deliveries(
                        self.entries_of(room_id@),
                        except@,
                        msg@,
                    ));
                }
                out
            },
            Option::Some(i) => {
                proof {
                    self.lemma_room_at(i as int);
                }
                let ghost entries = self.entries_of(room_id@);
                let members = &self.rooms[i].members;
                let mut k: usize = 0;
                while k < members.len()
                    invariant
                        k <= members@.len(),
                        entries == members@.map_values(|mb: Member| (mb.user@, mb.handle)),
                        deliveries_view(out@) == spec_deliveries(
                            entries.take(k as int),
                            except@,
                            msg@,
                        ),
                    decreases members@.len() - k,
                {
                    proof {
                        assert(entries.take(k + 1 as int).drop_last() =~= entries.take(
                            k as int,
                        ));
                        assert(entries.take(k + 1 as int).last() == entries[k as int]);
                    }
                    if !(members[k].user == *except) {
                        out.push(
                            Delivery { handle: members[k].handle, message: msg.dup() },
                        );
                        proof {
                            assert(deliveries_view(out@) =~= spec_deliveries(
                                entries.take(k + 1 as int),
                                except@,
                                msg@,
                            ));
                        }
                    } else {
                        proof {
                            assert(deliveries_view(out@) =~= spec_deliveries(
                                entries.take(k + 1 as int),
                                except@,
                                msg@,
                            ));
                        }
                    }
                    k = k + 1;
                }
                proof {
                    assert(entries.take(members@.len() as int) =~= entries);
                }
                out
            },
        }
    }

    /// Plans the delivery of a targeted message: to a present target,
    /// exactly one delivery on that target's handle, the message passed
    /// through unaltered; to an absent target, none, and no error.
    pub fn send_to_user(&self, room_id: &String, target: &String, msg: &WireMessage) -> (r:
        Option<Delivery>)
        requires
            self.wf(),
        ensures
            r is Some <==> self.is_member(room_id@, target@),
            r matches Some(d) ==> d.handle == self.handle_of(room_id@, target@) && d.message@
                == msg@,
    {
        match self.find_room(room_id) {
            Option::None => Option::None,
            Option::Some(i) => {
                proof {
                    self.lemma_room_at(i as int);
                }
                match find_member(&self.rooms[i].members, target) {
                    Option::None => Option::None,
                    Option::Some(j) => {
                        proof {
                            let e = self.entries_of(room_id@);
                            assert(e[j as int].0 == target@);
                            lemma_key_at(e, j as int);
                        }
                        Option::Some(
                            Delivery {
                                handle: self.rooms[i].members[j].handle,
                                message: msg.dup(),
                            },
                        )
                    },
                }
            },
        }
    }
}

/// Finds the position of the member with this user identifier.
fn find_member(members: &Vec<Member>, user: &String) -> (r: Option<usize>)
    ensures
        match r {
            Option::Some(j) => 0 <= j < members@.len() && members@[j as int].user@ == user@,
            Option::None => !seq_has_key(
                members@.map_values(|m: Member| (m.user@, m.handle)),
                user@,
            ),
        },
{
    let ghost entries = members@.map_values(|m: Member| (m.user@, m.handle));
    let mut j: usize = 0;
    while j < members.len()
        invariant
            j <= members@.len(),
            entries == members@.map_values(|m: Member| (m.user@, m.handle)),
            forall|k: int| 0 <= k < j ==> (#[trigger] members@[k].user@) != user@,
        decreases members@.len() - j,
    {
        if members[j].user == *user {
            return Option::Some(j);
        }
        j = j + 1;
    }
    proof {
        assert(forall|k: int| 0 <= k < entries.len() ==> (#[trigger] entries[k].0)
            == members@[k].user@);
    }
    Option::None
}

} // verus!

