use vstd::prelude::*;
use crate::activity::VoiceStateFlags;
use crate::room::{all_idle, connect_done, disconnect_done, update_done, Room, RoomError, RoomStatus, RoomView};
use crate::transformer::DAY_MS;

verus! {

/// The latest instant that the manager takes, so that every window and expiry
/// computed from a room fits in a `u64`.
pub const INSTANT_MAX: u64 = u64::MAX - DAY_MS;

#[derive(Debug, Clone, Copy, PartialEq, Eq, Structural)]
pub enum RoomManagerError {
    Room(RoomError),
}

/// The room of channel `c` within one shard, if it holds one.
pub closed spec fn shard_room(s: Seq<Room>, c: u64) -> Option<RoomView> {
    if exists|j: int| 0 <= j < s.len() && (#[trigger] s[j]@).channel_id == c {
        Some(s[choose|j: int| 0 <= j < s.len() && (#[trigger] s[j]@).channel_id == c]@)
    } else {
        None
    }
}

/// Rooms of one shard: each well-formed, routed to it, within the accepted
/// instants, and at most one per channel.
pub open spec fn shard_wf(s: Seq<Room>, k: int, n: usize) -> bool {
    &&& forall|j: int|
        0 <= j < s.len() ==> {
            let v = #[trigger] s[j]@;
            &&& v.wf()
            &&& v.channel_id % (n as u64) == k
            &&& v.created_at <= INSTANT_MAX
            &&& v.accepts(INSTANT_MAX)
        }
    &&& forall|a: int, b: int|
        0 <= a < s.len() && 0 <= b < s.len() && a != b ==> (#[trigger] s[a]@).channel_id != (
        #[trigger] s[b]@).channel_id
}

proof fn lemma_shard_room(s: Seq<Room>, c: u64)
    requires
        forall|a: int, b: int|
            0 <= a < s.len() && 0 <= b < s.len() && a != b ==> (#[trigger] s[a]@).channel_id != (
            #[trigger] s[b]@).channel_id,
    ensures
        shard_room(s, c) is Some <==> exists|j: int| 0 <= j < s.len() && (#[trigger] s[j]@).channel_id == c,
        forall|j: int| 0 <= j < s.len() && (#[trigger] s[j]@).channel_id == c ==> shard_room(s, c) == Some(s[j]@),
{
    assert forall|j: int| 0 <= j < s.len() && (#[trigger] s[j]@).channel_id == c implies shard_room(s, c) == Some(s[j]@) by {
        let j2 = choose|j: int| 0 <= j < s.len() && (#[trigger] s[j]@).channel_id == c;
        assert(j2 == j);
    }
}

fn find_room(s: &Vec<Room>, c: u64) -> (r: Option<usize>)
    ensures
        r matches Some(j) ==> j < s@.len() && s@[j as int]@.channel_id == c,
        r is None ==> forall|j: int| 0 <= j < s@.len() ==> (#[trigger] s@[j]@).channel_id != c,
{
    let mut j: usize = 0;
    while j < s.len()
        invariant
            j <= s@.len(),
            forall|i: int| 0 <= i < j ==> (#[trigger] s@[i]@).channel_id != c,
        decreases s@.len() - j,
    {
        if s[j].channel_id() == c {
            return Some(j);
        }
        j = j + 1;
    }
    None
}

/// No participant of the room is connected.
pub open spec fn all_idle_view(v: RoomView) -> bool {
    all_idle(v.participants)
}

/// The outcome of a room operation as seen by the manager.
pub open spec fn lift<T>(r: Result<T, RoomManagerError>) -> Result<(), RoomError> {
    match r {
        Ok(_) => Ok(()),
        Err(RoomManagerError::Room(e)) => Err(e),
    }
}

/// Rooms by channel, split over a fixed number of shards; channel `c` lives
/// in shard `c mod N`.
pub struct RoomManager {
    shards: Vec<Vec<Room>>,
    num_shards: usize,
}

impl RoomManager {
    pub closed spec fn spec_num_shards(&self) -> usize {
        self.num_shards
    }

    /// The room of channel `c`, if any.
    pub closed spec fn room_of(&self, c: u64) -> Option<RoomView> {
        shard_room(self.shards@[(c % (self.num_shards as u64)) as int]@, c)
    }

    pub closed spec fn wf(&self) -> bool {
        &&& self.num_shards > 0
        &&& self.shards@.len() == self.num_shards
        &&& forall|k: int| 0 <= k < self.shards@.len() ==> shard_wf((#[trigger] self.shards@[k])@, k, self.num_shards)
    }

    /// Every room is well-formed and filed under its own channel.
    pub proof fn lemma_rooms_wf(&self, c: u64)
        requires
            self.wf(),
        ensures
            self.room_of(c) matches Some(v) ==> v.wf() && v.channel_id == c && v.accepts(INSTANT_MAX)
                && v.created_at <= INSTANT_MAX,
    {
        let k = (c % (self.num_shards as u64)) as int;
        let s = self.shards@[k]@;
        lemma_shard_room(s, c);
        if self.room_of(c) is Some {
            let j = choose|j: int| 0 <= j < s.len() && (#[trigger] s[j]@).channel_id == c;
            assert(shard_wf(s, k, self.num_shards));
            assert(s[j]@.wf());
        }
    }

    pub fn new(num_shards: usize) -> (r: RoomManager)
        requires
            num_shards > 0,
        ensures
            r.wf(),
            r.spec_num_shards() == num_shards,
            forall|c: u64| r.room_of(c) is None,
    {
        let mut shards: Vec<Vec<Room>> = Vec::new();
        let mut i: usize = 0;
        while i < num_shards
            invariant
                i <= num_shards,
                shards@.len() == i,
                forall|k: int| 0 <= k < i ==> (#[trigger] shards@[k])@.len() == 0,
            decreases num_shards - i,
        {
            shards.push(Vec::new());
            i = i + 1;
        }
        let r = RoomManager { shards, num_shards };
        assert forall|c: u64| r.room_of(c) is None by {
            lemma_shard_room(r.shards@[(c % (num_shards as u64)) as int]@, c);
        }
        r
    }

    fn shard_index(&self, channel_id: u64) -> (k: usize)
        requires
            self.wf(),
        ensures
            k == channel_id % (self.num_shards as u64),
            k < self.shards@.len(),
    {
        (channel_id % (self.num_shards as u64)) as usize
    }

    /// The instant at which an event stamped `now` is applied to the room of
    /// `channel_id`: `now` itself, unless the room has already recorded a
    /// later instant, which is then taken so that events apply in arrival
    /// order.
    pub fn instant_for(&self, channel_id: u64, now: u64) -> (r: u64)
        requires
            self.wf(),
        ensures
            r >= now,
            now <= INSTANT_MAX ==> r <= INSTANT_MAX,
            self.room_of(channel_id) matches Some(v) ==> v.accepts(r),
            self.room_of(channel_id) matches Some(v) && v.accepts(now) ==> r == now,
            self.room_of(channel_id) is None ==> r == now,
    {
        let k = self.shard_index(channel_id);
        let shard = &self.shards[k];
        proof {
            lemma_shard_room(shard@, channel_id);
        }
        match find_room(shard, channel_id) {
            None => now,
            Some(j) => {
                let l = shard[j].latest_instant();
                proof {
                    assert(shard_wf(shard@, k as int, self.num_shards));
                    assert(shard@[j as int]@.accepts(INSTANT_MAX));
                }
                if l > now {
                    l
                } else {
                    now
                }
            },
        }
    }
}


/// Replacing the room at `j` by one of the same channel keeps every other
/// channel's room.
proof fn lemma_shard_room_replace(s: Seq<Room>, j: int, room: Room, c: u64)
    requires
        0 <= j < s.len(),
        room@.channel_id == s[j]@.channel_id,
        c != room@.channel_id,
        forall|a: int, b: int|
            0 <= a < s.len() && 0 <= b < s.len() && a != b ==> (#[trigger] s[a]@).channel_id != (
            #[trigger] s[b]@).channel_id,
    ensures
        shard_room(s.update(j, room), c) == shard_room(s, c),
{
    let s2 = s.update(j, room);
    assert forall|a: int, b: int|
        0 <= a < s2.len() && 0 <= b < s2.len() && a != b implies (#[trigger] s2[a]@).channel_id != (
        #[trigger] s2[b]@).channel_id by {
        assert(s2[a]@.channel_id == s[a]@.channel_id);
        assert(s2[b]@.channel_id == s[b]@.channel_id);
    }
    lemma_shard_room(s, c);
    lemma_shard_room(s2, c);
    if shard_room(s, c) is Some {
        let i = choose|i: int| 0 <= i < s.len() && (#[trigger] s[i]@).channel_id == c;
        assert(s2[i] == s[i]);
    }
    if shard_room(s2, c) is Some {
        let i = choose|i: int| 0 <= i < s2.len() && (#[trigger] s2[i]@).channel_id == c;
        assert(s2[i] == s[i]);
    }
}

/// Appending the room of a new channel keeps every other channel's room.
proof fn lemma_shard_room_push(s: Seq<Room>, room: Room, c: u64)
    requires
        c != room@.channel_id,
        forall|a: int, b: int|
            0 <= a < s.len() && 0 <= b < s.len() && a != b ==> (#[trigger] s[a]@).channel_id != (
            #[trigger] s[b]@).channel_id,
        forall|a: int| 0 <= a < s.len() ==> (#[trigger] s[a]@).channel_id != room@.channel_id,
    ensures
        shard_room(s.push(room), c) == shard_room(s, c),
{
    let s2 = s.push(room);
    assert forall|a: int, b: int|
        0 <= a < s2.len() && 0 <= b < s2.len() && a != b implies (#[trigger] s2[a]@).channel_id != (
        #[trigger] s2[b]@).channel_id by {
        if a < s.len() && b < s.len() {
            assert(s2[a] == s[a] && s2[b] == s[b]);
        } else if a < s.len() {
            assert(s2[a] == s[a]);
        } else {
            assert(s2[b] == s[b]);
        }
    }
    lemma_shard_room(s, c);
    lemma_shard_room(s2, c);
    if shard_room(s, c) is Some {
        let i = choose|i: int| 0 <= i < s.len() && (#[trigger] s[i]@).channel_id == c;
        assert(s2[i] == s[i]);
    }
    if shard_room(s2, c) is Some {
        let i = choose|i: int| 0 <= i < s2.len() && (#[trigger] s2[i]@).channel_id == c;
        assert(i < s.len());
        assert(s2[i] == s[i]);
    }
}

impl RoomManager {
    /// A user joins `channel_id` at `now`. The channel's room is created on
    /// its first connect, with `now` and `start` as its creation instants;
    /// then `Room::handle_connect` applies. Returns a copy of the room for
    /// reporting. Other channels' rooms do not change.
    #[verifier::rlimit(60)]
    pub fn handle_connect_event(
        &mut self,
        now: u64,
        start: u64,
        channel_id: u64,
        guild_id: u64,
        user_id: u64,
        name: String,
        face: String,
        flags: VoiceStateFlags,
    ) -> (r: Result<Room, RoomManagerError>)
        requires
            old(self).wf(),
            now <= INSTANT_MAX,
            old(self).room_of(channel_id) matches Some(v) ==> v.accepts(now),
        ensures
            final(self).wf(),
            final(self).spec_num_shards() == old(self).spec_num_shards(),
            forall|c: u64| c != channel_id ==> #[trigger] final(self).room_of(c) == old(self).room_of(c),
            final(self).room_of(channel_id) is Some,
            ({
                let base = match old(self).room_of(channel_id) {
                    Some(v) => v,
                    None => RoomView {
                        guild_id,
                        channel_id,
                        timestamp: start,
                        created_at: now,
                        participants: Seq::empty(),
                        expires_at: None,
                    },
                };
                connect_done(
                    base,
                    final(self).room_of(channel_id).unwrap(),
                    lift(r),
                    now,
                    user_id,
                    name@,
                    face@,
                    flags,
                )
            }),
            r matches Ok(room) ==> room@.same_as(final(self).room_of(channel_id).unwrap()),
            old(self).room_of(channel_id) is None ==> ({
                let w = final(self).room_of(channel_id).unwrap();
                &&& w.created_at == now
                &&& w.timestamp == start
                &&& w.guild_id == guild_id
                &&& w.channel_id == channel_id
            }),
            old(self).room_of(channel_id) matches Some(v) ==> ({
                let w = final(self).room_of(channel_id).unwrap();
                &&& w.created_at == v.created_at
                &&& w.timestamp == v.timestamp
                &&& w.guild_id == v.guild_id
                &&& w.channel_id == v.channel_id
            }),
    {
        let k = self.shard_index(channel_id);
        let ghost n = self.num_shards;
        let ghost old_shards = self.shards@;
        let mut shard = self.shards.remove(k);
        proof {
            assert(shard == old_shards[k as int]);
            assert(shard_wf(shard@, k as int, n));
            lemma_shard_room(shard@, channel_id);
        }
        let res: Result<Room, RoomManagerError>;
        match find_room(&shard, channel_id) {
            Some(j) => {
                proof {
                    assert(shard@[j as int]@.wf());
                }
                let status = shard[j].handle_connect(now, user_id, name, face, flags);
                let snap = shard[j].snapshot();
                res = match status {
                    Ok(()) => Ok(snap),
                    Err(e) => Err(RoomManagerError::Room(e)),
                };
                proof {
                    let s1 = old_shards[k as int]@;
                    let s2 = shard@;
                    assert(s2 == s1.update(j as int, s2[j as int]));
                    assert forall|c: u64| c != channel_id implies shard_room(s2, c) == shard_room(s1, c) by {
                        lemma_shard_room_replace(s1, j as int, s2[j as int], c);
                    }
                    assert forall|a: int, b: int|
                        0 <= a < s2.len() && 0 <= b < s2.len() && a != b implies (#[trigger] s2[a]@).channel_id != (
                        #[trigger] s2[b]@).channel_id by {
                        assert(s2[a]@.channel_id == s1[a]@.channel_id);
                        assert(s2[b]@.channel_id == s1[b]@.channel_id);
                    }
                    lemma_shard_room(s2, channel_id);
                    assert(s2[j as int]@.accepts(INSTANT_MAX));
                }
            },
            None => {
                let mut room = Room::new(guild_id, channel_id, now, start);
                let _ = room.handle_connect(now, user_id, name, face, flags);
                let snap = room.snapshot();
                res = Ok(snap);
                let ghost s1 = shard@;
                shard.push(room);
                proof {
                    let s2 = shard@;
                    assert(s2 == s1.push(room));
                    assert forall|c: u64| c != channel_id implies shard_room(s2, c) == shard_room(s1, c) by {
                        lemma_shard_room_push(s1, room, c);
                    }
                    assert forall|a: int, b: int|
                        0 <= a < s2.len() && 0 <= b < s2.len() && a != b implies (#[trigger] s2[a]@).channel_id != (
                        #[trigger] s2[b]@).channel_id by {
                        if a < s1.len() && b < s1.len() {
                            assert(s2[a] == s1[a] && s2[b] == s1[b]);
                        } else if a < s1.len() {
                            assert(s2[a] == s1[a]);
                        } else {
                            assert(s2[b] == s1[b]);
                        }
                    }
                    lemma_shard_room(s2, channel_id);
                    assert(s2[s1.len() as int] == room);
                }
            },
        }
        self.shards.insert(k, shard);
        proof {
            assert(self.shards@ == old_shards.update(k as int, shard));
            assert forall|c: u64| c != channel_id implies #[trigger] self.room_of(c) == old(self).room_of(c) by {
                let kc = (c % (n as u64)) as int;
                if kc != k {
                    assert(self.shards@[kc] == old_shards[kc]);
                }
            }
            assert forall|kk: int| 0 <= kk < self.shards@.len() implies shard_wf((#[trigger] self.shards@[kk])@, kk, n) by {
                if kk != k {
                    assert(self.shards@[kk] == old_shards[kk]);
                }
            }
        }
        res
    }
}


impl RoomManager {
    /// A user leaves `channel_id` at `now` (see `Room::handle_disconnect`). A
    /// channel without a room is left alone: the event predates what the
    /// manager has seen. Other channels' rooms do not change.
    #[verifier::rlimit(60)]
    pub fn handle_disconnect_event(&mut self, now: u64, channel_id: u64, user_id: u64) -> (r: Result<(), RoomManagerError>)
        requires
            old(self).wf(),
            now <= INSTANT_MAX,
            old(self).room_of(channel_id) matches Some(v) ==> v.accepts(now),
        ensures
            final(self).wf(),
            final(self).spec_num_shards() == old(self).spec_num_shards(),
            forall|c: u64| c != channel_id ==> #[trigger] final(self).room_of(c) == old(self).room_of(c),
            old(self).room_of(channel_id) is None ==> r is Ok && final(self).room_of(channel_id) is None,
            old(self).room_of(channel_id) matches Some(v) ==> final(self).room_of(channel_id) matches Some(w)
                && w.created_at == v.created_at && w.timestamp == v.timestamp
                && w.guild_id == v.guild_id && w.channel_id == v.channel_id && disconnect_done(v, w, match r {
                    Ok(()) => Ok(if all_idle_view(w) { RoomStatus::Idle } else { RoomStatus::Occupied }),
                    Err(RoomManagerError::Room(e)) => Err(e),
                }, now, user_id),
    {
        let k = self.shard_index(channel_id);
        let ghost n = self.num_shards;
        let ghost old_shards = self.shards@;
        let mut shard = self.shards.remove(k);
        proof {
            assert(shard == old_shards[k as int]);
            assert(shard_wf(shard@, k as int, n));
            lemma_shard_room(shard@, channel_id);
        }
        let res: Result<(), RoomManagerError>;
        match find_room(&shard, channel_id) {
            Some(j) => {
                proof {
                    assert(shard@[j as int]@.wf());
                }
                let status = shard[j].handle_disconnect(now, user_id);
                res = match status {
                    Ok(_) => Ok(()),
                    Err(e) => Err(RoomManagerError::Room(e)),
                };
                proof {
                    let s1 = old_shards[k as int]@;
                    let s2 = shard@;
                    assert(s2 == s1.update(j as int, s2[j as int]));
                    assert forall|c: u64| c != channel_id implies shard_room(s2, c) == shard_room(s1, c) by {
                        lemma_shard_room_replace(s1, j as int, s2[j as int], c);
                    }
                    assert forall|a: int, b: int|
                        0 <= a < s2.len() && 0 <= b < s2.len() && a != b implies (#[trigger] s2[a]@).channel_id != (
                        #[trigger] s2[b]@).channel_id by {
                        assert(s2[a]@.channel_id == s1[a]@.channel_id);
                        assert(s2[b]@.channel_id == s1[b]@.channel_id);
                    }
                    lemma_shard_room(s2, channel_id);
                    assert(s2[j as int]@.accepts(INSTANT_MAX));
                }
            },
            None => {
                res = Ok(());
            },
        }
        self.shards.insert(k, shard);
        proof {
            assert(self.shards@ == old_shards.update(k as int, shard));
            assert forall|c: u64| c != channel_id implies #[trigger] self.room_of(c) == old(self).room_of(c) by {
                let kc = (c % (n as u64)) as int;
                if kc != k {
                    assert(self.shards@[kc] == old_shards[kc]);
                }
            }
            assert forall|kk: int| 0 <= kk < self.shards@.len() implies shard_wf((#[trigger] self.shards@[kk])@, kk, n) by {
                if kk != k {
                    assert(self.shards@[kk] == old_shards[kk]);
                }
            }
        }
        res
    }
}

impl RoomManager {
    /// A user of `channel_id` changes flags at `now` (see `Room::handle_update`).
    /// A channel without a room is left alone. Other channels' rooms do not
    /// change.
    #[verifier::rlimit(60)]
    pub fn handle_update_event(&mut self, now: u64, channel_id: u64, user_id: u64, flags: VoiceStateFlags) -> (r: Result<(), RoomManagerError>)
        requires
            old(self).wf(),
            now <= INSTANT_MAX,
            old(self).room_of(channel_id) matches Some(v) ==> v.accepts(now),
        ensures
            final(self).wf(),
            final(self).spec_num_shards() == old(self).spec_num_shards(),
            forall|c: u64| c != channel_id ==> #[trigger] final(self).room_of(c) == old(self).room_of(c),
            old(self).room_of(channel_id) is None ==> r is Ok && final(self).room_of(channel_id) is None,
            old(self).room_of(channel_id) matches Some(v) ==> final(self).room_of(channel_id) matches Some(w)
                && w.expires_at == v.expires_at && w.created_at == v.created_at && w.timestamp == v.timestamp
                && w.guild_id == v.guild_id && w.channel_id == v.channel_id && update_done(v, w, lift(r), now, user_id, flags),
    {
        let k = self.shard_index(channel_id);
        let ghost n = self.num_shards;
        let ghost old_shards = self.shards@;
        let mut shard = self.shards.remove(k);
        proof {
            assert(shard == old_shards[k as int]);
            assert(shard_wf(shard@, k as int, n));
            lemma_shard_room(shard@, channel_id);
        }
        let res: Result<(), RoomManagerError>;
        match find_room(&shard, channel_id) {
            Some(j) => {
                proof {
                    assert(shard@[j as int]@.wf());
                }
                let status = shard[j].handle_update(now, user_id, flags);
                res = match status {
                    Ok(_) => Ok(()),
                    Err(e) => Err(RoomManagerError::Room(e)),
                };
                proof {
                    let s1 = old_shards[k as int]@;
                    let s2 = shard@;
                    assert(s2 == s1.update(j as int, s2[j as int]));
                    assert forall|c: u64| c != channel_id implies shard_room(s2, c) == shard_room(s1, c) by {
                        lemma_shard_room_replace(s1, j as int, s2[j as int], c);
                    }
                    assert forall|a: int, b: int|
                        0 <= a < s2.len() && 0 <= b < s2.len() && a != b implies (#[trigger] s2[a]@).channel_id != (
                        #[trigger] s2[b]@).channel_id by {
                        assert(s2[a]@.channel_id == s1[a]@.channel_id);
                        assert(s2[b]@.channel_id == s1[b]@.channel_id);
                    }
                    lemma_shard_room(s2, channel_id);
                    assert(s2[j as int]@.accepts(INSTANT_MAX));
                }
            },
            None => {
                res = Ok(());
            },
        }
        self.shards.insert(k, shard);
        proof {
            assert(self.shards@ == old_shards.update(k as int, shard));
            assert forall|c: u64| c != channel_id implies #[trigger] self.room_of(c) == old(self).room_of(c) by {
                let kc = (c % (n as u64)) as int;
                if kc != k {
                    assert(self.shards@[kc] == old_shards[kc]);
                }
            }
            assert forall|kk: int| 0 <= kk < self.shards@.len() implies shard_wf((#[trigger] self.shards@[kk])@, kk, n) by {
                if kk != k {
                    assert(self.shards@[kk] == old_shards[kk]);
                }
            }
        }
        res
    }
}

/// The room has gone idle and its expiry has passed at `now`.
pub open spec fn expired(v: RoomView, now: u64) -> bool {
    v.expires_at matches Some(e) && now > e
}

/// The room of `c` goes: it has expired and nobody else holds it.
pub open spec fn reapable(room: Option<RoomView>, c: u64, now: u64, in_use: Seq<u64>) -> bool {
    room matches Some(v) && expired(v, now) && !in_use.contains(c)
}

fn contains_channel(ids: &Vec<u64>, x: u64) -> (r: bool)
    ensures
        r == ids@.contains(x),
{
    let mut i: usize = 0;
    while i < ids.len()
        invariant
            i <= ids@.len(),
            forall|j: int| 0 <= j < i ==> ids@[j] != x,
        decreases ids@.len() - i,
    {
        if ids[i] == x {
            assert(ids@[i as int] == x);
            return true;
        }
        i = i + 1;
    }
    false
}

/// Splits one shard into the rooms that stay and the channels whose rooms go.
#[verifier::rlimit(60)]
fn sweep_shard(shard: Vec<Room>, k: Ghost<int>, n: Ghost<usize>, now: u64, in_use: &Vec<u64>) -> (r: (
    Vec<Room>,
    Vec<u64>,
))
    requires
        shard_wf(shard@, k@, n@),
    ensures
        shard_wf(r.0@, k@, n@),
        forall|c: u64|
            #[trigger] shard_room(r.0@, c) == (if reapable(shard_room(shard@, c), c, now, in_use@) {
                None
            } else {
                shard_room(shard@, c)
            }),
        forall|c: u64| #[trigger] r.1@.contains(c) <==> reapable(shard_room(shard@, c), c, now, in_use@),
{
    let ghost orig = shard@;
    let mut shard = shard;
    let mut kept: Vec<Room> = Vec::new();
    let mut removed: Vec<u64> = Vec::new();
    proof {
        lemma_shard_room(orig, 0);
    }
    while shard.len() > 0
        invariant
            shard_wf(orig, k@, n@),
            shard@ == orig.take(shard@.len() as int),
            shard@.len() <= orig.len(),
            forall|x: int|
                0 <= x < kept@.len() ==> exists|i: int|
                    shard@.len() <= i < orig.len() && #[trigger] kept@[x] == orig[i],
            forall|x: int| 0 <= x < kept@.len() ==> !reapable(Some((#[trigger] kept@[x])@), kept@[x]@.channel_id, now, in_use@),
            forall|a: int, b: int|
                0 <= a < kept@.len() && 0 <= b < kept@.len() && a != b ==> (#[trigger] kept@[a]@).channel_id != (
                #[trigger] kept@[b]@).channel_id,
            forall|i: int|
                shard@.len() <= i < orig.len() ==> (reapable(Some((#[trigger] orig[i])@), orig[i]@.channel_id, now, in_use@)
                    <==> removed@.contains(orig[i]@.channel_id)),
            forall|i: int|
                shard@.len() <= i < orig.len() && !reapable(Some((#[trigger] orig[i])@), orig[i]@.channel_id, now, in_use@)
                    ==> exists|x: int| 0 <= x < kept@.len() && kept@[x] == orig[i],
            forall|c: u64| #[trigger] removed@.contains(c) ==> exists|i: int|
                shard@.len() <= i < orig.len() && orig[i]@.channel_id == c,
        decreases shard@.len(),
    {
        let ghost p = shard@.len() - 1;
        let room = shard.pop().unwrap();
        assert(room == orig[p]);
        let ch = room.channel_id();
        let gone = room.has_expired(now) && !contains_channel(in_use, ch);
        let ghost removed_before = removed@;
        proof {
            if removed_before.contains(ch) {
                let i = choose|i: int| p + 1 <= i < orig.len() && orig[i]@.channel_id == ch;
                assert(orig[i]@.channel_id != orig[p]@.channel_id);
            }
        }
        if gone {
            removed.push(ch);
        } else {
            let ghost kept_before = kept@;
            kept.push(room);
            proof {
                assert forall|x: int| 0 <= x < kept_before.len() implies (#[trigger] kept_before[x])@.channel_id != ch by {
                    let i = choose|i: int| p < i < orig.len() && #[trigger] kept_before[x] == orig[i];
                    assert(orig[i]@.channel_id != orig[p]@.channel_id);
                }
                assert forall|x: int|
                    0 <= x < kept@.len() implies exists|i: int|
                        shard@.len() <= i < orig.len() && #[trigger] kept@[x] == orig[i] by {
                    if x == kept@.len() - 1 {
                        assert(kept@[x] == orig[p]);
                    } else {
                        assert(kept@[x] == kept_before[x]);
                    }
                }
                assert forall|i: int|
                    shard@.len() <= i < orig.len() && !reapable(Some((#[trigger] orig[i])@), orig[i]@.channel_id, now, in_use@)
                        implies exists|x: int| 0 <= x < kept@.len() && kept@[x] == orig[i] by {
                    if i == p {
                        assert(kept@[kept@.len() - 1] == orig[i]);
                    } else {
                        let x = choose|x: int| 0 <= x < kept_before.len() && kept_before[x] == orig[i];
                        assert(kept@[x] == orig[i]);
                    }
                }
            }
        }
        proof {
            assert(shard@ == orig.take(shard@.len() as int));
            assert(!removed_before.contains(ch));
            assert forall|c: u64| #[trigger] removed@.contains(c) <==> (removed_before.contains(c) || (gone
                && c == ch)) by {
                if gone {
                    assert(removed@ == removed_before.push(ch));
                    if c == ch {
                        assert(removed@[removed@.len() - 1] == ch);
                    }
                    if removed_before.contains(c) {
                        let x = choose|x: int| 0 <= x < removed_before.len() && removed_before[x] == c;
                        assert(removed@[x] == c);
                    }
                }
            }
            assert forall|i: int|
                shard@.len() <= i < orig.len() implies (reapable(Some((#[trigger] orig[i])@), orig[i]@.channel_id, now, in_use@)
                    <==> removed@.contains(orig[i]@.channel_id)) by {
                if i != p {
                    assert(orig[i]@.channel_id != orig[p]@.channel_id);
                }
            }
            assert forall|c: u64| #[trigger] removed@.contains(c) implies exists|i: int|
                shard@.len() <= i < orig.len() && orig[i]@.channel_id == c by {
                if !removed_before.contains(c) {
                    assert(orig[p]@.channel_id == c);
                }
            }
        }
    }
    proof {
        lemma_shard_room(orig, 0);
        lemma_shard_room(kept@, 0);
        assert forall|j: int| 0 <= j < kept@.len() implies {
            let v = #[trigger] kept@[j]@;
            &&& v.wf()
            &&& v.channel_id % (n@ as u64) == k@
            &&& v.created_at <= INSTANT_MAX
            &&& v.accepts(INSTANT_MAX)
        } by {
            let i = choose|i: int| 0 <= i < orig.len() && #[trigger] kept@[j] == orig[i];
        }
        assert forall|c: u64|
            #[trigger] shard_room(kept@, c) == (if reapable(shard_room(orig, c), c, now, in_use@) {
                None
            } else {
                shard_room(orig, c)
            }) by {
            lemma_shard_room(orig, c);
            lemma_shard_room(kept@, c);
            if shard_room(orig, c) is Some {
                let i = choose|i: int| 0 <= i < orig.len() && (#[trigger] orig[i]@).channel_id == c;
                if !reapable(Some(orig[i]@), c, now, in_use@) {
                    let x = choose|x: int| 0 <= x < kept@.len() && kept@[x] == orig[i];
                    assert(kept@[x]@.channel_id == c);
                }
            }
            if shard_room(kept@, c) is Some {
                let x = choose|x: int| 0 <= x < kept@.len() && (#[trigger] kept@[x]@).channel_id == c;
                let i = choose|i: int| 0 <= i < orig.len() && #[trigger] kept@[x] == orig[i];
                assert(orig[i]@.channel_id == c);
            }
        }
        assert forall|c: u64| #[trigger] removed@.contains(c) <==> reapable(shard_room(orig, c), c, now, in_use@) by {
            lemma_shard_room(orig, c);
            if removed@.contains(c) {
                let i = choose|i: int| 0 <= i < orig.len() && orig[i]@.channel_id == c;
                assert(reapable(Some(orig[i]@), orig[i]@.channel_id, now, in_use@));
            }
            if shard_room(orig, c) is Some {
                let i = choose|i: int| 0 <= i < orig.len() && (#[trigger] orig[i]@).channel_id == c;
            }
        }
    }
    (kept, removed)
}

impl RoomManager {
    /// Reaps the rooms whose idle expiry has passed at `now`, except those of
    /// the channels in `in_use`, which another task holds: they wait for the
    /// next sweep. Returns the reaped channels.
    pub fn cleanup(&mut self, now: u64, in_use: &Vec<u64>) -> (r: Vec<u64>)
        requires
            old(self).wf(),
        ensures
            final(self).wf(),
            final(self).spec_num_shards() == old(self).spec_num_shards(),
            forall|c: u64|
                #[trigger] final(self).room_of(c) == (if reapable(old(self).room_of(c), c, now, in_use@) {
                    None
                } else {
                    old(self).room_of(c)
                }),
            forall|c: u64| #[trigger] r@.contains(c) <==> reapable(old(self).room_of(c), c, now, in_use@),
    {
        let ghost n = self.num_shards;
        let ghost old_shards = self.shards@;
        let mut removed: Vec<u64> = Vec::new();
        let mut k: usize = 0;
        while k < self.num_shards
            invariant
                self.num_shards == n,
                n > 0,
                self.shards@.len() == n,
                old_shards.len() == n,
                k <= n,
                forall|kk: int| 0 <= kk < n ==> shard_wf((#[trigger] self.shards@[kk])@, kk, n),
                forall|kk: int| k <= kk < n ==> #[trigger] self.shards@[kk] == old_shards[kk],
                forall|c: u64|
                    (c % (n as u64)) < k ==> #[trigger] shard_room(self.shards@[(c % (n as u64)) as int]@, c) == (
                    if reapable(shard_room(old_shards[(c % (n as u64)) as int]@, c), c, now, in_use@) {
                        None
                    } else {
                        shard_room(old_shards[(c % (n as u64)) as int]@, c)
                    }),
                forall|c: u64| #[trigger] removed@.contains(c) <==> ((c % (n as u64)) < k && reapable(
                    shard_room(old_shards[(c % (n as u64)) as int]@, c),
                    c,
                    now,
                    in_use@,
                )),
            decreases n - k,
        {
            let ghost before = self.shards@;
            let ghost removed_before = removed@;
            let shard = self.shards.remove(k);
            assert(shard == before[k as int]);
            let (kept, mut gone) = sweep_shard(shard, Ghost(k as int), Ghost(n), now, in_use);
            let ghost gone_seq = gone@;
            removed.append(&mut gone);
            self.shards.insert(k, kept);
            proof {
                assert(self.shards@ == before.update(k as int, kept));
                assert forall|kk: int| 0 <= kk < n implies shard_wf((#[trigger] self.shards@[kk])@, kk, n) by {
                    if kk != k {
                        assert(self.shards@[kk] == before[kk]);
                    }
                }
                assert forall|c: u64| #[trigger] removed@.contains(c) <==> ((c % (n as u64)) < k + 1 && reapable(
                    shard_room(old_shards[(c % (n as u64)) as int]@, c),
                    c,
                    now,
                    in_use@,
                )) by {
                    let kc = (c % (n as u64)) as int;
                    assert(removed@ == removed_before + gone_seq);
                    assert(removed@.contains(c) <==> (removed_before.contains(c) || gone_seq.contains(c)) ) by {
                        if removed_before.contains(c) {
                            let x = choose|x: int| 0 <= x < removed_before.len() && removed_before[x] == c;
                            assert(removed@[x] == c);
                        }
                        if gone_seq.contains(c) {
                            let x = choose|x: int| 0 <= x < gone_seq.len() && gone_seq[x] == c;
                            assert(removed@[removed_before.len() + x] == c);
                        }
                        if removed@.contains(c) {
                            let x = choose|x: int| 0 <= x < removed@.len() && removed@[x] == c;
                            if x < removed_before.len() {
                                assert(removed_before[x] == c);
                            } else {
                                assert(gone_seq[x - removed_before.len()] == c);
                            }
                        }
                    }
                    if gone_seq.contains(c) {
                        // only channels routed to shard k sit in it
                        lemma_shard_room(before[k as int]@, c);
                        let j = choose|j: int| 0 <= j < before[k as int]@.len() && (#[trigger] before[k as int]@[j]@).channel_id == c;
                        assert(shard_wf(before[k as int]@, k as int, n));
                        assert(before[k as int]@[j]@.channel_id % (n as u64) == k);
                    }
                    if kc == k {
                        assert(before[k as int] == old_shards[k as int]);
                    }
                }
            }
            k = k + 1;
        }
        proof {
            assert forall|c: u64|
                #[trigger] self.room_of(c) == (if reapable(old(self).room_of(c), c, now, in_use@) {
                    None
                } else {
                    old(self).room_of(c)
                }) by {
                assert(shard_room(self.shards@[(c % (n as u64)) as int]@, c) == (
                    if reapable(shard_room(old_shards[(c % (n as u64)) as int]@, c), c, now, in_use@) {
                        None
                    } else {
                        shard_room(old_shards[(c % (n as u64)) as int]@, c)
                    }));
            }
        }
        removed
    }

    /// A copy of the room of `channel_id`, if there is one.
    pub fn room(&self, channel_id: u64) -> (r: Option<Room>)
        requires
            self.wf(),
        ensures
            r is Some <==> self.room_of(channel_id) is Some,
            r matches Some(room) ==> room@.same_as(self.room_of(channel_id).unwrap()),
    {
        let k = self.shard_index(channel_id);
        let shard = &self.shards[k];
        proof {
            lemma_shard_room(shard@, channel_id);
        }
        match find_room(shard, channel_id) {
            Some(j) => Some(shard[j].snapshot()),
            None => None,
        }
    }

    /// Copies of all rooms, shard by shard.
    pub fn get_all_rooms(&self) -> (r: Vec<Room>)
        requires
            self.wf(),
        ensures
            forall|i: int|
                0 <= i < r@.len() ==> (self.room_of((#[trigger] r@[i])@.channel_id) matches Some(v)
                    && r@[i]@.same_as(v)),
            forall|c: u64| self.room_of(c) is Some ==> exists|i: int| 0 <= i < r@.len() && (#[trigger] r@[i]@).channel_id == c,
            forall|a: int, b: int|
                0 <= a < r@.len() && 0 <= b < r@.len() && a != b ==> (#[trigger] r@[a]@).channel_id != (
                #[trigger] r@[b]@).channel_id,
    {
        let mut all: Vec<Room> = Vec::new();
        let mut k: usize = 0;
        while k < self.shards.len()
            invariant
                self.wf(),
                k <= self.shards@.len(),
                forall|i: int| 0 <= i < all@.len() ==> ((#[trigger] all@[i])@.channel_id % (self.num_shards as u64)) < k,
                forall|a: int, b: int|
                    0 <= a < all@.len() && 0 <= b < all@.len() && a != b ==> (#[trigger] all@[a]@).channel_id != (
                    #[trigger] all@[b]@).channel_id,

                forall|i: int|
                    0 <= i < all@.len() ==> (self.room_of((#[trigger] all@[i])@.channel_id) matches Some(v)
                        && all@[i]@.same_as(v)),
                forall|kk: int, j: int|
                    0 <= kk < k && 0 <= j < self.shards@[kk]@.len() ==> exists|i: int|
                        0 <= i < all@.len() && (#[trigger] all@[i]@).channel_id == (#[trigger] self.shards@[kk]@[j]@).channel_id,
            decreases self.shards@.len() - k,
        {
            let shard = &self.shards[k];
            proof {
                assert(shard_wf(shard@, k as int, self.num_shards));
            }
            let mut j: usize = 0;
            while j < shard.len()
                invariant
                    self.wf(),
                    k < self.shards@.len(),
                    shard == self.shards@[k as int],
                    shard_wf(shard@, k as int, self.num_shards),
                    j <= shard@.len(),
                    forall|i: int| 0 <= i < all@.len() ==> ((#[trigger] all@[i])@.channel_id % (self.num_shards as u64)) < k
                        || exists|jj: int| 0 <= jj < j && all@[i]@.channel_id == (#[trigger] shard@[jj]@).channel_id,
                    forall|a: int, b: int|
                        0 <= a < all@.len() && 0 <= b < all@.len() && a != b ==> (#[trigger] all@[a]@).channel_id != (
                        #[trigger] all@[b]@).channel_id,

                    forall|i: int|
                        0 <= i < all@.len() ==> (self.room_of((#[trigger] all@[i])@.channel_id) matches Some(v)
                            && all@[i]@.same_as(v)),
                    forall|kk: int, jj: int|
                        0 <= kk < k && 0 <= jj < self.shards@[kk]@.len() ==> exists|i: int|
                            0 <= i < all@.len() && (#[trigger] all@[i]@).channel_id == (#[trigger] self.shards@[kk]@[jj]@).channel_id,
                    forall|jj: int|
                        0 <= jj < j ==> exists|i: int|
                            0 <= i < all@.len() && (#[trigger] all@[i]@).channel_id == (#[trigger] shard@[jj]@).channel_id,
                decreases shard@.len() - j,
            {
                let snap = shard[j].snapshot();
                proof {
                    let c = shard@[j as int]@.channel_id;
                    lemma_shard_room(shard@, c);
                    assert(c % (self.num_shards as u64) == k);
                }
                let ghost before = all@;
                all.push(snap);
                proof {
                    assert(all@[before.len() as int] == snap);
                    let c = shard@[j as int]@.channel_id;
                    assert(snap@.channel_id == c);
                    assert forall|a: int| 0 <= a < before.len() implies (#[trigger] before[a]@).channel_id != c by {
                        if (before[a]@.channel_id % (self.num_shards as u64)) >= k {
                            let jj = choose|jj: int| 0 <= jj < j && before[a]@.channel_id == (#[trigger] shard@[jj]@).channel_id;
                            assert(shard@[jj]@.channel_id != shard@[j as int]@.channel_id);
                        }
                    }
                    assert forall|a: int, b: int|
                        0 <= a < all@.len() && 0 <= b < all@.len() && a != b implies (#[trigger] all@[a]@).channel_id != (
                        #[trigger] all@[b]@).channel_id by {
                        if a < before.len() && b < before.len() {
                            assert(all@[a] == before[a] && all@[b] == before[b]);
                        } else if a < before.len() {
                            assert(all@[a] == before[a]);
                        } else {
                            assert(all@[b] == before[b]);
                        }
                    }
                    assert forall|i: int| 0 <= i < all@.len() implies ((#[trigger] all@[i])@.channel_id % (self.num_shards as u64)) < k
                        || exists|jj: int| 0 <= jj < j + 1 && all@[i]@.channel_id == (#[trigger] shard@[jj]@).channel_id by {
                        if i < before.len() {
                            assert(all@[i] == before[i]);
                        } else {
                            assert(all@[i]@.channel_id == shard@[j as int]@.channel_id);
                        }
                    }
                    assert forall|kk: int, jj: int|
                        0 <= kk < k && 0 <= jj < self.shards@[kk]@.len() implies exists|i: int|
                            0 <= i < all@.len() && (#[trigger] all@[i]@).channel_id == (#[trigger] self.shards@[kk]@[jj]@).channel_id by {
                        let i = choose|i: int| 0 <= i < before.len() && (#[trigger] before[i]@).channel_id == self.shards@[kk]@[jj]@.channel_id;
                        assert(all@[i] == before[i]);
                    }
                    assert forall|jj: int|
                        0 <= jj < j + 1 implies exists|i: int|
                            0 <= i < all@.len() && (#[trigger] all@[i]@).channel_id == (#[trigger] shard@[jj]@).channel_id by {
                        if jj < j {
                            let i = choose|i: int| 0 <= i < before.len() && (#[trigger] before[i]@).channel_id == shard@[jj]@.channel_id;
                            assert(all@[i] == before[i]);
                        }
                    }
                    assert forall|i: int|
                        0 <= i < all@.len() implies (self.room_of((#[trigger] all@[i])@.channel_id) matches Some(v)
                            && all@[i]@.same_as(v)) by {
                        if i < before.len() {
                            assert(all@[i] == before[i]);
                        }
                    }
                }
                j = j + 1;
            }
            proof {
                assert forall|i: int| 0 <= i < all@.len() implies ((#[trigger] all@[i])@.channel_id % (self.num_shards as u64)) < k + 1 by {
                    if (all@[i]@.channel_id % (self.num_shards as u64)) >= k {
                        let jj = choose|jj: int| 0 <= jj < shard@.len() && all@[i]@.channel_id == (#[trigger] shard@[jj]@).channel_id;
                    }
                }
            }
            k = k + 1;
        }
        proof {
            assert forall|c: u64| self.room_of(c) is Some implies exists|i: int| 0 <= i < all@.len() && (#[trigger] all@[i]@).channel_id == c by {
                let kc = (c % (self.num_shards as u64)) as int;
                lemma_shard_room(self.shards@[kc]@, c);
                let j = choose|j: int| 0 <= j < self.shards@[kc]@.len() && (#[trigger] self.shards@[kc]@[j]@).channel_id == c;
            }
        }
        all
    }
}

} // verus!
