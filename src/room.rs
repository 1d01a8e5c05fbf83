use vstd::prelude::*;
use crate::activity::{Activity, ActivityError, VoiceStateFlags};
use crate::participant::{history_connected, history_updated, Participant};

verus! {

/// How long an emptied room is kept before it may be reaped (milliseconds).
pub const IDLE_TIMEOUT_MS: u64 = 60_000;

#[derive(Debug, Clone, Copy, PartialEq, Eq, Structural)]
pub enum RoomError {
    ParticipantNotFound,
    Activity(ActivityError),
}

#[derive(Debug, Clone, Copy, PartialEq, Eq, Structural)]
pub enum RoomStatus {
    Occupied,
    Idle,
}

/// No participant has an open activity.
pub open spec fn all_idle(ps: Seq<Participant>) -> bool {
    forall|i: int| 0 <= i < ps.len() ==> !(#[trigger] ps[i]).spec_is_connected()
}

/// Participants of one room: each well-formed with a non-empty history, and
/// each user at most once.
pub open spec fn participants_wf(ps: Seq<Participant>) -> bool {
    &&& forall|i: int| 0 <= i < ps.len() ==> (#[trigger] ps[i]).wf()
    &&& forall|i: int| 0 <= i < ps.len() ==> (#[trigger] ps[i]).spec_history().len() > 0
    &&& forall|i: int, j: int|
        0 <= i < ps.len() && 0 <= j < ps.len() && i != j ==> (#[trigger] ps[i]).spec_user_id()
            != (#[trigger] ps[j]).spec_user_id()
}

pub struct RoomView {
    pub guild_id: u64,
    pub channel_id: u64,
    /// Wall-clock creation time, milliseconds since the Unix epoch.
    pub timestamp: u64,
    pub created_at: u64,
    pub participants: Seq<Participant>,
    pub expires_at: Option<u64>,
}

impl RoomView {
    /// The expiry is set exactly when the room has participants and none of
    /// them is connected.
    pub open spec fn wf(self) -> bool {
        &&& participants_wf(self.participants)
        &&& (self.expires_at is Some <==> (self.participants.len() > 0 && all_idle(
            self.participants,
        )))
    }

    /// `now` is no earlier than anything the room has recorded.
    pub open spec fn accepts(self, now: u64) -> bool {
        forall|i: int| 0 <= i < self.participants.len() ==> now >= (#[trigger] self.participants[i]).latest()
    }

    /// Equal fields, and participants that are pairwise the same.
    pub open spec fn same_as(self, other: RoomView) -> bool {
        &&& self.guild_id == other.guild_id
        &&& self.channel_id == other.channel_id
        &&& self.timestamp == other.timestamp
        &&& self.created_at == other.created_at
        &&& self.expires_at == other.expires_at
        &&& self.participants.len() == other.participants.len()
        &&& forall|i: int|
            0 <= i < self.participants.len() ==> (#[trigger] self.participants[i]).same_as(
                other.participants[i],
            )
    }

    pub open spec fn has_user(self, user_id: u64) -> bool {
        exists|i: int| 0 <= i < self.participants.len() && (#[trigger] self.participants[i]).spec_user_id() == user_id
    }
}

/// What `Room::handle_connect` does to a room.
pub open spec fn connect_done(old: RoomView, new: RoomView, r: Result<(), RoomError>, now: u64, user_id: u64, name: Seq<char>, face: Seq<char>, flags: VoiceStateFlags) -> bool {
    &&& forall|i: int|
        0 <= i < old.participants.len()
            && (#[trigger] old.participants[i]).spec_user_id() == user_id
            && old.participants[i].spec_is_connected() ==> r == Err::<(), RoomError>(
            RoomError::Activity(ActivityError::AlreadyStarted),
        ) && new == old
    &&& forall|i: int|
        0 <= i < old.participants.len()
            && (#[trigger] old.participants[i]).spec_user_id() == user_id
            && !old.participants[i].spec_is_connected() ==> {
            &&& r is Ok
            &&& new.expires_at is None
            &&& new.participants.len() == old.participants.len()
            &&& forall|j: int|
                0 <= j < old.participants.len() && j != i
                    ==> new.participants[j] == old.participants[j]
            &&& new.participants[i].spec_user_id() == user_id
            &&& new.participants[i].spec_name() == name
            &&& new.participants[i].spec_face() == face
            &&& new.participants[i].spec_history()
                == old.participants[i].spec_history().push(
                Activity { start: now, end: None, flags },
            )
        }
    &&& !old.has_user(user_id) ==> {
        &&& r is Ok
        &&& new.expires_at is None
        &&& new.participants.len() == old.participants.len() + 1
        &&& new.participants.drop_last() == old.participants
        &&& new.participants.last().spec_user_id() == user_id
        &&& new.participants.last().spec_name() == name
        &&& new.participants.last().spec_face() == face
        &&& new.participants.last().spec_history() == seq![
            Activity { start: now, end: None, flags },
        ]
    }
}

/// What `Room::handle_disconnect` does to a room.
pub open spec fn disconnect_done(old: RoomView, new: RoomView, r: Result<RoomStatus, RoomError>, now: u64, user_id: u64) -> bool {
    &&& !old.has_user(user_id) ==> r == Err::<RoomStatus, RoomError>(
        RoomError::ParticipantNotFound,
    ) && new == old
    &&& forall|i: int|
        0 <= i < old.participants.len()
            && (#[trigger] old.participants[i]).spec_user_id() == user_id
            && !old.participants[i].spec_is_connected() ==> r == Err::<
            RoomStatus,
            RoomError,
        >(RoomError::Activity(ActivityError::NoActiveActivity)) && new == old
    &&& forall|i: int|
        0 <= i < old.participants.len()
            && (#[trigger] old.participants[i]).spec_user_id() == user_id
            && old.participants[i].spec_is_connected() ==> {
            let h = old.participants[i].spec_history();
            &&& new.participants.len() == old.participants.len()
            &&& forall|j: int|
                0 <= j < old.participants.len() && j != i
                    ==> new.participants[j] == old.participants[j]
            &&& new.participants[i].spec_user_id() == user_id
            &&& new.participants[i].spec_name() == old.participants[i].spec_name()
            &&& new.participants[i].spec_face() == old.participants[i].spec_face()
            &&& new.participants[i].spec_history() == h.update(
                h.len() - 1,
                Activity { end: Some(now), ..h.last() },
            )
            &&& all_idle(new.participants) ==> r == Ok::<RoomStatus, RoomError>(
                RoomStatus::Idle,
            ) && new.expires_at == Some((now + IDLE_TIMEOUT_MS) as u64)
            &&& !all_idle(new.participants) ==> r == Ok::<RoomStatus, RoomError>(
                RoomStatus::Occupied,
            ) && new.expires_at is None
        }
}

/// What `Room::handle_update` does to a room.
pub open spec fn update_done(old: RoomView, new: RoomView, r: Result<(), RoomError>, now: u64, user_id: u64, flags: VoiceStateFlags) -> bool {
    &&& !old.has_user(user_id) ==> r == Err::<(), RoomError>(
        RoomError::ParticipantNotFound,
    ) && new == old
    &&& forall|i: int|
        0 <= i < old.participants.len()
            && (#[trigger] old.participants[i]).spec_user_id() == user_id
            && !old.participants[i].spec_is_connected() ==> r == Err::<(), RoomError>(
            RoomError::Activity(ActivityError::NoActiveActivity),
        ) && new == old
    &&& forall|i: int|
        0 <= i < old.participants.len()
            && (#[trigger] old.participants[i]).spec_user_id() == user_id
            && old.participants[i].spec_is_connected() ==> {
            &&& r is Ok
            &&& new.participants.len() == old.participants.len()
            &&& forall|j: int|
                0 <= j < old.participants.len() && j != i
                    ==> new.participants[j] == old.participants[j]
            &&& new.participants[i].spec_user_id() == user_id
            &&& new.participants[i].spec_name() == old.participants[i].spec_name()
            &&& new.participants[i].spec_face() == old.participants[i].spec_face()
            &&& new.participants[i].spec_history() == history_updated(
                old.participants[i].spec_history(),
                now,
                flags,
            )
        }
}

/// A room with participants has an expiry exactly when every participant's
/// last activity is sealed.
pub proof fn lemma_expiry_iff_all_sealed(r: RoomView)
    requires
        r.wf(),
        r.participants.len() > 0,
    ensures
        r.expires_at is Some <==> forall|i: int|
            0 <= i < r.participants.len() ==> (#[trigger] r.participants[i]).spec_history().last().end is Some,
{
    assert(all_idle(r.participants) <==> forall|i: int|
        0 <= i < r.participants.len() ==> (#[trigger] r.participants[i]).spec_history().last().end is Some);
}

/// The participants of one voice channel since the channel became active.
#[derive(Debug, Clone)]
pub struct Room {
    guild_id: u64,
    channel_id: u64,
    timestamp: u64,
    created_at: u64,
    participants: Vec<Participant>,
    expires_at: Option<u64>,
}

impl View for Room {
    type V = RoomView;

    closed spec fn view(&self) -> RoomView {
        RoomView {
            guild_id: self.guild_id,
            channel_id: self.channel_id,
            timestamp: self.timestamp,
            created_at: self.created_at,
            participants: self.participants@,
            expires_at: self.expires_at,
        }
    }
}

impl Room {
    pub fn new(guild_id: u64, channel_id: u64, created_at: u64, timestamp: u64) -> (r: Room)
        ensures
            r@ == (RoomView {
                guild_id,
                channel_id,
                timestamp,
                created_at,
                participants: Seq::empty(),
                expires_at: None,
            }),
            r@.wf(),
    {
        Room { guild_id, channel_id, timestamp, created_at, participants: Vec::new(), expires_at: None }
    }

    pub fn guild_id(&self) -> (r: u64)
        ensures
            r == self@.guild_id,
    {
        self.guild_id
    }

    pub fn channel_id(&self) -> (r: u64)
        ensures
            r == self@.channel_id,
    {
        self.channel_id
    }

    pub fn timestamp(&self) -> (r: u64)
        ensures
            r == self@.timestamp,
    {
        self.timestamp
    }

    pub fn created_at(&self) -> (r: u64)
        ensures
            r == self@.created_at,
    {
        self.created_at
    }

    pub fn expires_at(&self) -> (r: Option<u64>)
        ensures
            r == self@.expires_at,
    {
        self.expires_at
    }

    pub fn participants(&self) -> (r: &Vec<Participant>)
        ensures
            r@ == self@.participants,
    {
        &self.participants
    }

    /// A copy of the room, for reading outside the owner's lock.
    pub fn snapshot(&self) -> (r: Room)
        ensures
            r@.same_as(self@),
    {
        let mut participants: Vec<Participant> = Vec::new();
        let mut i: usize = 0;
        while i < self.participants.len()
            invariant
                i <= self.participants@.len(),
                participants@.len() == i,
                forall|j: int| 0 <= j < i ==> (#[trigger] participants@[j]).same_as(self.participants@[j]),
            decreases self.participants@.len() - i,
        {
            participants.push(self.participants[i].snapshot());
            i = i + 1;
        }
        Room {
            guild_id: self.guild_id,
            channel_id: self.channel_id,
            timestamp: self.timestamp,
            created_at: self.created_at,
            participants,
            expires_at: self.expires_at,
        }
    }

    fn find_participant(&self, user_id: u64) -> (r: Option<usize>)
        ensures
            r matches Some(i) ==> i < self@.participants.len()
                && self@.participants[i as int].spec_user_id() == user_id,
            r is None ==> !self@.has_user(user_id),
    {
        let mut i: usize = 0;
        while i < self.participants.len()
            invariant
                i <= self.participants@.len(),
                forall|j: int| 0 <= j < i ==> (#[trigger] self.participants@[j]).spec_user_id() != user_id,
            decreases self.participants@.len() - i,
        {
            if self.participants[i].user_id() == user_id {
                return Some(i);
            }
            i = i + 1;
        }
        None
    }

    /// The latest instant that any participant has recorded.
    pub fn latest_instant(&self) -> (r: u64)
        ensures
            self@.accepts(r),
            forall|t: u64| self@.accepts(t) ==> t >= r,
    {
        let mut latest: u64 = 0;
        let mut i: usize = 0;
        while i < self.participants.len()
            invariant
                i <= self.participants@.len(),
                forall|j: int| 0 <= j < i ==> latest >= (#[trigger] self.participants@[j]).latest(),
                latest == 0 || exists|j: int| 0 <= j < i && latest == (#[trigger] self.participants@[j]).latest(),
            decreases self.participants@.len() - i,
        {
            let l = self.participants[i].latest_instant();
            if l > latest {
                latest = l;
            }
            i = i + 1;
        }
        proof {
            assert forall|t: u64| self@.accepts(t) implies t >= latest by {
                if latest != 0 {
                    let j = choose|j: int| 0 <= j < i && latest == (#[trigger] self.participants@[j]).latest();
                    assert(t >= self@.participants[j].latest());
                }
            }
        }
        latest
    }

    /// Whether some participant is connected.
    fn any_connected(&self) -> (r: bool)
        ensures
            r == !all_idle(self@.participants),
    {
        let mut i: usize = 0;
        while i < self.participants.len()
            invariant
                i <= self.participants@.len(),
                forall|j: int| 0 <= j < i ==> !(#[trigger] self.participants@[j]).spec_is_connected(),
            decreases self.participants@.len() - i,
        {
            if self.participants[i].is_connected() {
                return true;
            }
            i = i + 1;
        }
        false
    }
}


impl Room {
    /// A user joins: an existing participant reconnects (and its name and
    /// avatar are refreshed), an unknown one is appended. The room is no
    /// longer idle.
    #[verifier::rlimit(40)]
    pub fn handle_connect(
        &mut self,
        now: u64,
        user_id: u64,
        name: String,
        face: String,
        flags: VoiceStateFlags,
    ) -> (r: Result<(), RoomError>)
        requires
            old(self)@.wf(),
            old(self)@.accepts(now),
        ensures
            final(self)@.accepts(now),
            final(self)@.wf(),
            final(self)@.guild_id == old(self)@.guild_id,
            final(self)@.channel_id == old(self)@.channel_id,
            final(self)@.timestamp == old(self)@.timestamp,
            final(self)@.created_at == old(self)@.created_at,
            connect_done(old(self)@, final(self)@, r, now, user_id, name@, face@, flags),
    {
        match self.find_participant(user_id) {
            Some(i) => {
                proof {
                    assert(old(self)@.participants[i as int] == self.participants@[i as int]);
                }
                if self.participants[i].is_connected() {
                    return Err(RoomError::Activity(ActivityError::AlreadyStarted));
                }
                assert(self.participants@[i as int].wf());
                self.participants[i].set_profile(name, face);
                let _ = self.participants[i].connect(now, flags);
                self.expires_at = None;
                proof {
                    assert(final(self)@.participants == self.participants@);
                    let ps = self.participants@;
                    assert forall|a: int, b: int|
                        0 <= a < ps.len() && 0 <= b < ps.len() && a != b implies (#[trigger] ps[a]).spec_user_id()
                            != (#[trigger] ps[b]).spec_user_id() by {
                        assert(ps[a].spec_user_id() == old(self)@.participants[a].spec_user_id());
                        assert(ps[b].spec_user_id() == old(self)@.participants[b].spec_user_id());
                    }
                    assert(ps[i as int].spec_is_connected());
                    assert(!all_idle(ps));
                    assert forall|j: int|
                        0 <= j < old(self)@.participants.len()
                            && (#[trigger] old(self)@.participants[j]).spec_user_id() == user_id implies j
                        == i by {}
                }
                Ok(())
            },
            None => {
                let mut participant = Participant::new(user_id, name, face);
                let _ = participant.connect(now, flags);
                self.participants.push(participant);
                self.expires_at = None;
                proof {
                    let ps = self.participants@;
                    assert(ps.drop_last() == old(self)@.participants);
                    assert(ps.last().spec_history() == seq![Activity { start: now, end: None, flags }]);
                    assert(ps.last().spec_is_connected());
                    assert(!all_idle(ps));
                    assert forall|a: int, b: int|
                        0 <= a < ps.len() && 0 <= b < ps.len() && a != b implies (#[trigger] ps[a]).spec_user_id()
                            != (#[trigger] ps[b]).spec_user_id() by {
                        if a == ps.len() - 1 {
                            assert(ps[b] == old(self)@.participants[b]);
                        } else if b == ps.len() - 1 {
                            assert(ps[a] == old(self)@.participants[a]);
                        }
                    }
                }
                Ok(())
            },
        }
    }

    /// A user leaves: its open activity is sealed at `now`. When nobody is
    /// left connected the room becomes idle and expires `IDLE_TIMEOUT_MS`
    /// later.
    #[verifier::rlimit(40)]
    pub fn handle_disconnect(&mut self, now: u64, user_id: u64) -> (r: Result<RoomStatus, RoomError>)
        requires
            old(self)@.wf(),
            old(self)@.accepts(now),
            now <= u64::MAX - IDLE_TIMEOUT_MS,
        ensures
            final(self)@.accepts(now),
            final(self)@.wf(),
            final(self)@.guild_id == old(self)@.guild_id,
            final(self)@.channel_id == old(self)@.channel_id,
            final(self)@.timestamp == old(self)@.timestamp,
            final(self)@.created_at == old(self)@.created_at,
            disconnect_done(old(self)@, final(self)@, r, now, user_id),
    {
        let i = match self.find_participant(user_id) {
            Some(i) => i,
            None => return Err(RoomError::ParticipantNotFound),
        };
        proof {
            assert(old(self)@.participants[i as int] == self.participants@[i as int]);
            assert(self.participants@[i as int].wf());
            assert forall|j: int|
                0 <= j < old(self)@.participants.len()
                    && (#[trigger] old(self)@.participants[j]).spec_user_id() == user_id implies j == i by {}
        }
        if !self.participants[i].is_connected() {
            return Err(RoomError::Activity(ActivityError::NoActiveActivity));
        }
        let _ = self.participants[i].disconnect(now);
        proof {
            let ps = self.participants@;
            assert forall|a: int, b: int|
                0 <= a < ps.len() && 0 <= b < ps.len() && a != b implies (#[trigger] ps[a]).spec_user_id()
                    != (#[trigger] ps[b]).spec_user_id() by {
                assert(ps[a].spec_user_id() == old(self)@.participants[a].spec_user_id());
                assert(ps[b].spec_user_id() == old(self)@.participants[b].spec_user_id());
            }
            assert(ps[i as int].spec_history().len() > 0);
        }
        if self.any_connected() {
            Ok(RoomStatus::Occupied)
        } else {
            self.expires_at = Some(now + IDLE_TIMEOUT_MS);
            Ok(RoomStatus::Idle)
        }
    }

    /// A connected user changes flags (see `Participant::update`).
    #[verifier::rlimit(40)]
    pub fn handle_update(&mut self, now: u64, user_id: u64, flags: VoiceStateFlags) -> (r: Result<(), RoomError>)
        requires
            old(self)@.wf(),
            old(self)@.accepts(now),
        ensures
            final(self)@.accepts(now),
            final(self)@.wf(),
            final(self)@.guild_id == old(self)@.guild_id,
            final(self)@.channel_id == old(self)@.channel_id,
            final(self)@.timestamp == old(self)@.timestamp,
            final(self)@.created_at == old(self)@.created_at,
            final(self)@.expires_at == old(self)@.expires_at,
            update_done(old(self)@, final(self)@, r, now, user_id, flags),
    {
        let i = match self.find_participant(user_id) {
            Some(i) => i,
            None => return Err(RoomError::ParticipantNotFound),
        };
        proof {
            assert(old(self)@.participants[i as int] == self.participants@[i as int]);
            assert(self.participants@[i as int].wf());
            assert forall|j: int|
                0 <= j < old(self)@.participants.len()
                    && (#[trigger] old(self)@.participants[j]).spec_user_id() == user_id implies j == i by {}
        }
        if !self.participants[i].is_connected() {
            return Err(RoomError::Activity(ActivityError::NoActiveActivity));
        }
        let _ = self.participants[i].update(now, flags);
        proof {
            let ps = self.participants@;
            let h = old(self)@.participants[i as int].spec_history();
            assert(history_connected(history_updated(h, now, flags)));
            assert(history_updated(h, now, flags).len() > 0);
            assert forall|a: int, b: int|
                0 <= a < ps.len() && 0 <= b < ps.len() && a != b implies (#[trigger] ps[a]).spec_user_id()
                    != (#[trigger] ps[b]).spec_user_id() by {
                assert(ps[a].spec_user_id() == old(self)@.participants[a].spec_user_id());
                assert(ps[b].spec_user_id() == old(self)@.participants[b].spec_user_id());
            }
            assert(!all_idle(ps));
            assert(!all_idle(old(self)@.participants));
        }
        Ok(())
    }

    /// Whether the idle expiry has passed.
    pub fn has_expired(&self, now: u64) -> (r: bool)
        ensures
            r == (self@.expires_at matches Some(e) && now > e),
    {
        match self.expires_at {
            Some(e) => now > e,
            None => false,
        }
    }
}

} // verus!
