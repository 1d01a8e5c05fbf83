use vstd::prelude::*;
use crate::activity::{Activity, ActivityError, VoiceStateFlags};

verus! {

/// The history is time-sorted, every activity but the last is sealed, and a
/// sealed activity ends no later than its successor starts.
pub open spec fn history_wf(h: Seq<Activity>) -> bool {
    &&& forall|i: int| 0 <= i < h.len() ==> (#[trigger] h[i]).wf()
    &&& forall|i: int|
        0 <= i < h.len() - 1 ==> ((#[trigger] h[i]).end matches Some(e) && e <= h[i + 1].start)
}

/// The history is connected: its tail is open.
pub open spec fn history_connected(h: Seq<Activity>) -> bool {
    h.len() > 0 && h.last().end is None
}

/// The latest instant that the history records (0 when empty).
pub open spec fn history_latest(h: Seq<Activity>) -> u64 {
    if h.len() == 0 {
        0
    } else {
        h.last().latest()
    }
}

/// Sum of the activity durations, open ones counted up to `now`.
pub open spec fn total_duration(h: Seq<Activity>, now: u64) -> int
    decreases h.len(),
{
    if h.len() == 0 {
        0
    } else {
        total_duration(h.drop_last(), now) + h.last().spec_duration(now)
    }
}

/// The history after a flags change at `now`: the tail is sealed and a new open
/// activity, adjacent to it, is appended.
pub open spec fn history_switched(h: Seq<Activity>, now: u64, flags: VoiceStateFlags) -> Seq<
    Activity,
> {
    h.update(h.len() - 1, Activity { end: Some(now), ..h.last() }).push(
        Activity { start: now, end: None, flags },
    )
}

/// The history after `update(now, flags)`: unchanged when disconnected or when
/// the flags are those of the tail, switched otherwise.
pub open spec fn history_updated(h: Seq<Activity>, now: u64, flags: VoiceStateFlags) -> Seq<
    Activity,
> {
    if history_connected(h) && h.last().flags != flags {
        history_switched(h, now, flags)
    } else {
        h
    }
}

/// Ordered append-only log of activities of one user in one room.
#[derive(Debug, Clone)]
pub struct Participant {
    user_id: u64,
    name: String,
    face: String,
    history: Vec<Activity>,
}

impl Participant {
    pub closed spec fn spec_user_id(&self) -> u64 {
        self.user_id
    }

    pub closed spec fn spec_name(&self) -> Seq<char> {
        self.name@
    }

    pub closed spec fn spec_face(&self) -> Seq<char> {
        self.face@
    }

    pub closed spec fn spec_history(&self) -> Seq<Activity> {
        self.history@
    }

    pub open spec fn wf(&self) -> bool {
        history_wf(self.spec_history())
    }

    /// Same id, name, avatar and history.
    pub open spec fn same_as(&self, other: Participant) -> bool {
        &&& self.spec_user_id() == other.spec_user_id()
        &&& self.spec_name() == other.spec_name()
        &&& self.spec_face() == other.spec_face()
        &&& self.spec_history() == other.spec_history()
    }

    pub open spec fn spec_is_connected(&self) -> bool {
        history_connected(self.spec_history())
    }

    pub open spec fn latest(&self) -> u64 {
        history_latest(self.spec_history())
    }

    pub fn new(user_id: u64, name: String, face: String) -> (r: Participant)
        ensures
            r.spec_user_id() == user_id,
            r.spec_name() == name@,
            r.spec_face() == face@,
            r.spec_history() == Seq::<Activity>::empty(),
            r.wf(),
    {
        Participant { user_id, name, face, history: Vec::new() }
    }

    pub fn user_id(&self) -> (r: u64)
        ensures
            r == self.spec_user_id(),
    {
        self.user_id
    }

    pub fn name(&self) -> (r: &str)
        ensures
            r@ == self.spec_name(),
    {
        self.name.as_str()
    }

    pub fn face(&self) -> (r: &str)
        ensures
            r@ == self.spec_face(),
    {
        self.face.as_str()
    }

    pub fn history(&self) -> (r: &Vec<Activity>)
        ensures
            r@ == self.spec_history(),
    {
        &self.history
    }

    /// A copy with the same id, name, avatar and history.
    pub fn snapshot(&self) -> (r: Participant)
        ensures
            r.same_as(*self),
    {
        let mut history: Vec<Activity> = Vec::new();
        let mut i: usize = 0;
        while i < self.history.len()
            invariant
                i <= self.history@.len(),
                history@ == self.history@.take(i as int),
            decreases self.history@.len() - i,
        {
            history.push(self.history[i]);
            i = i + 1;
            assert(history@ =~= self.history@.take(i as int));
        }
        assert(self.history@.take(i as int) == self.history@);
        Participant { user_id: self.user_id, name: self.name.clone(), face: self.face.clone(), history }
    }

    /// Replaces the display name and avatar URL.
    pub fn set_profile(&mut self, name: String, face: String)
        ensures
            final(self).spec_user_id() == old(self).spec_user_id(),
            final(self).spec_history() == old(self).spec_history(),
            final(self).spec_name() == name@,
            final(self).spec_face() == face@,
    {
        self.name = name;
        self.face = face;
    }

    pub fn is_connected(&self) -> (r: bool)
        ensures
            r == self.spec_is_connected(),
    {
        let n = self.history.len();
        n > 0 && self.history[n - 1].is_ongoing()
    }

    /// The latest instant that the history records (0 when empty).
    pub fn latest_instant(&self) -> (r: u64)
        ensures
            r == self.latest(),
    {
        let n = self.history.len();
        if n == 0 {
            0
        } else {
            match self.history[n - 1].end() {
                Some(e) => e,
                None => self.history[n - 1].start(),
            }
        }
    }

    /// Opens a new activity at `now`.
    pub fn connect(&mut self, now: u64, flags: VoiceStateFlags) -> (r: Result<(), ActivityError>)
        requires
            old(self).wf(),
            now >= old(self).latest(),
        ensures
            final(self).wf(),
            final(self).spec_user_id() == old(self).spec_user_id(),
            final(self).spec_name() == old(self).spec_name(),
            final(self).spec_face() == old(self).spec_face(),
            old(self).spec_is_connected() ==> r == Err::<(), ActivityError>(
                ActivityError::AlreadyStarted,
            ) && final(self).spec_history() == old(self).spec_history(),
            !old(self).spec_is_connected() ==> r is Ok && final(self).spec_history() == old(
                self,
            ).spec_history().push(Activity { start: now, end: None, flags }),
    {
        if self.is_connected() {
            return Err(ActivityError::AlreadyStarted);
        }
        let activity = Activity::start_at(now, flags);
        self.history.push(activity);
        Ok(())
    }

    /// Seals the open tail at `now`.
    pub fn disconnect(&mut self, now: u64) -> (r: Result<(), ActivityError>)
        requires
            old(self).wf(),
            now >= old(self).latest(),
        ensures
            final(self).wf(),
            final(self).spec_user_id() == old(self).spec_user_id(),
            final(self).spec_name() == old(self).spec_name(),
            final(self).spec_face() == old(self).spec_face(),
            !old(self).spec_is_connected() ==> r == Err::<(), ActivityError>(
                ActivityError::NoActiveActivity,
            ) && final(self).spec_history() == old(self).spec_history(),
            old(self).spec_is_connected() ==> r is Ok && final(self).spec_history() == old(
                self,
            ).spec_history().update(
                old(self).spec_history().len() - 1,
                Activity { end: Some(now), ..old(self).spec_history().last() },
            ),
    {
        if !self.is_connected() {
            return Err(ActivityError::NoActiveActivity);
        }
        let n = self.history.len();
        let _ = self.history[n - 1].end_at(now);
        Ok(())
    }

    /// Applies new flags to a connected participant. Equal flags change
    /// nothing; other flags seal the tail at `now` and open an adjacent
    /// activity with them.
    pub fn update(&mut self, now: u64, flags: VoiceStateFlags) -> (r: Result<(), ActivityError>)
        requires
            old(self).wf(),
            now >= old(self).latest(),
        ensures
            final(self).wf(),
            final(self).spec_user_id() == old(self).spec_user_id(),
            final(self).spec_name() == old(self).spec_name(),
            final(self).spec_face() == old(self).spec_face(),
            !old(self).spec_is_connected() ==> r == Err::<(), ActivityError>(
                ActivityError::NoActiveActivity,
            ) && final(self).spec_history() == old(self).spec_history(),
            old(self).spec_is_connected() ==> r is Ok,
            final(self).spec_history() == history_updated(old(self).spec_history(), now, flags),
    {
        if !self.is_connected() {
            return Err(ActivityError::NoActiveActivity);
        }
        let n = self.history.len();
        if self.history[n - 1].flags() == flags {
            return Ok(());
        }
        let _ = self.history[n - 1].end_at(now);
        let activity = Activity::start_at(now, flags);
        self.history.push(activity);
        Ok(())
    }

    /// Sum of the activity durations, open ones counted up to `now`.
    pub fn calculate_duration(&self, now: u64) -> (r: u64)
        requires
            self.wf(),
            now >= self.latest(),
        ensures
            r == total_duration(self.spec_history(), now),
    {
        let h = &self.history;
        let mut total: u64 = 0;
        let mut i: usize = 0;
        while i < h.len()
            invariant
                i <= h@.len(),
                h@ == self.spec_history(),
                history_wf(h@),
                now >= history_latest(h@),
                total == total_duration(h@.take(i as int), now),
                i > 0 ==> total <= h@[i - 1].end_or(now) - h@[0].start,
            decreases h@.len() - i,
        {
            proof {
                assert(h@.take(i + 1).drop_last() == h@.take(i as int));
                lemma_end_or_monotone(h@, now, i as int);
            }
            let d = h[i].calculate_duration(now);
            total = total + d;
            i = i + 1;
        }
        proof {
            assert(h@.take(i as int) == h@);
        }
        total
    }
}

/// At most one activity of a well-formed history is open.
pub proof fn lemma_at_most_one_open(h: Seq<Activity>, i: int, j: int)
    requires
        history_wf(h),
        0 <= i < h.len(),
        0 <= j < h.len(),
        h[i].end is None,
        h[j].end is None,
    ensures
        i == j,
{
    if i < h.len() - 1 {
        assert(h[i].end is Some);
    }
    if j < h.len() - 1 {
        assert(h[j].end is Some);
    }
}

/// Every activity of a well-formed history but the last is sealed, no later
/// than the next one starts.
pub proof fn lemma_consecutive_ordered(h: Seq<Activity>, i: int)
    requires
        history_wf(h),
        0 <= i < h.len() - 1,
    ensures
        h[i].end is Some,
        h[i].end.unwrap() <= h[i + 1].start,
{
    assert(h[i].end matches Some(e) && e <= h[i + 1].start);
}

/// Updating with the same flags at the same instant a second time changes
/// nothing more than the first update did.
pub proof fn lemma_update_idempotent(h: Seq<Activity>, now: u64, flags: VoiceStateFlags)
    ensures
        history_updated(history_updated(h, now, flags), now, flags) == history_updated(
            h,
            now,
            flags,
        ),
{
    let h1 = history_updated(h, now, flags);
    if history_connected(h) && h.last().flags != flags {
        assert(h1.last() == (Activity { start: now, end: None, flags }));
    }
}

/// Each activity ends, at `now`, no later than its successor starts, and the
/// whole history lies before `now`.
pub proof fn lemma_end_or_monotone(h: Seq<Activity>, now: u64, i: int)
    requires
        history_wf(h),
        now >= history_latest(h),
        0 <= i < h.len(),
    ensures
        h[i].end_or(now) >= h[i].start,
        i > 0 ==> h[i - 1].end_or(now) <= h[i].start,
        h[i].end_or(now) <= now,
        h[0].start <= h[i].start,
    decreases i,
{
    if i > 0 {
        lemma_end_or_monotone(h, now, i - 1);
    }
    if i < h.len() - 1 {
        lemma_end_or_monotone_tail(h, now, i);
    }
}

proof fn lemma_end_or_monotone_tail(h: Seq<Activity>, now: u64, i: int)
    requires
        history_wf(h),
        now >= history_latest(h),
        0 <= i < h.len(),
    ensures
        h[i].end_or(now) <= now,
    decreases h.len() - i,
{
    if i < h.len() - 1 {
        lemma_end_or_monotone_tail(h, now, i + 1);
        assert(h[i].end_or(now) <= h[i + 1].start);
        assert(h[i + 1].wf());
    }
}

} // verus!
