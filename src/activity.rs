use vstd::prelude::*;

verus! {

/// Violations of the per-participant connect/disconnect protocol.
#[derive(Debug, Clone, Copy, PartialEq, Eq, Structural)]
pub enum ActivityError {
    AlreadyStarted,
    AlreadyEnded,
    NoActiveActivity,
}

/// Capability flags that hold for the whole of one activity.
#[derive(Debug, Clone, Copy, PartialEq, Eq, Structural)]
pub struct VoiceStateFlags {
    pub is_muted: bool,
    pub is_deafened: bool,
    pub is_sharing_screen: bool,
}

impl VoiceStateFlags {
    /// Flags as reported by the gateway: a server-side or a self-applied mute
    /// (deafen) both count, and only an explicit stream counts as sharing.
    pub fn from_voice_state(
        mute: bool,
        self_mute: bool,
        deaf: bool,
        self_deaf: bool,
        self_stream: Option<bool>,
    ) -> (r: VoiceStateFlags)
        ensures
            r.is_muted == (mute || self_mute),
            r.is_deafened == (deaf || self_deaf),
            r.is_sharing_screen == (self_stream == Some(true)),
    {
        let is_sharing_screen = match self_stream {
            Some(b) => b,
            None => false,
        };
        VoiceStateFlags { is_muted: mute || self_mute, is_deafened: deaf || self_deaf, is_sharing_screen }
    }
}

/// One interval of uninterrupted presence. Instants are milliseconds on a
/// monotonic clock.
#[derive(Debug, Clone, Copy, PartialEq, Eq, Structural)]
pub struct Activity {
    pub start: u64,
    pub end: Option<u64>,
    pub flags: VoiceStateFlags,
}

impl Activity {
    /// The activity is sealed no earlier than it started.
    pub open spec fn wf(self) -> bool {
        self.end matches Some(e) ==> e >= self.start
    }

    pub open spec fn spec_is_ended(self) -> bool {
        self.end is Some
    }

    /// Where the interval stops when observed at `now`.
    pub open spec fn end_or(self, now: u64) -> u64 {
        match self.end {
            Some(e) => e,
            None => now,
        }
    }

    /// The latest instant that the activity records.
    pub open spec fn latest(self) -> u64 {
        self.end_or(self.start)
    }

    pub open spec fn spec_duration(self, now: u64) -> int {
        self.end_or(now) - self.start
    }

    pub fn start_at(start: u64, flags: VoiceStateFlags) -> (r: Activity)
        ensures
            r == (Activity { start, end: None, flags }),
    {
        Activity { start, end: None, flags }
    }

    /// Seals an open activity at `now`.
    pub fn end_at(&mut self, now: u64) -> (r: Result<(), ActivityError>)
        ensures
            old(self).end is Some ==> r == Err::<(), ActivityError>(ActivityError::AlreadyEnded)
                && *final(self) == *old(self),
            old(self).end is None ==> r is Ok && *final(self) == (Activity {
                end: Some(now),
                ..*old(self)
            }),
    {
        match self.end {
            Some(_) => Err(ActivityError::AlreadyEnded),
            None => {
                self.end = Some(now);
                Ok(())
            },
        }
    }

    pub fn is_ended(&self) -> (r: bool)
        ensures
            r == self.end is Some,
    {
        self.end.is_some()
    }

    pub fn is_ongoing(&self) -> (r: bool)
        ensures
            r == self.end is None,
    {
        self.end.is_none()
    }

    /// Whether `self` starts exactly where `prev` was sealed (the participant
    /// stayed connected and only changed flags).
    pub fn is_following(&self, prev: &Activity) -> (r: bool)
        ensures
            r == (prev.end == Some(self.start)),
    {
        match prev.end {
            Some(e) => e == self.start,
            None => false,
        }
    }

    pub fn start(&self) -> (r: u64)
        ensures
            r == self.start,
    {
        self.start
    }

    pub fn end(&self) -> (r: Option<u64>)
        ensures
            r == self.end,
    {
        self.end
    }

    pub fn flags(&self) -> (r: VoiceStateFlags)
        ensures
            r == self.flags,
    {
        self.flags
    }

    /// Length of the interval, taking `now` as the end of an open one.
    pub fn calculate_duration(&self, now: u64) -> (r: u64)
        requires
            self.wf(),
            self.end is None ==> now >= self.start,
        ensures
            r == self.spec_duration(now),
    {
        match self.end {
            Some(e) => e - self.start,
            None => now - self.start,
        }
    }
}

} // verus!
