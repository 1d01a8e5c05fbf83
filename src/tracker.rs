use vstd::prelude::*;
use std::collections::HashMap;

verus! {

broadcast use vstd::std_specs::hash::group_hash_axioms;

/// The report message that currently stands for a channel.
#[derive(Debug, Clone, Copy, PartialEq, Eq, Structural)]
pub struct Track {
    pub message_id: u64,
    pub last_updated_at: u64,
}

/// Per-channel report messages, so that a report is edited in place rather
/// than sent again.
pub struct Tracker {
    tracks: HashMap<u64, Track>,
}

impl View for Tracker {
    type V = Map<u64, Track>;

    closed spec fn view(&self) -> Map<u64, Track> {
        self.tracks@
    }
}

impl Tracker {
    pub fn new() -> (r: Tracker)
        ensures
            r@ == Map::<u64, Track>::empty(),
    {
        Tracker { tracks: HashMap::new() }
    }

    /// Records the message sent for `channel_id` at `now`.
    pub fn add_track(&mut self, channel_id: u64, message_id: u64, now: u64)
        ensures
            final(self)@ == old(self)@.insert(
                channel_id,
                Track { message_id, last_updated_at: now },
            ),
    {
        self.tracks.insert(channel_id, Track { message_id, last_updated_at: now });
    }

    /// Marks the message of `channel_id`, if any, as refreshed at `now`.
    pub fn update_track(&mut self, channel_id: u64, now: u64)
        ensures
            old(self)@.contains_key(channel_id) ==> final(self)@ == old(self)@.insert(
                channel_id,
                Track { last_updated_at: now, ..old(self)@[channel_id] },
            ),
            !old(self)@.contains_key(channel_id) ==> final(self)@ == old(self)@,
    {
        match self.tracks.get(&channel_id) {
            Some(t) => {
                let track = Track { message_id: t.message_id, last_updated_at: now };
                self.tracks.insert(channel_id, track);
            },
            None => {},
        }
    }

    pub fn get_track(&self, channel_id: u64) -> (r: Option<Track>)
        ensures
            r == (if self@.contains_key(channel_id) {
                Some(self@[channel_id])
            } else {
                None
            }),
    {
        match self.tracks.get(&channel_id) {
            Some(t) => Some(*t),
            None => None,
        }
    }

    pub fn remove(&mut self, channel_id: u64)
        ensures
            final(self)@ == old(self)@.remove(channel_id),
    {
        self.tracks.remove(&channel_id);
    }
}

} // verus!
