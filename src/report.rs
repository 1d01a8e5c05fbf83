use vstd::prelude::*;
use crate::tracker::{Track, Tracker};

verus! {

/// A terminal report within this many milliseconds of the last update of
/// the channel's message is dropped.
pub const TERMINAL_RATE_LIMIT_MS: u64 = 20_000;

/// What to publish for one report.
#[derive(Debug, Clone, Copy, PartialEq, Eq, Structural)]
pub enum ReportAction {
    /// Nothing: a terminal report came too soon after the last update.
    Skip,
    /// Replace the channel's current message.
    Edit { message_id: u64 },
    /// Send a new message.
    Send,
}

/// How the publishing call went.
#[derive(Debug, Clone, Copy, PartialEq, Eq, Structural)]
pub enum ReportOutcome {
    Edited,
    Sent { message_id: u64 },
    Failed,
}

pub open spec fn spec_decide(tracks: Map<u64, Track>, channel_id: u64, now: u64, ongoing: bool) -> ReportAction {
    if !tracks.contains_key(channel_id) {
        ReportAction::Send
    } else if !ongoing && tracks[channel_id].last_updated_at + TERMINAL_RATE_LIMIT_MS > now {
        ReportAction::Skip
    } else {
        ReportAction::Edit { message_id: tracks[channel_id].message_id }
    }
}

pub open spec fn spec_record(
    tracks: Map<u64, Track>,
    channel_id: u64,
    now: u64,
    ongoing: bool,
    outcome: ReportOutcome,
) -> Map<u64, Track> {
    match outcome {
        ReportOutcome::Edited => if !tracks.contains_key(channel_id) {
            tracks
        } else if ongoing {
            tracks.insert(channel_id, Track { last_updated_at: now, ..tracks[channel_id] })
        } else {
            tracks.remove(channel_id)
        },
        ReportOutcome::Sent { message_id } => if ongoing {
            tracks.insert(channel_id, Track { message_id, last_updated_at: now })
        } else {
            tracks
        },
        ReportOutcome::Failed => tracks,
    }
}

/// Chooses how to publish a report on `channel_id` at `now`: edit the
/// tracked message, or send a new one when none is tracked; a terminal
/// report (`ongoing` false) that follows the last update by less than the
/// rate limit is skipped.
pub fn decide_report(tracker: &Tracker, channel_id: u64, now: u64, ongoing: bool) -> (r: ReportAction)
    ensures
        r == spec_decide(tracker@, channel_id, now, ongoing),
{
    match tracker.get_track(channel_id) {
        None => ReportAction::Send,
        Some(track) => {
            let too_soon = if now < TERMINAL_RATE_LIMIT_MS {
                true
            } else {
                track.last_updated_at > now - TERMINAL_RATE_LIMIT_MS
            };
            if !ongoing && too_soon {
                ReportAction::Skip
            } else {
                ReportAction::Edit { message_id: track.message_id }
            }
        },
    }
}

/// Brings the tracker up to date after publishing: an edited ongoing report
/// refreshes its track and an edited terminal one ends it; a new message is
/// tracked only while the call goes on. A failure changes nothing.
pub fn record_report(tracker: &mut Tracker, channel_id: u64, now: u64, ongoing: bool, outcome: ReportOutcome)
    ensures
        final(tracker)@ == spec_record(old(tracker)@, channel_id, now, ongoing, outcome),
{
    match outcome {
        ReportOutcome::Edited => {
            if tracker.get_track(channel_id).is_some() {
                if ongoing {
                    tracker.update_track(channel_id, now);
                } else {
                    tracker.remove(channel_id);
                }
            }
        },
        ReportOutcome::Sent { message_id } => {
            if ongoing {
                tracker.add_track(channel_id, message_id, now);
            }
        },
        ReportOutcome::Failed => {},
    }
}

/// Where reports go: the configured channel, else the call's own.
pub fn report_channel(configured: Option<u64>, source_channel_id: u64) -> (r: u64)
    ensures
        r == (match configured {
            Some(c) => c,
            None => source_channel_id,
        }),
{
    match configured {
        Some(c) => c,
        None => source_channel_id,
    }
}

} // verus!
