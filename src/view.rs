use vstd::prelude::*;
use crate::activity::VoiceStateFlags;

verus! {

/// A grain of the time axis.
#[derive(Debug, Clone, Copy, PartialEq, Eq, Structural)]
pub struct Tick {
    pub interval_secs: u64,
    /// Labels show seconds.
    pub with_sec: bool,
}

impl Tick {
    pub fn secs_grain(secs: u64) -> (r: Tick)
        ensures
            r == (Tick { interval_secs: secs, with_sec: true }),
    {
        Tick { interval_secs: secs, with_sec: true }
    }

    pub fn mins_grain(mins: u64) -> (r: Tick)
        requires
            mins <= u64::MAX / 60,
        ensures
            r == (Tick { interval_secs: (mins * 60) as u64, with_sec: false }),
    {
        Tick { interval_secs: mins * 60, with_sec: false }
    }

    pub fn hours_grain(hours: u64) -> (r: Tick)
        requires
            hours <= u64::MAX / 3600,
        ensures
            r == (Tick { interval_secs: (hours * 3600) as u64, with_sec: false }),
    {
        Tick { interval_secs: hours * 3600, with_sec: false }
    }
}

/// How a voice section's bar is filled.
#[derive(Debug, Clone, Copy, PartialEq, Eq, Structural)]
pub enum FillStyle {
    Active,
    Muted,
    Deafened,
}

pub open spec fn fill_style_of(flags: VoiceStateFlags) -> FillStyle {
    if flags.is_deafened {
        FillStyle::Deafened
    } else if flags.is_muted {
        FillStyle::Muted
    } else {
        FillStyle::Active
    }
}

impl FillStyle {
    /// Deafened wins over muted, muted over active.
    pub fn from_flags(flags: VoiceStateFlags) -> (r: FillStyle)
        ensures
            r == fill_style_of(flags),
    {
        if flags.is_deafened {
            FillStyle::Deafened
        } else if flags.is_muted {
            FillStyle::Muted
        } else {
            FillStyle::Active
        }
    }
}

/// One activity on the time axis. `start` and `end` are offsets from the
/// timeline's start in milliseconds, clipped to its span: the position as a
/// ratio of the axis is the offset over the span.
#[derive(Debug, Clone, Copy, PartialEq, Eq, Structural)]
pub struct VoiceSection {
    pub start: u64,
    pub end: u64,
    pub fill_style: FillStyle,
}

/// A run of screen sharing on the time axis, in the same units as
/// `VoiceSection`.
#[derive(Debug, Clone, Copy, PartialEq, Eq, Structural)]
pub struct StreamingSection {
    pub start: u64,
    pub end: u64,
}

/// The bars of one participant.
#[derive(Debug, Clone)]
pub struct TimelineEntry {
    pub user_id: u64,
    pub voice_sections: Vec<VoiceSection>,
    pub streaming_sections: Vec<StreamingSection>,
}

pub struct TimelineEntryView {
    pub user_id: u64,
    pub voice_sections: Seq<VoiceSection>,
    pub streaming_sections: Seq<StreamingSection>,
}

impl View for TimelineEntry {
    type V = TimelineEntryView;

    open spec fn view(&self) -> TimelineEntryView {
        TimelineEntryView {
            user_id: self.user_id,
            voice_sections: self.voice_sections@,
            streaming_sections: self.streaming_sections@,
        }
    }
}

/// The view model of a rendered report.
#[derive(Debug, Clone)]
pub struct Timeline {
    pub created_at: u64,
    pub terminated_at: u64,
    /// Wall-clock time of `created_at`, milliseconds since the Unix epoch.
    pub created_timestamp: u64,
    pub tick: Tick,
    pub indicator: Option<u64>,
    pub entries: Vec<TimelineEntry>,
}

pub struct TimelineView {
    pub created_at: u64,
    pub terminated_at: u64,
    pub created_timestamp: u64,
    pub tick: Tick,
    pub indicator: Option<u64>,
    pub entries: Seq<TimelineEntryView>,
}

impl View for Timeline {
    type V = TimelineView;

    open spec fn view(&self) -> TimelineView {
        TimelineView {
            created_at: self.created_at,
            terminated_at: self.terminated_at,
            created_timestamp: self.created_timestamp,
            tick: self.tick,
            indicator: self.indicator,
            entries: self.entries@.map_values(|e: TimelineEntry| e@),
        }
    }
}

impl TimelineView {
    /// Length of the time axis in milliseconds.
    pub open spec fn span(self) -> int {
        self.terminated_at - self.created_at
    }
}

/// The report image could not be drawn.
#[derive(Debug, Clone, Copy, PartialEq, Eq, Structural)]
pub enum TimelineRendererError {
    PixelmapCreationError,
}

} // verus!
