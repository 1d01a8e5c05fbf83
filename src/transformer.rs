use vstd::prelude::*;
use crate::activity::Activity;
use crate::participant::{lemma_end_or_monotone, Participant};
use crate::room::{Room, RoomView};
use crate::view::{
    fill_style_of, FillStyle, StreamingSection, Tick, Timeline, TimelineEntry, TimelineEntryView,
    TimelineView, VoiceSection,
};

verus! {

pub const DAY_MS: u64 = 86_400_000;

/// The window lengths that the time axis may take, shortest first
/// (milliseconds).
pub open spec fn frames_ms() -> Seq<u64> {
    seq![
        60_000u64, 300_000, 600_000, 1_800_000, 3_600_000, 7_200_000, 10_800_000, 14_400_000,
        21_600_000, 28_800_000, 43_200_000, 86_400_000,
    ]
}

/// The tick grains, finest first (seconds).
pub open spec fn ticks_secs() -> Seq<u64> {
    seq![10u64, 60, 120, 300, 600, 900, 1800, 3600, 7200, 14400, 21600, 43200]
}

/// The first element of a sorted sequence above `d`.
pub open spec fn first_above(s: Seq<u64>, d: u64) -> Option<u64>
    decreases s.len(),
{
    if s.len() == 0 {
        None
    } else if d < s[0] {
        Some(s[0])
    } else {
        first_above(s.drop_first(), d)
    }
}

/// The first grain that splits `secs` into fewer than ten ticks.
pub open spec fn first_fitting(s: Seq<u64>, secs: u64) -> Option<u64>
    decreases s.len(),
{
    if s.len() == 0 {
        None
    } else if s[0] > 0 && secs / s[0] < 10 {
        Some(s[0])
    } else {
        first_fitting(s.drop_first(), secs)
    }
}

/// The window of a call that has lasted `d` milliseconds: the smallest frame
/// longer than `d`; past the longest frame, `d` rounded up to whole days.
pub open spec fn auto_scale_frame(d: u64) -> int {
    match first_above(frames_ms(), d) {
        Some(f) => f as int,
        None => DAY_MS * ((d + DAY_MS - 1) / DAY_MS as int),
    }
}

/// The grain for an axis of `d` milliseconds.
pub open spec fn tick_for(d: u64) -> Tick {
    match first_fitting(ticks_secs(), d / 1000) {
        Some(t) => Tick { interval_secs: t, with_sec: t < 60 },
        None => Tick { interval_secs: 86_400, with_sec: false },
    }
}

/// Offset of `t` from `origin`, clipped to `[0, span]`.
pub open spec fn clip(t: u64, origin: u64, span: u64) -> u64 {
    if t <= origin {
        0
    } else if t - origin >= span {
        span
    } else {
        (t - origin) as u64
    }
}

pub open spec fn voice_section_of(a: Activity, origin: u64, now: u64, span: u64) -> VoiceSection {
    VoiceSection {
        start: clip(a.start, origin, span),
        end: clip(a.end_or(now), origin, span),
        fill_style: fill_style_of(a.flags),
    }
}

/// One section per activity.
pub open spec fn voice_sections_of(h: Seq<Activity>, origin: u64, now: u64, span: u64) -> Seq<
    VoiceSection,
> {
    h.map_values(|a: Activity| voice_section_of(a, origin, now, span))
}

/// Activity `i` shares its screen and continues a sharing run: its
/// predecessor shares too and was sealed exactly when it started.
pub open spec fn continues_run(h: Seq<Activity>, i: int) -> bool {
    &&& 0 < i < h.len()
    &&& h[i].flags.is_sharing_screen
    &&& h[i - 1].flags.is_sharing_screen
    &&& h[i - 1].end == Some(h[i].start)
}

/// One section per maximal run of adjacent sharing activities, from the start
/// of its first activity to the end of its last (`now` if that is open).
pub open spec fn streaming_sections_of(h: Seq<Activity>, origin: u64, now: u64, span: u64) -> Seq<
    StreamingSection,
>
    decreases h.len(),
{
    if h.len() == 0 {
        Seq::empty()
    } else {
        let prev = streaming_sections_of(h.drop_last(), origin, now, span);
        let a = h.last();
        if !a.flags.is_sharing_screen {
            prev
        } else if continues_run(h, h.len() - 1) {
            prev.update(
                prev.len() - 1,
                StreamingSection { start: prev.last().start, end: clip(a.end_or(now), origin, span) },
            )
        } else {
            prev.push(
                StreamingSection {
                    start: clip(a.start, origin, span),
                    end: clip(a.end_or(now), origin, span),
                },
            )
        }
    }
}

pub open spec fn entry_of(p: Participant, origin: u64, now: u64, span: u64) -> TimelineEntryView {
    TimelineEntryView {
        user_id: p.spec_user_id(),
        voice_sections: voice_sections_of(p.spec_history(), origin, now, span),
        streaming_sections: streaming_sections_of(p.spec_history(), origin, now, span),
    }
}

/// The entry of a participant, if its visuals are at hand.
pub open spec fn entry_if_visible(
    p: Participant,
    ids: Seq<u64>,
    origin: u64,
    now: u64,
    span: u64,
) -> Option<TimelineEntryView> {
    if ids.contains(p.spec_user_id()) {
        Some(entry_of(p, origin, now, span))
    } else {
        None
    }
}

/// The timeline of `room` at `now`, with entries for the participants whose
/// visuals are listed in `ids`, in room order.
pub open spec fn timeline_of(room: RoomView, ids: Seq<u64>, now: u64) -> TimelineView {
    let origin = room.created_at;
    let elapsed = if now >= origin {
        (now - origin) as u64
    } else {
        0
    };
    let frame = auto_scale_frame(elapsed);
    TimelineView {
        created_at: origin,
        terminated_at: (origin + frame) as u64,
        created_timestamp: room.timestamp,
        tick: tick_for(frame as u64),
        indicator: Some(now),
        entries: visible_entries(room.participants, ids, origin, now, frame as u64),
    }
}

/// The entries of the participants whose visuals are listed in `ids`.
pub open spec fn visible_entries(
    ps: Seq<Participant>,
    ids: Seq<u64>,
    origin: u64,
    now: u64,
    span: u64,
) -> Seq<TimelineEntryView> {
    ps.filter_map(|p: Participant| entry_if_visible(p, ids, origin, now, span))
}

proof fn lemma_auto_scale_frame_bounds(d: u64)
    ensures
        d <= auto_scale_frame(d) <= d + DAY_MS,
        auto_scale_frame(d) > 0,
{
    reveal_with_fuel(first_above, 13);
}

/// The right edge of the axis for a call from `start` observed at `end`.
pub fn calculate_auto_scale(start: u64, end: u64) -> (r: u64)
    requires
        start <= u64::MAX - DAY_MS,
        end <= u64::MAX - DAY_MS,
    ensures
        r == start + auto_scale_frame(
            if end >= start {
                (end - start) as u64
            } else {
                0
            },
        ),
{
    let duration: u64 = if end >= start {
        end - start
    } else {
        0
    };
    proof {
        lemma_auto_scale_frame_bounds(duration);
    }
    let frames: Vec<u64> = vec![
        60_000, 300_000, 600_000, 1_800_000, 3_600_000, 7_200_000, 10_800_000, 14_400_000,
        21_600_000, 28_800_000, 43_200_000, 86_400_000,
    ];
    assert(frames@ == frames_ms());
    assert(frames_ms().subrange(0, 12) == frames_ms());
    let mut i: usize = 0;
    while i < frames.len()
        invariant
            frames@ == frames_ms(),
            i <= frames@.len(),
            start <= u64::MAX - DAY_MS,
            duration == (if end >= start {
                (end - start) as u64
            } else {
                0
            }),
            forall|k: int| 0 <= k < frames@.len() ==> #[trigger] frames@[k] <= DAY_MS,
            first_above(frames_ms(), duration) == first_above(
                frames_ms().subrange(i as int, frames_ms().len() as int),
                duration,
            ),
        decreases frames@.len() - i,
    {
        let ghost rest = frames_ms().subrange(i as int, frames_ms().len() as int);
        assert(rest.drop_first() == frames_ms().subrange(i + 1, frames_ms().len() as int));
        assert(rest[0] == frames@[i as int]);
        if duration < frames[i] {
            assert(first_above(rest, duration) == Some(rest[0]));
            assert(frames@[i as int] <= DAY_MS);
            return start + frames[i];
        }
        i = i + 1;
    }
    assert(frames_ms().subrange(12, 12).len() == 0);
    start + DAY_MS * ((duration + (DAY_MS - 1)) / DAY_MS)
}

/// The grain for an axis of `duration` milliseconds: the finest one that
/// splits it into fewer than ten ticks, else a day.
pub fn choose_suitable_tics(duration: u64) -> (r: Tick)
    ensures
        r == tick_for(duration),
{
    let secs = duration / 1000;
    let ticks: Vec<u64> = vec![10, 60, 120, 300, 600, 900, 1800, 3600, 7200, 14400, 21600, 43200];
    assert(ticks@ == ticks_secs());
    assert(ticks_secs().subrange(0, 12) == ticks_secs());
    let mut i: usize = 0;
    while i < ticks.len()
        invariant
            ticks@ == ticks_secs(),
            i <= ticks@.len(),
            secs == duration / 1000,
            first_fitting(ticks_secs(), secs) == first_fitting(
                ticks_secs().subrange(i as int, ticks_secs().len() as int),
                secs,
            ),
            forall|k: int| 0 <= k < ticks@.len() ==> #[trigger] ticks@[k] > 0 && (ticks@[k] < 60 <==> k == 0),
        decreases ticks@.len() - i,
    {
        let ghost rest = ticks_secs().subrange(i as int, ticks_secs().len() as int);
        assert(rest.drop_first() == ticks_secs().subrange(i + 1, ticks_secs().len() as int));
        assert(rest[0] == ticks@[i as int]);
        let t = ticks[i];
        if secs / t < 10 {
            assert(first_fitting(rest, secs) == Some(rest[0]));
            assert(ticks@[i as int] < 60 <==> i == 0);
            if i == 0 {
                return Tick::secs_grain(t);
            } else {
                return Tick { interval_secs: t, with_sec: false };
            }
        }
        i = i + 1;
    }
    assert(ticks_secs().subrange(12, 12).len() == 0);
    Tick::hours_grain(24)
}

proof fn lemma_streaming_nonempty(h: Seq<Activity>, origin: u64, now: u64, span: u64)
    requires
        h.len() > 0,
        h.last().flags.is_sharing_screen,
    ensures
        streaming_sections_of(h, origin, now, span).len() > 0,
    decreases h.len(),
{
    if continues_run(h, h.len() - 1) {
        assert(h.drop_last().last() == h[h.len() - 2]);
        lemma_streaming_nonempty(h.drop_last(), origin, now, span);
    }
}

fn clip_exec(t: u64, origin: u64, span: u64) -> (r: u64)
    ensures
        r == clip(t, origin, span),
{
    if t <= origin {
        0
    } else if t - origin >= span {
        span
    } else {
        t - origin
    }
}

/// One section per activity, its fill style from the activity's flags.
pub fn convert_to_voice_sections(origin: u64, now: u64, span: u64, history: &Vec<Activity>) -> (r:
    Vec<VoiceSection>)
    ensures
        r@ == voice_sections_of(history@, origin, now, span),
{
    let mut out: Vec<VoiceSection> = Vec::new();
    let mut i: usize = 0;
    while i < history.len()
        invariant
            i <= history@.len(),
            out@ == voice_sections_of(history@.take(i as int), origin, now, span),
        decreases history@.len() - i,
    {
        let a = history[i];
        let end = match a.end() {
            Some(e) => e,
            None => now,
        };
        let section = VoiceSection {
            start: clip_exec(a.start(), origin, span),
            end: clip_exec(end, origin, span),
            fill_style: FillStyle::from_flags(a.flags()),
        };
        out.push(section);
        i = i + 1;
        assert(out@ =~= voice_sections_of(history@.take(i as int), origin, now, span));
    }
    assert(history@.take(i as int) == history@);
    out
}

/// One section per maximal run of adjacent screen-sharing activities.
pub fn convert_to_streaming_sections(origin: u64, now: u64, span: u64, history: &Vec<Activity>) -> (r:
    Vec<StreamingSection>)
    ensures
        r@ == streaming_sections_of(history@, origin, now, span),
{
    let mut out: Vec<StreamingSection> = Vec::new();
    let mut i: usize = 0;
    while i < history.len()
        invariant
            i <= history@.len(),
            out@ == streaming_sections_of(history@.take(i as int), origin, now, span),
        decreases history@.len() - i,
    {
        let ghost h1 = history@.take(i + 1);
        assert(h1.drop_last() == history@.take(i as int));
        assert(h1.last() == history@[i as int]);
        let a = history[i];
        if a.flags().is_sharing_screen {
            let end = clip_exec(
                match a.end() {
                    Some(e) => e,
                    None => now,
                },
                origin,
                span,
            );
            let continues = i > 0 && history[i - 1].flags().is_sharing_screen && a.is_following(
                &history[i - 1],
            );
            assert(continues == continues_run(h1, i as int));
            if continues {
                proof {
                    let h0 = history@.take(i as int);
                    assert(h0.last() == history@[i - 1]);
                    lemma_streaming_nonempty(h0, origin, now, span);
                }
                let ghost prev = out@;
                let last = out.pop().unwrap();
                out.push(StreamingSection { start: last.start, end });
                assert(out@ =~= prev.update(
                    prev.len() - 1,
                    StreamingSection { start: prev.last().start, end },
                ));
            } else {
                out.push(StreamingSection { start: clip_exec(a.start(), origin, span), end });
            }
        }
        i = i + 1;
    }
    assert(history@.take(i as int) == history@);
    out
}


proof fn lemma_visible_entries_take_succ(
    ps: Seq<Participant>,
    ids: Seq<u64>,
    origin: u64,
    now: u64,
    span: u64,
    i: int,
)
    requires
        0 <= i < ps.len(),
    ensures
        visible_entries(ps.take(i + 1), ids, origin, now, span) == visible_entries(
            ps.take(i),
            ids,
            origin,
            now,
            span,
        ) + match entry_if_visible(ps[i], ids, origin, now, span) {
            Some(e) => seq![e],
            None => Seq::empty(),
        },
{
    ps.lemma_filter_map_take_succ(
        |p: Participant| entry_if_visible(p, ids, origin, now, span),
        i,
    );
}

fn contains_id(ids: &Vec<u64>, x: u64) -> (r: bool)
    ensures
        r == ids@.contains(x),
{
    let mut i: usize = 0;
    while i < ids.len()
        invariant
            i <= ids@.len(),
            forall|j: int| 0 <= j < i ==> ids@[j] != x,
        decreases ids@.len() - i,
    {
        if ids[i] == x {
            assert(ids@[i as int] == x);
            return true;
        }
        i = i + 1;
    }
    false
}

/// The timeline of `room` observed at `now`: the axis is auto-scaled, its
/// grain chosen from the axis length, and each participant whose visuals are
/// listed in `visual_ids` gets an entry, in room order.
pub fn transform(now: u64, room: &Room, visual_ids: &Vec<u64>) -> (r: Timeline)
    requires
        room@.created_at <= u64::MAX - DAY_MS,
        now <= u64::MAX - DAY_MS,
    ensures
        r@ == timeline_of(room@, visual_ids@, now),
{
    let origin = room.created_at();
    let terminated_at = calculate_auto_scale(origin, now);
    let span = terminated_at - origin;
    let ps = room.participants();
    let mut entries: Vec<TimelineEntry> = Vec::new();
    let mut i: usize = 0;
    while i < ps.len()
        invariant
            i <= ps@.len(),
            ps@ == room@.participants,
            entries@.map_values(|e: TimelineEntry| e@) == visible_entries(
                ps@.take(i as int),
                visual_ids@,
                origin,
                now,
                span,
            ),
        decreases ps@.len() - i,
    {
        proof {
            lemma_visible_entries_take_succ(ps@, visual_ids@, origin, now, span, i as int);
        }
        let p = &ps[i];
        if contains_id(visual_ids, p.user_id()) {
            let entry = TimelineEntry {
                user_id: p.user_id(),
                voice_sections: convert_to_voice_sections(origin, now, span, p.history()),
                streaming_sections: convert_to_streaming_sections(origin, now, span, p.history()),
            };
            entries.push(entry);
        }
        i = i + 1;
        assert(entries@.map_values(|e: TimelineEntry| e@) =~= visible_entries(
            ps@.take(i as int),
            visual_ids@,
            origin,
            now,
            span,
        ));
    }
    assert(ps@.take(i as int) == ps@);
    let t = Timeline {
        created_at: origin,
        terminated_at,
        created_timestamp: room.timestamp(),
        tick: choose_suitable_tics(span),
        indicator: Some(now),
        entries,
    };
    assert(t@.entries == timeline_of(room@, visual_ids@, now).entries);
    t
}

/// Every activity of the history lies in order within `now`.
pub open spec fn ordered_by(h: Seq<Activity>, now: u64) -> bool {
    forall|i: int| 0 <= i < h.len() ==> (#[trigger] h[i]).start <= h[i].end_or(now)
}

proof fn lemma_streaming_sections_ordered(h: Seq<Activity>, origin: u64, now: u64, span: u64)
    requires
        ordered_by(h, now),
    ensures
        forall|k: int|
            0 <= k < streaming_sections_of(h, origin, now, span).len() ==> {
                let s = #[trigger] streaming_sections_of(h, origin, now, span)[k];
                s.start <= s.end <= span
            },
        h.len() > 0 && h.last().flags.is_sharing_screen ==> streaming_sections_of(
            h,
            origin,
            now,
            span,
        ).len() > 0 && streaming_sections_of(h, origin, now, span).last().end == clip(
            h.last().end_or(now),
            origin,
            span,
        ),
    decreases h.len(),
{
    if h.len() > 0 {
        let prev = h.drop_last();
        assert(ordered_by(prev, now)) by {
            assert forall|i: int| 0 <= i < prev.len() implies (#[trigger] prev[i]).start <= prev[i].end_or(now) by {
                assert(prev[i] == h[i]);
            }
        }
        lemma_streaming_sections_ordered(prev, origin, now, span);
        let a = h.last();
        assert(a.start <= a.end_or(now));
        let ps = streaming_sections_of(prev, origin, now, span);
        let cur = streaming_sections_of(h, origin, now, span);
        if !a.flags.is_sharing_screen {
            assert(cur == ps);
        } else if continues_run(h, h.len() - 1) {
            assert(prev.last() == h[h.len() - 2]);
            assert(prev.last().end_or(now) == a.start);
            assert(ps.last().start <= clip(a.end_or(now), origin, span));
            assert forall|k: int| 0 <= k < cur.len() implies {
                let s = #[trigger] cur[k];
                s.start <= s.end <= span
            } by {
                if k < cur.len() - 1 {
                    assert(cur[k] == ps[k]);
                }
            }
        } else {
            assert forall|k: int| 0 <= k < cur.len() implies {
                let s = #[trigger] cur[k];
                s.start <= s.end <= span
            } by {
                if k < cur.len() - 1 {
                    assert(cur[k] == ps[k]);
                }
            }
        }
    }
}

/// Every section of a timeline lies within its axis, and none ends before it
/// starts.
#[verifier::rlimit(40)]
pub proof fn lemma_sections_within_axis(room: RoomView, ids: Seq<u64>, now: u64)
    requires
        room.wf(),
        room.accepts(now),
        room.created_at <= u64::MAX - DAY_MS,
        now <= u64::MAX - DAY_MS,
    ensures
        ({
            let t = timeline_of(room, ids, now);
            forall|e: int, k: int|
                0 <= e < t.entries.len() && 0 <= k < t.entries[e].voice_sections.len() ==> {
                    let s = #[trigger] t.entries[e].voice_sections[k];
                    0 <= s.start <= s.end <= t.span()
                }
        }),
        ({
            let t = timeline_of(room, ids, now);
            forall|e: int, k: int|
                0 <= e < t.entries.len() && 0 <= k < t.entries[e].streaming_sections.len() ==> {
                    let s = #[trigger] t.entries[e].streaming_sections[k];
                    0 <= s.start <= s.end <= t.span()
                }
        }),
{
    let t = timeline_of(room, ids, now);
    let origin = room.created_at;
    let elapsed: u64 = if now >= origin {
        (now - origin) as u64
    } else {
        0
    };
    lemma_auto_scale_frame_bounds(elapsed);
    let span = auto_scale_frame(elapsed) as u64;
    let f = |p: Participant| entry_if_visible(p, ids, origin, now, span);
    assert(t.span() == span);
    assert forall|e: int| #![trigger t.entries[e]] 0 <= e < t.entries.len() implies {
        &&& forall|k: int|
            0 <= k < t.entries[e].voice_sections.len() ==> {
                let s = #[trigger] t.entries[e].voice_sections[k];
                0 <= s.start <= s.end <= span
            }
        &&& forall|k: int|
            0 <= k < t.entries[e].streaming_sections.len() ==> {
                let s = #[trigger] t.entries[e].streaming_sections[k];
                0 <= s.start <= s.end <= span
            }
    } by {
        assert(room.participants.filter_map(f).contains(t.entries[e]));
        room.participants.lemma_filter_map_contains(f, t.entries[e]);
        let p = choose|p: Participant| #[trigger] room.participants.contains(p) && f(p) == Some(t.entries[e]);
        let j = choose|j: int| 0 <= j < room.participants.len() && room.participants[j] == p;
        let h = p.spec_history();
        assert(now >= p.latest());
        assert(p.wf());
        assert(ordered_by(h, now)) by {
            assert forall|i: int| 0 <= i < h.len() implies (#[trigger] h[i]).start <= h[i].end_or(now) by {
                lemma_end_or_monotone(h, now, i);
            }
        }
        lemma_streaming_sections_ordered(h, origin, now, span);
        assert forall|k: int| 0 <= k < t.entries[e].voice_sections.len() implies {
            let s = #[trigger] t.entries[e].voice_sections[k];
            0 <= s.start <= s.end <= span
        } by {
            assert(h[k].start <= h[k].end_or(now));
        }
    }
}

/// The transformer is a function of its inputs: equal rooms, visual lists and
/// instants give equal timelines.
pub proof fn lemma_transform_pure(
    room1: RoomView,
    room2: RoomView,
    ids1: Seq<u64>,
    ids2: Seq<u64>,
    now1: u64,
    now2: u64,
)
    requires
        room1 == room2,
        ids1 == ids2,
        now1 == now2,
    ensures
        timeline_of(room1, ids1, now1) == timeline_of(room2, ids2, now2),
{
}

} // verus!
