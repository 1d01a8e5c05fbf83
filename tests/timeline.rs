use ringring::activity::VoiceStateFlags;
use ringring::layout::{LayoutConfig, Rect};
use ringring::room::Room;
use ringring::ticks::{format_label, tick_marks, tick_offsets};
use ringring::transformer::{
    calculate_auto_scale, choose_suitable_tics, convert_to_streaming_sections, convert_to_voice_sections,
    transform,
};
use ringring::view::{FillStyle, StreamingSection, Tick, Timeline, VoiceSection};

fn sec(s: u64) -> u64 {
    s * 1000
}

fn flags(muted: bool, sharing: bool) -> VoiceStateFlags {
    VoiceStateFlags { is_muted: muted, is_deafened: false, is_sharing_screen: sharing }
}

#[test]
fn streaming_run_across_flag_change() {
    let mut room = Room::new(1, 2, 0, 0);
    room.handle_connect(0, 4, "Dan".to_string(), "d".to_string(), flags(false, true)).unwrap();
    room.handle_update(sec(20), 4, flags(true, true)).unwrap();
    room.handle_update(sec(30), 4, flags(true, false)).unwrap();
    let t = transform(sec(30), &room, &vec![4]);
    assert_eq!(t.entries.len(), 1);
    let e = &t.entries[0];
    assert_eq!(e.streaming_sections, vec![StreamingSection { start: 0, end: sec(30) }]);
    assert_eq!(e.voice_sections[0], VoiceSection { start: 0, end: sec(20), fill_style: FillStyle::Active });
    assert_eq!(e.voice_sections[1], VoiceSection { start: sec(20), end: sec(30), fill_style: FillStyle::Muted });
}

#[test]
fn auto_scale_boundary() {
    assert_eq!(calculate_auto_scale(0, sec(70)), sec(300));
    let tick = choose_suitable_tics(sec(300));
    assert_eq!(tick, Tick::mins_grain(1));
    assert_eq!(tick_offsets(0, sec(60), sec(300)), vec![sec(60), sec(120), sec(180), sec(240)]);
}

#[test]
fn auto_scale_frames() {
    assert_eq!(calculate_auto_scale(0, 0), sec(60));
    assert_eq!(calculate_auto_scale(sec(5), sec(65)), sec(5) + sec(300));
    assert_eq!(calculate_auto_scale(0, sec(3600)), sec(7200));
    assert_eq!(calculate_auto_scale(0, sec(86_399)), sec(86_400));
    assert_eq!(calculate_auto_scale(0, sec(86_400)), sec(86_400));
    assert_eq!(calculate_auto_scale(0, sec(2 * 86_400)), sec(2 * 86_400));
    assert_eq!(calculate_auto_scale(0, sec(86_401)), sec(2 * 86_400));
    assert_eq!(calculate_auto_scale(0, sec(3 * 86_400 + 5)), sec(4 * 86_400));
    assert_eq!(calculate_auto_scale(sec(100), sec(50)), sec(160));
}

#[test]
fn tick_grains() {
    assert_eq!(choose_suitable_tics(sec(60)), Tick::secs_grain(10));
    assert_eq!(choose_suitable_tics(sec(99)), Tick::secs_grain(10));
    assert_eq!(choose_suitable_tics(sec(100)), Tick::mins_grain(1));
    assert_eq!(choose_suitable_tics(sec(3600)), Tick::mins_grain(10));
    assert_eq!(choose_suitable_tics(sec(86_400)), Tick::hours_grain(4));
    assert_eq!(choose_suitable_tics(sec(10 * 86_400)), Tick::hours_grain(24));
}

#[test]
fn tick_offsets_follow_the_wall_clock() {
    assert_eq!(tick_offsets(sec(30), sec(60), sec(200)), vec![sec(30), sec(90), sec(150)]);
    assert!(tick_offsets(0, sec(60), sec(60)).is_empty());
}

#[test]
fn tick_labels() {
    assert_eq!(format_label(false, Some((2024, 3, 5)), 9, 7, 0), "09:07");
    assert_eq!(format_label(true, Some((2024, 3, 5)), 9, 7, 30), "09:07:30");
    assert_eq!(format_label(false, Some((2024, 3, 5)), 0, 0, 0), "03/05\n00:00");
    assert_eq!(format_label(true, Some((2024, 1, 1)), 0, 0, 0), "2024/01/01\n00:00:00");
    assert_eq!(format_label(false, None, 0, 0, 0), "00:00");
}

#[test]
fn tick_marks_cross_new_year() {
    // 2023-12-31 23:59:00 UTC
    let t = Timeline {
        created_at: 0,
        terminated_at: sec(300),
        created_timestamp: 1_704_067_140_000,
        tick: Tick::mins_grain(1),
        indicator: None,
        entries: vec![],
    };
    let marks = tick_marks(&t, 0);
    let offsets: Vec<u64> = marks.iter().map(|m| m.offset).collect();
    assert_eq!(offsets, vec![sec(60), sec(120), sec(180), sec(240)]);
    assert_eq!(marks[0].label, "2024/01/01\n00:00");
    assert_eq!(marks[1].label, "00:01");
    let shifted = tick_marks(&t, 3600);
    assert_eq!(shifted[0].label, "01:00");
}

#[test]
fn sections_stay_within_axis() {
    let mut room = Room::new(1, 2, sec(10), 0);
    room.handle_connect(sec(10), 1, "A".to_string(), "a".to_string(), flags(false, true)).unwrap();
    room.handle_update(sec(40), 1, flags(true, false)).unwrap();
    room.handle_disconnect(sec(50), 1).unwrap();
    room.handle_connect(sec(60), 1, "A".to_string(), "a".to_string(), flags(false, false)).unwrap();
    let t = transform(sec(70), &room, &vec![1]);
    let span = t.terminated_at - t.created_at;
    assert_eq!(span, sec(300));
    for e in &t.entries {
        for s in &e.voice_sections {
            assert!(s.start <= s.end && s.end <= span);
        }
        for s in &e.streaming_sections {
            assert!(s.start <= s.end && s.end <= span);
        }
    }
    assert_eq!(t.entries[0].voice_sections[2], VoiceSection { start: sec(50), end: sec(60), fill_style: FillStyle::Active });
}

#[test]
fn transform_is_pure() {
    let mut room = Room::new(1, 2, 0, 0);
    room.handle_connect(0, 1, "A".to_string(), "a".to_string(), flags(false, false)).unwrap();
    room.handle_connect(sec(3), 2, "B".to_string(), "b".to_string(), flags(true, true)).unwrap();
    let a = transform(sec(9), &room, &vec![1, 2]);
    let b = transform(sec(9), &room, &vec![1, 2]);
    assert_eq!(a.terminated_at, b.terminated_at);
    assert_eq!(a.tick, b.tick);
    assert_eq!(a.entries.len(), b.entries.len());
    for i in 0..a.entries.len() {
        assert_eq!(a.entries[i].user_id, b.entries[i].user_id);
        assert_eq!(a.entries[i].voice_sections, b.entries[i].voice_sections);
        assert_eq!(a.entries[i].streaming_sections, b.entries[i].streaming_sections);
    }
}

#[test]
fn transform_skips_missing_visuals() {
    let mut room = Room::new(1, 2, 0, 0);
    room.handle_connect(0, 1, "A".to_string(), "a".to_string(), flags(false, false)).unwrap();
    room.handle_connect(0, 2, "B".to_string(), "b".to_string(), flags(false, false)).unwrap();
    let t = transform(sec(1), &room, &vec![2]);
    assert_eq!(t.entries.len(), 1);
    assert_eq!(t.entries[0].user_id, 2);
    assert_eq!(t.indicator, Some(sec(1)));
}

#[test]
fn fill_styles() {
    let deaf = VoiceStateFlags { is_muted: true, is_deafened: true, is_sharing_screen: false };
    assert_eq!(FillStyle::from_flags(deaf), FillStyle::Deafened);
    assert_eq!(FillStyle::from_flags(flags(true, false)), FillStyle::Muted);
    assert_eq!(FillStyle::from_flags(flags(false, true)), FillStyle::Active);
}

#[test]
fn disjoint_streaming_runs_are_split() {
    let mut room = Room::new(1, 2, 0, 0);
    room.handle_connect(0, 1, "A".to_string(), "a".to_string(), flags(false, true)).unwrap();
    room.handle_disconnect(sec(10), 1).unwrap();
    room.handle_connect(sec(15), 1, "A".to_string(), "a".to_string(), flags(false, true)).unwrap();
    let h = room.participants()[0].history();
    let s = convert_to_streaming_sections(0, sec(20), sec(60), h);
    assert_eq!(s, vec![StreamingSection { start: 0, end: sec(10) }, StreamingSection { start: sec(15), end: sec(20) }]);
    let v = convert_to_voice_sections(0, sec(20), sec(60), h);
    assert_eq!(v.len(), 2);
    assert_eq!(v[1], VoiceSection { start: sec(15), end: sec(20), fill_style: FillStyle::Active });
}

#[test]
fn layout_for_two_entries() {
    let config = LayoutConfig::report_default();
    let layout = config.calculate(2);
    assert_eq!(layout.total_height(), 180);
    assert_eq!(layout.total_width(), 1020);
    assert_eq!(layout.full_timeline_bb(), Rect { x: 110, y: 30, width: 900, height: 140 });
    assert_eq!(layout.timeline_bb_for_entry(1), Rect { x: 110, y: 100, width: 900, height: 70 });
    assert_eq!(layout.headline_bb_for_entry(1), Rect { x: 10, y: 100, width: 100, height: 70 });
}

#[test]
fn layout_grows_with_aspect_ratio() {
    let config = LayoutConfig::report_default();
    let layout = config.calculate(12);
    // 20 + 12 * 70 + 20 = 880; 4 * 880 / 3 = 1173; 1173 - 120 = 1053
    assert_eq!(layout.total_height(), 880);
    assert_eq!(layout.timeline_width, 1053);
    assert_eq!(layout.total_width(), 1173);
}

#[test]
fn tick_format_uses_calendar_dates() {
    // 2024-01-01 00:00:00 and 00:00:10 UTC
    assert_eq!(Tick::mins_grain(1).format(1_704_067_200_000), "2024/01/01\n00:00");
    assert_eq!(Tick::secs_grain(10).format(1_704_067_210_000), "2024/01/01\n00:00:10");
    assert_eq!(Tick::secs_grain(10).format(1_704_067_270_000), "00:01:10");
    // 2024-03-05 00:00 UTC
    assert_eq!(Tick::hours_grain(1).format(1_709_596_800_000), "03/05\n00:00");
}
