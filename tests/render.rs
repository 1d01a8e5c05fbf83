use ringring::activity::VoiceStateFlags;
use ringring::layout::{LayoutConfig, Rect};
use ringring::render::{render_plan, DrawOp};
use ringring::room::Room;
use ringring::ticks::local_tick_marks;
use ringring::transformer::transform;
use ringring::view::{FillStyle, Tick, Timeline, TimelineRendererError};

fn muted() -> VoiceStateFlags {
    VoiceStateFlags { is_muted: true, is_deafened: false, is_sharing_screen: true }
}

#[test]
fn plan_draws_in_order() {
    let mut room = Room::new(1, 2, 0, 0);
    room.handle_connect(0, 7, "A".to_string(), "a".to_string(), muted()).unwrap();
    room.handle_disconnect(150_000, 7).unwrap();
    let t = transform(150_000, &room, &vec![7]);
    assert_eq!(t.terminated_at, 300_000);
    let (layout, ops) = render_plan(&LayoutConfig::report_default(), &t, &vec![60_000, 120_000]).unwrap();
    assert_eq!(layout.total_width(), 1020);
    assert_eq!(layout.total_height(), 110);
    let bb = Rect { x: 110, y: 30, width: 900, height: 70 };
    let bar = Rect { x: 110, y: 45, width: 450, height: 40 };
    assert_eq!(
        ops,
        vec![
            DrawOp::Clear,
            DrawOp::Tick { index: 0, x: 290, top: 30, bottom: 100 },
            DrawOp::Tick { index: 1, x: 470, top: 30, bottom: 100 },
            DrawOp::Avatar { entry: 0, center_x: 60, center_y: 65, size: 64 },
            DrawOp::Fill { entry: 0, rect: bar, style: FillStyle::Muted },
            DrawOp::Outline { entry: 0, rect: bar },
            DrawOp::Streaming { entry: 0, rect: bar },
            DrawOp::EndCaps { rect: bb },
        ]
    );
}

#[test]
fn plan_refuses_an_empty_axis() {
    let t = Timeline {
        created_at: 5,
        terminated_at: 5,
        created_timestamp: 0,
        tick: Tick::secs_grain(10),
        indicator: None,
        entries: vec![],
    };
    assert_eq!(
        render_plan(&LayoutConfig::report_default(), &t, &vec![]).err(),
        Some(TimelineRendererError::PixelmapCreationError)
    );
}

#[test]
fn plan_refuses_ticks_off_the_axis() {
    let t = Timeline {
        created_at: 0,
        terminated_at: 60_000,
        created_timestamp: 0,
        tick: Tick::secs_grain(10),
        indicator: None,
        entries: vec![],
    };
    assert!(render_plan(&LayoutConfig::report_default(), &t, &vec![70_000]).is_err());
    assert!(render_plan(&LayoutConfig::report_default(), &t, &vec![10_000]).is_ok());
}

#[test]
fn local_ticks_lie_on_the_axis() {
    let t = Timeline {
        created_at: 0,
        terminated_at: 300_000,
        created_timestamp: 1_704_067_140_000,
        tick: Tick::mins_grain(1),
        indicator: None,
        entries: vec![],
    };
    let marks = local_tick_marks(&t);
    assert_eq!(marks.len(), 4);
    for m in &marks {
        assert!(m.offset > 0 && m.offset < 300_000);
        assert!(m.label.contains(':'));
    }
}
