use ringring::activity::VoiceStateFlags;
use ringring::events::{translate_voice_state, VoiceEvent};
use ringring::participant::Participant;
use ringring::report::{decide_report, record_report, report_channel, ReportAction, ReportOutcome};
use ringring::summary::{format_history, format_time_delta};
use ringring::tracker::{Track, Tracker};

#[test]
fn rate_limited_terminal_report() {
    let now = 1_000_000;
    let mut tracker = Tracker::new();
    tracker.add_track(7, 99, now - 10_000);
    assert_eq!(decide_report(&tracker, 7, now, false), ReportAction::Skip);
    assert_eq!(tracker.get_track(7), Some(Track { message_id: 99, last_updated_at: now - 10_000 }));

    let mut tracker = Tracker::new();
    tracker.add_track(7, 99, now - 25_000);
    assert_eq!(decide_report(&tracker, 7, now, false), ReportAction::Edit { message_id: 99 });
    record_report(&mut tracker, 7, now, false, ReportOutcome::Edited);
    assert_eq!(tracker.get_track(7), None);
}

#[test]
fn ongoing_reports_edit_in_place() {
    let mut tracker = Tracker::new();
    assert_eq!(decide_report(&tracker, 3, 50, true), ReportAction::Send);
    record_report(&mut tracker, 3, 50, true, ReportOutcome::Sent { message_id: 11 });
    assert_eq!(tracker.get_track(3), Some(Track { message_id: 11, last_updated_at: 50 }));
    assert_eq!(decide_report(&tracker, 3, 60, true), ReportAction::Edit { message_id: 11 });
    record_report(&mut tracker, 3, 60, true, ReportOutcome::Edited);
    assert_eq!(tracker.get_track(3), Some(Track { message_id: 11, last_updated_at: 60 }));
    record_report(&mut tracker, 3, 70, true, ReportOutcome::Failed);
    assert_eq!(tracker.get_track(3), Some(Track { message_id: 11, last_updated_at: 60 }));
}

#[test]
fn terminal_report_without_track_is_not_tracked() {
    let mut tracker = Tracker::new();
    assert_eq!(decide_report(&tracker, 4, 5, false), ReportAction::Send);
    record_report(&mut tracker, 4, 5, false, ReportOutcome::Sent { message_id: 1 });
    assert_eq!(tracker.get_track(4), None);
}

#[test]
fn tracker_operations() {
    let mut tracker = Tracker::new();
    tracker.update_track(1, 5);
    assert_eq!(tracker.get_track(1), None);
    tracker.add_track(1, 2, 3);
    tracker.update_track(1, 9);
    assert_eq!(tracker.get_track(1), Some(Track { message_id: 2, last_updated_at: 9 }));
    tracker.remove(1);
    assert_eq!(tracker.get_track(1), None);
}

#[test]
fn report_target_channel() {
    assert_eq!(report_channel(Some(5), 9), 5);
    assert_eq!(report_channel(None, 9), 9);
}

#[test]
fn voice_state_translation() {
    assert_eq!(translate_voice_state(None, Some(4)), vec![VoiceEvent::Connect { channel_id: 4 }]);
    assert_eq!(translate_voice_state(Some(Some(4)), None), vec![VoiceEvent::Disconnect { channel_id: 4 }]);
    assert_eq!(translate_voice_state(Some(Some(4)), Some(4)), vec![VoiceEvent::Update { channel_id: 4 }]);
    assert_eq!(
        translate_voice_state(Some(Some(4)), Some(5)),
        vec![VoiceEvent::Disconnect { channel_id: 4 }, VoiceEvent::Connect { channel_id: 5 }]
    );
    assert_eq!(translate_voice_state(Some(None), Some(5)), vec![VoiceEvent::Connect { channel_id: 5 }]);
    assert!(translate_voice_state(None, None).is_empty());
}

#[test]
fn time_delta_text() {
    assert_eq!(format_time_delta(0), "0:00");
    assert_eq!(format_time_delta(3_900_000), "1:05");
    assert_eq!(format_time_delta(59_999), "0:00");
    assert_eq!(format_time_delta(36_000_000 + 60_000 * 42), "10:42");
}

#[test]
fn history_text() {
    let none = VoiceStateFlags { is_muted: false, is_deafened: false, is_sharing_screen: false };
    let mut a = Participant::new(1, "Alice".to_string(), "a".to_string());
    a.connect(0, none).unwrap();
    a.disconnect(120_000).unwrap();
    let mut b = Participant::new(2, "Bob".to_string(), "b".to_string());
    b.connect(60_000, none).unwrap();
    let text = format_history(3_720_000, &vec![a, b]);
    assert_eq!(text, "Alice (0:02)\nBob (1:01)");
}
