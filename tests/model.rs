use ringring::activity::{Activity, ActivityError, VoiceStateFlags};
use ringring::participant::Participant;
use ringring::room::{Room, RoomError, RoomStatus};
use ringring::room_manager::{RoomManager, RoomManagerError};

const NONE: VoiceStateFlags = VoiceStateFlags { is_muted: false, is_deafened: false, is_sharing_screen: false };
const MUTED: VoiceStateFlags = VoiceStateFlags { is_muted: true, is_deafened: false, is_sharing_screen: false };

fn sec(s: u64) -> u64 {
    s * 1000
}

#[test]
fn simple_session() {
    let mut room = Room::new(10, 20, 0, 1_700_000_000_000);
    room.handle_connect(0, 1, "Alice".to_string(), "a.png".to_string(), NONE).unwrap();
    let status = room.handle_disconnect(sec(30), 1).unwrap();
    assert_eq!(room.participants().len(), 1);
    let h = room.participants()[0].history();
    assert_eq!(h.len(), 1);
    assert_eq!(h[0], Activity { start: 0, end: Some(sec(30)), flags: NONE });
    assert_eq!(status, RoomStatus::Idle);
    assert_eq!(room.expires_at(), Some(sec(90)));
}

#[test]
fn mute_toggle_mid_call() {
    let mut p = Participant::new(2, "Bob".to_string(), "b.png".to_string());
    p.connect(0, NONE).unwrap();
    p.update(sec(10), MUTED).unwrap();
    p.update(sec(25), NONE).unwrap();
    p.disconnect(sec(40)).unwrap();
    let h = p.history();
    assert_eq!(h.len(), 3);
    assert_eq!(h[0], Activity { start: 0, end: Some(sec(10)), flags: NONE });
    assert_eq!(h[1], Activity { start: sec(10), end: Some(sec(25)), flags: MUTED });
    assert_eq!(h[2], Activity { start: sec(25), end: Some(sec(40)), flags: NONE });
    assert!(h[1].is_following(&h[0]));
    assert!(h[2].is_following(&h[1]));
    assert_eq!(p.calculate_duration(sec(40)), sec(40));
}

#[test]
fn disconnect_then_reconnect() {
    let mut p = Participant::new(3, "Carol".to_string(), "c.png".to_string());
    p.connect(0, NONE).unwrap();
    p.disconnect(sec(5)).unwrap();
    p.connect(sec(12), NONE).unwrap();
    let h = p.history();
    assert_eq!(h[0], Activity { start: 0, end: Some(sec(5)), flags: NONE });
    assert_eq!(h[1], Activity { start: sec(12), end: None, flags: NONE });
    assert!(!h[1].is_following(&h[0]));
    assert_eq!(p.calculate_duration(sec(20)), sec(13));
}

#[test]
fn at_most_one_open_activity() {
    let mut p = Participant::new(4, "Dan".to_string(), "d.png".to_string());
    p.connect(0, NONE).unwrap();
    assert_eq!(p.connect(sec(1), NONE), Err(ActivityError::AlreadyStarted));
    p.update(sec(2), MUTED).unwrap();
    p.disconnect(sec(3)).unwrap();
    p.connect(sec(4), NONE).unwrap();
    let open = p.history().iter().filter(|a| a.is_ongoing()).count();
    assert_eq!(open, 1);
}

#[test]
fn consecutive_activities_are_ordered() {
    let mut p = Participant::new(5, "Eve".to_string(), "e.png".to_string());
    p.connect(0, NONE).unwrap();
    p.update(sec(3), MUTED).unwrap();
    p.disconnect(sec(7)).unwrap();
    p.connect(sec(9), NONE).unwrap();
    let h = p.history();
    for i in 0..h.len() - 1 {
        let end = h[i].end().unwrap();
        assert!(end <= h[i + 1].start());
    }
}

#[test]
fn update_twice_is_idempotent() {
    let mut p = Participant::new(6, "Fay".to_string(), "f.png".to_string());
    p.connect(0, NONE).unwrap();
    p.update(sec(5), MUTED).unwrap();
    let once: Vec<Activity> = p.history().clone();
    p.update(sec(5), MUTED).unwrap();
    assert_eq!(p.history(), &once);
    assert_eq!(once.len(), 2);
}

#[test]
fn update_with_same_flags_changes_nothing() {
    let mut p = Participant::new(7, "Gil".to_string(), "g.png".to_string());
    p.connect(0, NONE).unwrap();
    p.update(sec(5), NONE).unwrap();
    assert_eq!(p.history().len(), 1);
}

#[test]
fn participant_errors() {
    let mut p = Participant::new(8, "Hal".to_string(), "h.png".to_string());
    assert_eq!(p.disconnect(0), Err(ActivityError::NoActiveActivity));
    assert_eq!(p.update(0, MUTED), Err(ActivityError::NoActiveActivity));
    p.connect(0, NONE).unwrap();
    p.disconnect(sec(1)).unwrap();
    assert_eq!(p.disconnect(sec(2)), Err(ActivityError::NoActiveActivity));
    assert_eq!(p.update(sec(2), MUTED), Err(ActivityError::NoActiveActivity));
}

#[test]
fn activity_end_twice_fails() {
    let mut a = Activity::start_at(5, NONE);
    assert!(a.is_ongoing());
    assert_eq!(a.calculate_duration(15), 10);
    a.end_at(8).unwrap();
    assert!(a.is_ended());
    assert_eq!(a.end_at(9), Err(ActivityError::AlreadyEnded));
    assert_eq!(a.calculate_duration(100), 3);
}

#[test]
fn flags_from_voice_state() {
    let f = VoiceStateFlags::from_voice_state(false, true, true, false, None);
    assert_eq!(f, VoiceStateFlags { is_muted: true, is_deafened: true, is_sharing_screen: false });
    let g = VoiceStateFlags::from_voice_state(false, false, false, false, Some(true));
    assert!(g.is_sharing_screen && !g.is_muted && !g.is_deafened);
}

#[test]
fn room_expiry_follows_open_activities() {
    let mut room = Room::new(1, 2, 0, 0);
    room.handle_connect(0, 1, "A".to_string(), "a".to_string(), NONE).unwrap();
    room.handle_connect(sec(1), 2, "B".to_string(), "b".to_string(), NONE).unwrap();
    assert_eq!(room.handle_disconnect(sec(2), 1), Ok(RoomStatus::Occupied));
    assert_eq!(room.expires_at(), None);
    assert_eq!(room.handle_disconnect(sec(3), 2), Ok(RoomStatus::Idle));
    assert_eq!(room.expires_at(), Some(sec(63)));
    assert!(!room.has_expired(sec(63)));
    assert!(room.has_expired(sec(64)));
    room.handle_connect(sec(4), 1, "A2".to_string(), "a2".to_string(), MUTED).unwrap();
    assert_eq!(room.expires_at(), None);
    assert_eq!(room.participants()[0].name(), "A2");
    assert_eq!(room.participants()[0].history().len(), 2);
}

#[test]
fn room_errors() {
    let mut room = Room::new(1, 2, 0, 0);
    assert_eq!(room.handle_disconnect(0, 9), Err(RoomError::ParticipantNotFound));
    assert_eq!(room.handle_update(0, 9, MUTED), Err(RoomError::ParticipantNotFound));
    room.handle_connect(0, 9, "I".to_string(), "i".to_string(), NONE).unwrap();
    assert_eq!(
        room.handle_connect(sec(1), 9, "I".to_string(), "i".to_string(), NONE),
        Err(RoomError::Activity(ActivityError::AlreadyStarted))
    );
    room.handle_disconnect(sec(1), 9).unwrap();
    assert_eq!(room.handle_disconnect(sec(2), 9), Err(RoomError::Activity(ActivityError::NoActiveActivity)));
    assert_eq!(room.handle_update(sec(2), 9, MUTED), Err(RoomError::Activity(ActivityError::NoActiveActivity)));
}

#[test]
fn manager_routes_and_reaps() {
    let mut m = RoomManager::new(16);
    let room = m.handle_connect_event(0, 1_000, 33, 7, 1, "A".to_string(), "a".to_string(), NONE).unwrap();
    assert_eq!(room.channel_id(), 33);
    assert_eq!(room.created_at(), 0);
    assert_eq!(room.timestamp(), 1_000);
    m.handle_connect_event(sec(1), 2_000, 49, 7, 2, "B".to_string(), "b".to_string(), NONE).unwrap();
    assert_eq!(m.handle_disconnect_event(sec(2), 1234, 1), Ok(()));
    assert_eq!(m.handle_update_event(sec(2), 1234, 1, MUTED), Ok(()));
    assert_eq!(
        m.handle_disconnect_event(sec(2), 33, 5),
        Err(RoomManagerError::Room(RoomError::ParticipantNotFound))
    );
    m.handle_disconnect_event(sec(3), 33, 1).unwrap();
    m.handle_disconnect_event(sec(3), 49, 2).unwrap();
    assert_eq!(m.get_all_rooms().len(), 2);
    let reaped = m.cleanup(sec(64), &vec![49]);
    assert_eq!(reaped, vec![33]);
    let rooms = m.get_all_rooms();
    assert_eq!(rooms.len(), 1);
    assert_eq!(rooms[0].channel_id(), 49);
    assert_eq!(m.cleanup(sec(64), &vec![]), vec![49]);
    assert!(m.get_all_rooms().is_empty());
}

#[test]
fn manager_keeps_room_across_reconnect() {
    let mut m = RoomManager::new(4);
    m.handle_connect_event(0, 5_000, 8, 1, 1, "A".to_string(), "a".to_string(), NONE).unwrap();
    m.handle_disconnect_event(sec(1), 8, 1).unwrap();
    let room = m.handle_connect_event(sec(2), 9_000, 8, 1, 1, "A".to_string(), "a".to_string(), NONE).unwrap();
    assert_eq!(room.created_at(), 0);
    assert_eq!(room.timestamp(), 5_000);
    assert_eq!(room.participants()[0].history().len(), 2);
}

#[test]
fn manager_applies_late_events_in_arrival_order() {
    let mut m = RoomManager::new(2);
    m.handle_connect_event(sec(10), 0, 3, 1, 1, "A".to_string(), "a".to_string(), NONE).unwrap();
    let t = m.instant_for(3, sec(4));
    assert_eq!(t, sec(10));
    m.handle_disconnect_event(t, 3, 1).unwrap();
    assert_eq!(m.instant_for(3, sec(12)), sec(12));
    assert_eq!(m.instant_for(99, sec(1)), sec(1));
}

#[test]
fn channels_do_not_interfere() {
    let mut m = RoomManager::new(16);
    m.handle_connect_event(0, 0, 1, 9, 1, "A".to_string(), "a".to_string(), NONE).unwrap();
    m.handle_connect_event(0, 0, 17, 9, 2, "B".to_string(), "b".to_string(), NONE).unwrap();
    let before = m.room(17).unwrap();
    m.handle_update_event(sec(1), 1, 1, MUTED).unwrap();
    m.handle_disconnect_event(sec(2), 1, 1).unwrap();
    let after = m.room(17).unwrap();
    assert_eq!(after.participants()[0].history(), before.participants()[0].history());
    assert_eq!(after.expires_at(), None);
    let first = m.room(1).unwrap();
    assert_eq!(first.participants()[0].history().len(), 2);
    assert_eq!(first.expires_at(), Some(sec(62)));
    assert!(m.room(2).is_none());
}
