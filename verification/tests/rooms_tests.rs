use rust_rooms::message::{MsgKind, WireMessage};
use rust_rooms::rooms::{JoinError, LeaveResult, RoomRegistry};

fn msg(kind: MsgKind, source: &str) -> WireMessage {
    WireMessage {
        kind,
        target: None,
        source: Some(source.to_string()),
        data: Some("payload".to_string()),
    }
}

#[test]
fn member_count_follows_joins_and_leaves() {
    let mut reg = RoomRegistry::new();
    let room = "r1".to_string();
    assert_eq!(reg.member_count(&room), 0);
    assert!(reg.join(&room, &"a".to_string(), 1).is_ok());
    assert_eq!(reg.member_count(&room), 1);
    assert!(reg.join(&room, &"b".to_string(), 2).is_ok());
    assert!(reg.join(&room, &"c".to_string(), 3).is_ok());
    assert_eq!(reg.member_count(&room), 3);
    assert_eq!(
        reg.leave(&room, &"b".to_string()),
        LeaveResult::Left { room_now_empty: false }
    );
    assert_eq!(reg.member_count(&room), 2);
    assert_eq!(
        reg.leave(&room, &"a".to_string()),
        LeaveResult::Left { room_now_empty: false }
    );
    assert_eq!(
        reg.leave(&room, &"c".to_string()),
        LeaveResult::Left { room_now_empty: true }
    );
    assert_eq!(reg.member_count(&room), 0);
}

#[test]
fn rooms_are_independent() {
    let mut reg = RoomRegistry::new();
    assert!(reg.join(&"r1".to_string(), &"a".to_string(), 1).is_ok());
    assert!(reg.join(&"r2".to_string(), &"a".to_string(), 2).is_ok());
    assert_eq!(reg.member_count(&"r1".to_string()), 1);
    assert_eq!(reg.member_count(&"r2".to_string()), 1);
    assert_eq!(
        reg.leave(&"r1".to_string(), &"a".to_string()),
        LeaveResult::Left { room_now_empty: true }
    );
    assert_eq!(reg.member_count(&"r1".to_string()), 0);
    assert_eq!(reg.member_count(&"r2".to_string()), 1);
}

#[test]
fn duplicate_join_is_rejected_and_first_session_kept() {
    let mut reg = RoomRegistry::new();
    let room = "r1".to_string();
    assert!(reg.join(&room, &"a".to_string(), 1).is_ok());
    assert_eq!(
        reg.join(&room, &"a".to_string(), 9),
        Err(JoinError::AlreadyJoined)
    );
    assert_eq!(reg.member_count(&room), 1);
    // the first session's handle still receives targeted messages
    let m = msg(MsgKind::Signal, "b");
    let d = reg.send_to_user(&room, &"a".to_string(), &m).unwrap();
    assert_eq!(d.handle, 1);
}

#[test]
fn leave_of_absent_user_changes_nothing() {
    let mut reg = RoomRegistry::new();
    let room = "r1".to_string();
    assert!(reg.join(&room, &"a".to_string(), 1).is_ok());
    assert_eq!(reg.leave(&room, &"b".to_string()), LeaveResult::NotMember);
    assert_eq!(reg.leave(&"nowhere".to_string(), &"a".to_string()), LeaveResult::NotMember);
    assert_eq!(reg.member_count(&room), 1);
}

#[test]
fn broadcast_reaches_everyone_but_the_sender_once() {
    let mut reg = RoomRegistry::new();
    let room = "r1".to_string();
    assert!(reg.join(&room, &"a".to_string(), 1).is_ok());
    assert!(reg.join(&room, &"b".to_string(), 2).is_ok());
    assert!(reg.join(&room, &"c".to_string(), 3).is_ok());
    let m = msg(MsgKind::UserUpdate, "a");
    let ds = reg.broadcast(&room, &"a".to_string(), &m);
    let handles: Vec<u64> = ds.iter().map(|d| d.handle).collect();
    assert_eq!(handles, vec![2, 3]);
    for d in &ds {
        assert_eq!(d.message.kind, MsgKind::UserUpdate);
        assert_eq!(d.message.source.as_deref(), Some("a"));
        assert_eq!(d.message.data.as_deref(), Some("payload"));
    }
}

#[test]
fn broadcast_to_absent_room_delivers_nothing() {
    let reg = RoomRegistry::new();
    let m = msg(MsgKind::UserUpdate, "a");
    assert!(reg.broadcast(&"r1".to_string(), &"a".to_string(), &m).is_empty());
}

#[test]
fn targeted_delivery_hits_the_target_exactly_once() {
    let mut reg = RoomRegistry::new();
    let room = "r1".to_string();
    assert!(reg.join(&room, &"a".to_string(), 1).is_ok());
    assert!(reg.join(&room, &"b".to_string(), 2).is_ok());
    let m = msg(MsgKind::Signal, "a");
    let d = reg.send_to_user(&room, &"b".to_string(), &m).unwrap();
    assert_eq!(d.handle, 2);
    assert_eq!(d.message.kind, MsgKind::Signal);
    assert_eq!(d.message.data.as_deref(), Some("payload"));
}

#[test]
fn targeted_delivery_to_absent_target_is_silently_dropped() {
    let mut reg = RoomRegistry::new();
    let room = "r1".to_string();
    assert!(reg.join(&room, &"a".to_string(), 1).is_ok());
    let m = msg(MsgKind::Signal, "a");
    assert!(reg.send_to_user(&room, &"gone".to_string(), &m).is_none());
    assert!(reg.send_to_user(&"nowhere".to_string(), &"a".to_string(), &m).is_none());
}
