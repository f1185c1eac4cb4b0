use relay_core::broadcast::{BroadcastChannel, RoomMessage};
use relay_core::membership::MembershipTable;
use relay_core::registry::ConnectionRegistry;
use relay_core::router::{collaborator_outcome, route_text, InboundAction};
use relay_core::session::{step, SessionAction, SessionEvent, SessionState};

/// Drains a cursor, keeping only messages the connection's membership
/// admits: the outbound loop's receive-filter-write step, minus the write.
fn drain_filtered(
    ch: &BroadcastChannel,
    cur: &mut relay_core::broadcast::Cursor,
    table: &MembershipTable,
    conn: u64,
) -> Vec<String> {
    let mut out = Vec::new();
    while let Some(m) = ch.recv_next(cur) {
        if table.is_member(conn, &m.room_id) {
            out.push(m.content);
        }
    }
    out
}

#[test]
fn scenario_room_broadcast_reaches_exactly_the_members() {
    let mut table = MembershipTable::new();
    let mut ch = BroadcastChannel::new(100);
    let mut cur_x = ch.subscribe();
    let mut cur_y = ch.subscribe();
    let mut cur_z = ch.subscribe();

    // X and Y join "c1"; Z never does
    table.join(1, &String::from("c1"));
    table.join(2, &String::from("c1"));

    ch.publish(RoomMessage::new(String::from("c1"), String::from("hello")));

    assert_eq!(drain_filtered(&ch, &mut cur_x, &table, 1), vec![String::from("hello")]);
    assert_eq!(drain_filtered(&ch, &mut cur_y, &table, 2), vec![String::from("hello")]);
    assert!(drain_filtered(&ch, &mut cur_z, &table, 3).is_empty());
}

#[test]
fn scenario_add_question_success_broadcasts_to_current_members() {
    let mut table = MembershipTable::new();
    let mut ch = BroadcastChannel::new(100);
    table.join(1, &String::from("c1"));
    table.join(2, &String::from("c1"));
    let mut cur_x = ch.subscribe();
    let mut cur_y = ch.subscribe();

    let action = route_text(&String::from(
        r#"{"type":"addQuestion","data":{"contest_id":"c1","q":{"id":"q1"}}}"#,
    ));
    let contest_id = match action {
        InboundAction::AskCollaborator { contest_id, .. } => contest_id,
        other => panic!("expected a collaborator call, got {:?}", other),
    };
    // the collaborator answers with a success body
    let outcome =
        collaborator_outcome(&contest_id, true, Some(String::from(r#"{"questions":[]}"#)));
    let msg = outcome.expect("success must broadcast");
    ch.publish(msg);

    let expected = String::from(r#"{"version":"contest_update","questions":{"questions":[]}}"#);
    assert_eq!(drain_filtered(&ch, &mut cur_x, &table, 1), vec![expected.clone()]);
    assert_eq!(drain_filtered(&ch, &mut cur_y, &table, 2), vec![expected]);

    // a connection joining after the publish does not see it
    table.join(3, &String::from("c1"));
    let mut cur_late = ch.subscribe();
    assert!(drain_filtered(&ch, &mut cur_late, &table, 3).is_empty());
}

#[test]
fn scenario_disconnect_cleans_both_tables() {
    let mut table = MembershipTable::new();
    let mut registry: ConnectionRegistry<String> = ConnectionRegistry::new();

    registry.register(1, String::from("x-handle"));
    registry.register(2, String::from("y-handle"));
    table.join(1, &String::from("c1"));
    table.join(2, &String::from("c1"));
    table.join(1, &String::from("c2"));  // X is the sole member of c2

    // X's read loop fails; the session tears down exactly once
    let mut state = SessionState::Active;
    let (next, action) = step(state, SessionEvent::ReadError);
    state = next;
    assert_eq!(action, SessionAction::Teardown);
    registry.deregister(1);
    table.leave_all(1);
    let (next, _) = step(state, SessionEvent::CleanupDone);
    assert_eq!(next, SessionState::Closed);

    assert_eq!(registry.get(1), None);
    assert_eq!(registry.get(2), Some(&String::from("y-handle")));
    assert!(!table.members_of(&String::from("c1")).contains(&1));
    assert_eq!(table.members_of(&String::from("c1")), vec![2]);
    // c2 no longer exists at all
    assert!(table.members_of(&String::from("c2")).is_empty());
    assert!(table.rooms_of(1).is_empty());
}

#[test]
fn scenario_collaborator_failure_is_recoverable() {
    let mut table = MembershipTable::new();
    let mut ch = BroadcastChannel::new(100);
    table.join(1, &String::from("c1"));
    let mut cur_x = ch.subscribe();

    let outcome = collaborator_outcome(&String::from("c1"), false, None);
    assert!(outcome.is_none());
    // nothing was broadcast to any member
    assert!(drain_filtered(&ch, &mut cur_x, &table, 1).is_empty());

    // the session stays active and processes the next message
    let (state, action) = step(SessionState::Active, SessionEvent::TextFrame);
    assert_eq!(state, SessionState::Active);
    assert_eq!(action, SessionAction::Stay);
    let next = route_text(&String::from(r#"{"type":"joinContest","data":{"contest_id":"c3"}}"#));
    assert!(matches!(next, InboundAction::JoinRoom { room } if room == "c3"));
}

#[test]
fn publish_order_is_observed_by_every_consumer() {
    let mut ch = BroadcastChannel::new(100);
    let mut a = ch.subscribe();
    let mut b = ch.subscribe();
    for i in 0..5 {
        ch.publish(RoomMessage::new(String::from("r"), format!("m{}", i)));
    }
    let seen_a: Vec<String> = std::iter::from_fn(|| ch.recv_next(&mut a)).map(|m| m.content).collect();
    let seen_b: Vec<String> = std::iter::from_fn(|| ch.recv_next(&mut b)).map(|m| m.content).collect();
    assert_eq!(seen_a, vec!["m0", "m1", "m2", "m3", "m4"]);
    assert_eq!(seen_a, seen_b);
}

#[test]
fn lagging_consumer_skips_to_oldest_retained() {
    let mut ch = BroadcastChannel::new(2);
    let mut cur = ch.subscribe();
    for i in 0..5 {
        ch.publish(RoomMessage::new(String::from("r"), format!("m{}", i)));
    }
    // the two oldest unread messages within the bound survive, earlier ones are lost
    let seen: Vec<String> =
        std::iter::from_fn(|| ch.recv_next(&mut cur)).map(|m| m.content).collect();
    assert_eq!(seen, vec!["m3", "m4"]);
}
