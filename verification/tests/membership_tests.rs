use relay_core::membership::MembershipTable;

#[test]
fn join_and_members() {
    let mut t = MembershipTable::new();
    t.join(1, &String::from("c1"));
    t.join(2, &String::from("c1"));
    let ms = t.members_of(&String::from("c1"));
    assert_eq!(ms.len(), 2);
    assert!(ms.contains(&1));
    assert!(ms.contains(&2));
    assert!(t.is_member(1, &String::from("c1")));
    assert!(t.is_member(2, &String::from("c1")));
    assert!(!t.is_member(3, &String::from("c1")));
}

#[test]
fn join_is_idempotent() {
    let mut once = MembershipTable::new();
    once.join(7, &String::from("room"));
    let mut twice = MembershipTable::new();
    twice.join(7, &String::from("room"));
    twice.join(7, &String::from("room"));
    assert_eq!(once.members_of(&String::from("room")), twice.members_of(&String::from("room")));
    let rooms_once = once.rooms_of(7);
    let rooms_twice = twice.rooms_of(7);
    assert_eq!(rooms_once.len(), 1);
    assert_eq!(rooms_twice.len(), 1);
    assert_eq!(rooms_once[0], "room");
    assert_eq!(rooms_twice[0], "room");
}

#[test]
fn membership_symmetry_cross_check() {
    let mut t = MembershipTable::new();
    t.join(1, &String::from("a"));
    t.join(1, &String::from("b"));
    t.join(2, &String::from("b"));
    for conn in [1u64, 2, 3] {
        let rooms = t.rooms_of(conn);
        for room in ["a", "b"] {
            let member_side = t.members_of(&String::from(room)).contains(&conn);
            let conn_side = rooms.iter().any(|r| r == room);
            assert_eq!(member_side, conn_side);
        }
    }
}

#[test]
fn leave_all_removes_and_prunes() {
    let mut t = MembershipTable::new();
    t.join(1, &String::from("c1"));
    t.join(2, &String::from("c1"));
    t.join(1, &String::from("c2"));
    t.leave_all(1);
    let c1 = t.members_of(&String::from("c1"));
    assert_eq!(c1, vec![2]);
    // sole-member room is gone entirely, not left empty
    let c2 = t.members_of(&String::from("c2"));
    assert!(c2.is_empty());
    assert!(t.rooms_of(1).is_empty());
    assert!(!t.is_member(1, &String::from("c1")));
    assert!(!t.is_member(1, &String::from("c2")));
}

#[test]
fn leave_all_absent_connection_is_noop() {
    let mut t = MembershipTable::new();
    t.join(5, &String::from("r"));
    t.leave_all(9);
    assert!(t.is_member(5, &String::from("r")));
    assert_eq!(t.members_of(&String::from("r")), vec![5]);
}

#[test]
fn members_of_unknown_room_is_empty() {
    let t = MembershipTable::new();
    assert!(t.members_of(&String::from("nowhere")).is_empty());
}
