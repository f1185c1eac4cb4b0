use relay_core::registry::ConnectionRegistry;

#[test]
fn register_and_get() {
    let mut r: ConnectionRegistry<String> = ConnectionRegistry::new();
    r.register(1, String::from("handle-one"));
    r.register(2, String::from("handle-two"));
    assert_eq!(r.get(1), Some(&String::from("handle-one")));
    assert_eq!(r.get(2), Some(&String::from("handle-two")));
    assert_eq!(r.get(3), None);
}

#[test]
fn register_replaces_for_reconnection() {
    let mut r: ConnectionRegistry<String> = ConnectionRegistry::new();
    r.register(1, String::from("old"));
    r.register(1, String::from("new"));
    assert_eq!(r.get(1), Some(&String::from("new")));
}

#[test]
fn deregister_removes_and_is_idempotent() {
    let mut r: ConnectionRegistry<u32> = ConnectionRegistry::new();
    r.register(1, 10);
    r.register(2, 20);
    r.deregister(1);
    assert_eq!(r.get(1), None);
    assert_eq!(r.get(2), Some(&20));
    // removing an absent id is a no-op, not an error
    r.deregister(1);
    r.deregister(42);
    assert_eq!(r.get(2), Some(&20));
}
