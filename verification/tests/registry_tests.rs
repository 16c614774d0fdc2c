use bp_core::registry::{SessionRegistry, SubscriberHandle};

fn handle(uid: &str) -> SubscriberHandle {
    SubscriberHandle { uid: uid.to_string() }
}

fn uids(handles: &[SubscriberHandle]) -> Vec<String> {
    handles.iter().map(|h| h.uid.clone()).collect()
}

#[test]
fn fanout_delivers_to_all_in_insertion_order() {
    let mut reg = SessionRegistry::new();
    reg.subscribe("g1", handle("u1"));
    reg.subscribe("g1", handle("u2"));
    reg.subscribe("g1", handle("u3"));
    reg.subscribe("g2", handle("other"));

    let targets = reg.get_all("g1");
    assert_eq!(vec!["u1", "u2", "u3"], uids(&targets));

    // a handle removed before the broadcast receives nothing
    reg.unsubscribe("g1", "u2");
    let targets = reg.get_all("g1");
    assert_eq!(vec!["u1", "u3"], uids(&targets));

    // the other group is untouched
    let targets = reg.get_all("g2");
    assert_eq!(vec!["other"], uids(&targets));
}

#[test]
fn unsubscribe_by_uid_drops_all_clones() {
    let mut reg = SessionRegistry::new();
    // two cloned handles share one uid
    reg.subscribe("g", handle("abc"));
    reg.subscribe("g", handle("abc"));
    assert_eq!(2, reg.get_all("g").len());

    reg.unsubscribe("g", "abc");
    // both are gone, and the group entry disappeared: a later
    // broadcast is a silent no-op
    assert_eq!(0, reg.get_all("g").len());
}

#[test]
fn broadcast_to_absent_group_is_empty() {
    let reg = SessionRegistry::new();
    assert_eq!(0, reg.get_all("nobody").len());
}

#[test]
fn unsubscribe_keeps_other_uids() {
    let mut reg = SessionRegistry::new();
    reg.subscribe("g", handle("a"));
    reg.subscribe("g", handle("b"));
    reg.subscribe("g", handle("a"));
    reg.unsubscribe("g", "a");
    assert_eq!(vec!["b"], uids(&reg.get_all("g")));
}
