use livereload_core::broadcaster::Broadcaster;

#[test]
fn fresh_broadcaster_has_no_recipients() {
    let b = Broadcaster::new();
    assert_eq!(b.recipients(), Vec::<u64>::new());
}

#[test]
fn each_registered_listener_is_a_recipient_once() {
    let mut b = Broadcaster::new();
    let a = b.register();
    let c = b.register();
    let d = b.register();
    assert_eq!(vec![a, c, d], vec![0, 1, 2]);
    let recipients = b.recipients();
    assert_eq!(recipients, vec![0, 1, 2]);
    for id in [a, c, d] {
        assert_eq!(recipients.iter().filter(|x| **x == id).count(), 1);
    }
}

#[test]
fn listener_registered_after_snapshot_is_not_among_recipients() {
    let mut b = Broadcaster::new();
    b.register();
    b.register();
    let snapshot = b.recipients();
    let late = b.register();
    assert!(!snapshot.contains(&late));
    assert_eq!(snapshot, vec![0, 1]);
}

#[test]
fn unregistered_listener_is_never_delivered_to() {
    let mut b = Broadcaster::new();
    let first = b.register();
    let second = b.register();
    b.unregister(first);
    let recipients = b.recipients();
    assert!(!recipients.contains(&first));
    assert_eq!(recipients, vec![second]);
}

#[test]
fn unregistering_an_absent_listener_does_not_error() {
    let mut b = Broadcaster::new();
    let only = b.register();
    b.unregister(12345);
    b.unregister(only);
    b.unregister(only);
    assert_eq!(b.recipients(), Vec::<u64>::new());
}

#[test]
fn prune_failed_removes_exactly_the_dead_listeners() {
    let mut b = Broadcaster::new();
    let a = b.register();
    let c = b.register();
    let d = b.register();
    b.prune_failed(&vec![a, d]);
    assert_eq!(b.recipients(), vec![c]);
}

#[test]
fn identifiers_are_never_reused_after_removal() {
    let mut b = Broadcaster::new();
    let a = b.register();
    b.unregister(a);
    let c = b.register();
    assert_ne!(a, c);
}
