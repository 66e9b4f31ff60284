use dersp::crypto::PublicKey;
use dersp::registry::{ForwardOutcome, Registry};

fn key(fill: u8) -> PublicKey {
    PublicKey { bytes: vec![fill; 32] }
}

#[test]
fn register_evicts_duplicate_key() {
    let mut reg = Registry::new();
    assert_eq!(reg.register(&key(1), 10), None);
    // Same key again: exactly one live entry survives; the old session's id
    // comes back so its socket can be closed.
    assert_eq!(reg.register(&key(1), 20), Some(10));
    assert_eq!(reg.conns.len(), 1);
    assert_eq!(reg.conns[0].conn_id, 20);
    // The replacement's queue starts empty.
    assert_eq!(reg.take_outbound(&key(1)), Some(vec![]));
}

#[test]
fn forward_delivers_unmodified_to_registered_destination() {
    let mut reg = Registry::new();
    reg.register(&key(1), 10);
    reg.register(&key(2), 20);
    let payload = b"hello".to_vec();
    assert_eq!(reg.forward(&key(2), &key(1), &payload), ForwardOutcome::Delivered);
    assert_eq!(reg.take_outbound(&key(1)), Some(vec![payload]));
    // Nobody else received it.
    assert_eq!(reg.take_outbound(&key(2)), Some(vec![]));
}

#[test]
fn forward_to_absent_destination_is_dropped_quietly() {
    let mut reg = Registry::new();
    reg.register(&key(1), 10);
    assert_eq!(
        reg.forward(&key(1), &key(9), &b"lost".to_vec()),
        ForwardOutcome::DroppedUnknownDest
    );
    assert_eq!(reg.take_outbound(&key(9)), None);
    assert_eq!(reg.take_outbound(&key(1)), Some(vec![]));
}

#[test]
fn forward_preserves_order_per_destination() {
    let mut reg = Registry::new();
    reg.register(&key(1), 10);
    for p in [b"one".to_vec(), b"two".to_vec(), b"three".to_vec()] {
        assert_eq!(reg.forward(&key(2), &key(1), &p), ForwardOutcome::Delivered);
    }
    assert_eq!(
        reg.take_outbound(&key(1)),
        Some(vec![b"one".to_vec(), b"two".to_vec(), b"three".to_vec()])
    );
}

#[test]
fn forward_drops_newest_when_queue_is_full() {
    let mut reg = Registry::new();
    reg.register(&key(1), 10);
    for _ in 0..512 {
        assert_eq!(reg.forward(&key(2), &key(1), &b"p".to_vec()), ForwardOutcome::Delivered);
    }
    assert_eq!(reg.forward(&key(2), &key(1), &b"p".to_vec()), ForwardOutcome::DroppedQueueFull);
    assert_eq!(reg.take_outbound(&key(1)).unwrap().len(), 512);
}

#[test]
fn watchers_observe_presence_in_order() {
    let mut reg = Registry::new();
    assert!(reg.watch(77));
    // A taken id is refused.
    assert!(!reg.watch(77));

    reg.register(&key(1), 10);
    let evs = reg.take_events(77).unwrap();
    assert_eq!(evs.len(), 1);
    assert_eq!(evs[0].key.bytes, vec![1u8; 32]);
    assert!(evs[0].online);

    assert!(reg.unregister(&key(1), 10));
    let evs = reg.take_events(77).unwrap();
    assert_eq!(evs.len(), 1);
    assert_eq!(evs[0].key.bytes, vec![1u8; 32]);
    assert!(!evs[0].online);

    // No historical replay for a late subscriber.
    reg.register(&key(2), 20);
    assert!(reg.watch(88));
    assert!(reg.take_events(88).unwrap().is_empty());
}

#[test]
fn stale_unregister_is_ignored() {
    let mut reg = Registry::new();
    assert!(reg.watch(77));
    reg.register(&key(1), 10);
    // A newer session took the key.
    assert_eq!(reg.register(&key(1), 20), Some(10));
    let _ = reg.take_events(77);
    // The old session's unregister must not evict the newer one.
    assert!(!reg.unregister(&key(1), 10));
    assert_eq!(reg.conns.len(), 1);
    assert_eq!(reg.take_events(77).unwrap().len(), 0);
    // The owning session's unregister works.
    assert!(reg.unregister(&key(1), 20));
    assert_eq!(reg.conns.len(), 0);
}
