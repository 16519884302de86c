use tokio::sync::mpsc::error::TryRecvError;
use topic_broker::registry::SubscriberRegistry;
use topic_broker::store::EventStore;

#[test]
fn store_snapshot_of_unknown_topic_is_empty() {
    let store = EventStore::new();
    assert!(store.snapshot("nothing").is_empty());
    assert_eq!(store.len("nothing"), 0);
}

#[test]
fn store_append_creates_topic_and_keeps_order() {
    let mut store = EventStore::new();
    store.append("t".to_string(), "first".to_string());
    store.append("u".to_string(), "other".to_string());
    store.append("t".to_string(), "second".to_string());
    assert_eq!(store.snapshot("t"), vec!["first".to_string(), "second".to_string()]);
    assert_eq!(store.snapshot("u"), vec!["other".to_string()]);
    assert_eq!(store.len("t"), 2);
    assert_eq!(store.len("u"), 1);
}

#[test]
fn store_snapshot_is_a_copy() {
    let mut store = EventStore::new();
    store.append("t".to_string(), "first".to_string());
    let mut copy = store.snapshot("t");
    copy.push("mine".to_string());
    store.append("t".to_string(), "second".to_string());
    assert_eq!(copy, vec!["first".to_string(), "mine".to_string()]);
    assert_eq!(store.snapshot("t"), vec!["first".to_string(), "second".to_string()]);
}

#[test]
fn registry_starts_without_subscribers() {
    let mut registry = SubscriberRegistry::new();
    assert_eq!(registry.count("t"), 0);
    let taken = registry.fan_out("t", &"x".to_string());
    assert!(taken.is_empty());
    assert_eq!(registry.count("t"), 0);
}

#[test]
fn registry_register_appends_to_the_topic() {
    let mut registry = SubscriberRegistry::new();
    let (tx1, _rx1) = tokio::sync::mpsc::unbounded_channel::<String>();
    let (tx2, _rx2) = tokio::sync::mpsc::unbounded_channel::<String>();
    let (tx3, _rx3) = tokio::sync::mpsc::unbounded_channel::<String>();
    registry.register("t".to_string(), tx1);
    registry.register("u".to_string(), tx2);
    registry.register("t".to_string(), tx3);
    assert_eq!(registry.count("t"), 2);
    assert_eq!(registry.count("u"), 1);
    assert_eq!(registry.count("v"), 0);
}

#[test]
fn fan_out_reports_each_channel_in_registration_order() {
    let mut registry = SubscriberRegistry::new();
    let (tx1, mut rx1) = tokio::sync::mpsc::unbounded_channel::<String>();
    let (tx2, rx2) = tokio::sync::mpsc::unbounded_channel::<String>();
    let (tx3, mut rx3) = tokio::sync::mpsc::unbounded_channel::<String>();
    let (tx4, mut rx4) = tokio::sync::mpsc::unbounded_channel::<String>();
    registry.register("t".to_string(), tx1);
    registry.register("t".to_string(), tx2);
    registry.register("t".to_string(), tx3);
    registry.register("elsewhere".to_string(), tx4);
    drop(rx2);
    let taken = registry.fan_out("t", &"event".to_string());
    assert_eq!(taken, vec![true, false, true]);
    assert_eq!(rx1.try_recv(), Ok("event".to_string()));
    assert_eq!(rx1.try_recv(), Err(TryRecvError::Empty));
    assert_eq!(rx3.try_recv(), Ok("event".to_string()));
    assert_eq!(rx3.try_recv(), Err(TryRecvError::Empty));
    assert_eq!(rx4.try_recv(), Err(TryRecvError::Empty));
    assert_eq!(registry.count("t"), 3);
}

#[test]
fn fan_out_queues_without_a_reader() {
    let mut registry = SubscriberRegistry::new();
    let (tx, mut rx) = tokio::sync::mpsc::unbounded_channel::<String>();
    registry.register("t".to_string(), tx);
    for i in 0..1000 {
        assert_eq!(registry.fan_out("t", &format!("{}", i)), vec![true]);
    }
    for i in 0..1000 {
        assert_eq!(rx.try_recv(), Ok(format!("{}", i)));
    }
    assert_eq!(rx.try_recv(), Err(TryRecvError::Empty));
}
