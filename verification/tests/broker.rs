use tokio::sync::mpsc::error::TryRecvError;
use tokio::sync::mpsc::UnboundedReceiver;
use topic_broker::broker::Broker;

fn drain(receiver: &mut UnboundedReceiver<String>) -> Vec<String> {
    let mut got = Vec::new();
    while let Ok(event) = receiver.try_recv() {
        got.push(event);
    }
    got
}

fn text(s: &str) -> String {
    s.to_string()
}

#[test]
fn test_produce() {
    let mut broker = Broker::new();

    broker.produce("test_topic".to_string(), "test_message".to_string());

    let messages = broker.store().snapshot("test_topic");
    assert_eq!(messages.first().unwrap().as_str(), "test_message");
}

#[test]
fn new_broker_is_empty() {
    let broker = Broker::new();
    assert!(broker.store().snapshot("orders").is_empty());
    assert_eq!(broker.store().len("orders"), 0);
    assert_eq!(broker.registry().count("orders"), 0);
}

#[test]
fn produce_appends_in_call_order() {
    let mut broker = Broker::new();
    broker.produce(text("orders"), text("a"));
    broker.produce(text("orders"), text("b"));
    broker.produce(text("orders"), text("a"));
    assert_eq!(broker.store().snapshot("orders"), vec![text("a"), text("b"), text("a")]);
    assert_eq!(broker.store().len("orders"), 3);
}

#[test]
fn produce_leaves_other_topics_alone() {
    let mut broker = Broker::new();
    broker.produce(text("orders"), text("order-1"));
    broker.produce(text("alerts"), text("fire"));
    let before = broker.store().snapshot("orders");
    broker.produce(text("alerts"), text("flood"));
    assert_eq!(broker.store().snapshot("orders"), before);
    assert_eq!(broker.store().snapshot("alerts"), vec![text("fire"), text("flood")]);
    assert_eq!(broker.store().snapshot("alerts").last().unwrap(), "flood");
    assert!(broker.store().snapshot("metrics").is_empty());
}

#[test]
fn produce_without_subscribers_is_stored() {
    let mut broker = Broker::new();
    broker.produce(text("lonely"), text("hello"));
    assert_eq!(broker.store().snapshot("lonely"), vec![text("hello")]);
    assert_eq!(broker.registry().count("lonely"), 0);
}

#[test]
fn late_subscriber_gets_no_history() {
    let mut broker = Broker::new();
    broker.produce(text("orders"), text("order-1"));
    let mut receiver = broker.subscribe(text("orders"));
    assert_eq!(receiver.try_recv(), Err(TryRecvError::Empty));
    broker.produce(text("orders"), text("order-2"));
    assert_eq!(receiver.try_recv(), Ok(text("order-2")));
    assert_eq!(receiver.try_recv(), Err(TryRecvError::Empty));
    assert_eq!(broker.store().snapshot("orders"), vec![text("order-1"), text("order-2")]);
}

#[test]
fn two_subscribers_both_receive_and_other_topic_does_not() {
    let mut broker = Broker::new();
    let mut first = broker.subscribe(text("alerts"));
    let mut second = broker.subscribe(text("alerts"));
    let mut third = broker.subscribe(text("metrics"));
    broker.produce(text("alerts"), text("fire"));
    assert_eq!(drain(&mut first), vec![text("fire")]);
    assert_eq!(drain(&mut second), vec![text("fire")]);
    assert!(drain(&mut third).is_empty());
    assert_eq!(broker.registry().count("alerts"), 2);
    assert_eq!(broker.registry().count("metrics"), 1);
}

#[test]
fn events_arrive_in_order_and_once() {
    let mut broker = Broker::new();
    let mut receiver = broker.subscribe(text("orders"));
    broker.produce(text("orders"), text("e1"));
    broker.produce(text("orders"), text("e2"));
    assert_eq!(receiver.try_recv(), Ok(text("e1")));
    assert_eq!(receiver.try_recv(), Ok(text("e2")));
    assert_eq!(receiver.try_recv(), Err(TryRecvError::Empty));
}

#[test]
fn subscriber_never_sees_another_topic() {
    let mut broker = Broker::new();
    let mut on_a = broker.subscribe(text("a"));
    let mut on_b = broker.subscribe(text("b"));
    broker.produce(text("b"), text("for-b-1"));
    broker.produce(text("a"), text("for-a"));
    broker.produce(text("b"), text("for-b-2"));
    assert_eq!(drain(&mut on_a), vec![text("for-a")]);
    assert_eq!(drain(&mut on_b), vec![text("for-b-1"), text("for-b-2")]);
}

#[test]
fn dead_subscriber_does_not_stop_delivery() {
    let mut broker = Broker::new();
    let dead = broker.subscribe(text("alerts"));
    let mut live = broker.subscribe(text("alerts"));
    let mut later = broker.subscribe(text("alerts"));
    drop(dead);
    broker.produce(text("alerts"), text("fire"));
    assert_eq!(drain(&mut live), vec![text("fire")]);
    assert_eq!(drain(&mut later), vec![text("fire")]);
    assert_eq!(broker.store().snapshot("alerts"), vec![text("fire")]);
    assert_eq!(broker.registry().count("alerts"), 3);
}

#[test]
fn closed_receiver_counts_as_dead() {
    let mut broker = Broker::new();
    let mut closed = broker.subscribe(text("alerts"));
    let mut live = broker.subscribe(text("alerts"));
    closed.close();
    broker.produce(text("alerts"), text("fire"));
    assert!(drain(&mut closed).is_empty());
    assert_eq!(drain(&mut live), vec![text("fire")]);
}

#[test]
fn all_subscribers_dead_still_stores() {
    let mut broker = Broker::new();
    drop(broker.subscribe(text("alerts")));
    drop(broker.subscribe(text("alerts")));
    broker.produce(text("alerts"), text("fire"));
    broker.produce(text("alerts"), text("flood"));
    assert_eq!(broker.store().snapshot("alerts"), vec![text("fire"), text("flood")]);
}

#[test]
fn topics_are_case_sensitive() {
    let mut broker = Broker::new();
    let mut lower = broker.subscribe(text("orders"));
    let mut upper = broker.subscribe(text("Orders"));
    broker.produce(text("Orders"), text("x"));
    assert!(drain(&mut lower).is_empty());
    assert_eq!(drain(&mut upper), vec![text("x")]);
    assert!(broker.store().snapshot("orders").is_empty());
}

#[test]
fn empty_topic_and_event_are_ordinary() {
    let mut broker = Broker::new();
    let mut receiver = broker.subscribe(text(""));
    broker.produce(text(""), text(""));
    assert_eq!(drain(&mut receiver), vec![text("")]);
    assert_eq!(broker.store().snapshot(""), vec![text("")]);
}

#[test]
fn payload_is_delivered_as_it_is() {
    let mut broker = Broker::new();
    let mut receiver = broker.subscribe(text("t"));
    let payload = text("{\"k\": \"v\"}\n\t  \u{1F525} end ");
    broker.produce(text("t"), payload.clone());
    assert_eq!(receiver.try_recv(), Ok(payload.clone()));
    assert_eq!(broker.store().snapshot("t"), vec![payload]);
}

#[test]
fn subscribers_joining_between_events_see_only_what_follows() {
    let mut broker = Broker::new();
    let mut early = broker.subscribe(text("t"));
    broker.produce(text("t"), text("1"));
    let mut middle = broker.subscribe(text("t"));
    broker.produce(text("t"), text("2"));
    let mut late = broker.subscribe(text("t"));
    broker.produce(text("t"), text("3"));
    assert_eq!(drain(&mut early), vec![text("1"), text("2"), text("3")]);
    assert_eq!(drain(&mut middle), vec![text("2"), text("3")]);
    assert_eq!(drain(&mut late), vec![text("3")]);
}

#[test]
fn many_topics_keep_their_own_histories() {
    let mut broker = Broker::new();
    let mut receivers = Vec::new();
    for i in 0..200 {
        receivers.push(broker.subscribe(format!("topic-{}", i)));
    }
    for round in 0..3 {
        for i in 0..200 {
            broker.produce(format!("topic-{}", i), format!("{}-{}", i, round));
        }
    }
    for i in 0..200 {
        let expected = vec![format!("{}-0", i), format!("{}-1", i), format!("{}-2", i)];
        assert_eq!(broker.store().snapshot(&format!("topic-{}", i)), expected);
        assert_eq!(drain(&mut receivers[i]), expected);
    }
}
