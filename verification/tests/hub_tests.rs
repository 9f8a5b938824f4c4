use pepe::BroadcastHub;
use pepe::Message;
use pepe::Timestamp;

fn hmsg(id: i32) -> Message {
    Message {
        id,
        createddate: Timestamp {
            millis: 0,
            rendered: String::from("1970-01-01 01:00:00 CET"),
        },
        exactlocation: String::from("Road E4"),
        description: String::from("Queue"),
        title: String::from("Traffic"),
        latitude: String::from("59.1"),
        longitude: String::from("17.9"),
        category: 1,
        subcategory: String::from("Kollektivtrafik"),
    }
}

#[test]
fn publish_fans_out_in_order() {
    let mut hub = BroadcastHub::new(8);
    assert!(hub.subscribe(1));
    assert!(hub.subscribe(2));
    hub.publish(&hmsg(10));
    hub.publish(&hmsg(11));
    for id in [1u16, 2u16] {
        assert_eq!(hub.receive(id).unwrap().id, 10);
        assert_eq!(hub.receive(id).unwrap().id, 11);
        assert!(hub.receive(id).is_none());
    }
}

#[test]
fn duplicate_subscribe_refused() {
    let mut hub = BroadcastHub::new(4);
    assert!(hub.subscribe(7));
    assert!(!hub.subscribe(7));
    assert_eq!(hub.subscriber_count(), 1);
}

#[test]
fn lagging_subscriber_loses_only_its_oldest() {
    // Capacity 3; subscriber 1 never reads, subscriber 2 reads each time.
    let mut hub = BroadcastHub::new(3);
    assert!(hub.subscribe(1));
    assert!(hub.subscribe(2));
    for k in 0..4i32 {
        hub.publish(&hmsg(100 + k));
        // Publishing to the saturated subscriber never blocks or fails
        // delivery to the active one.
        assert_eq!(hub.receive(2).unwrap().id, 100 + k);
    }
    assert_eq!(hub.buffered_len(1), Some(3));
    assert_eq!(hub.dropped_count(1), Some(1));
    assert_eq!(hub.dropped_count(2), Some(0));
    // The lagging subscriber lost its oldest record and keeps the rest.
    assert_eq!(hub.receive(1).unwrap().id, 101);
    assert_eq!(hub.receive(1).unwrap().id, 102);
    assert_eq!(hub.receive(1).unwrap().id, 103);
    assert!(hub.receive(1).is_none());
}

#[test]
fn unsubscribe_releases_only_that_buffer() {
    let mut hub = BroadcastHub::new(4);
    assert!(hub.subscribe(1));
    assert!(hub.subscribe(2));
    hub.publish(&hmsg(20));
    assert!(hub.unsubscribe(1));
    hub.publish(&hmsg(21));
    assert!(hub.receive(1).is_none());
    assert_eq!(hub.buffered_len(1), None);
    assert_eq!(hub.receive(2).unwrap().id, 20);
    assert_eq!(hub.receive(2).unwrap().id, 21);
    assert_eq!(hub.subscriber_count(), 1);
    assert!(!hub.unsubscribe(1));
}

#[test]
fn late_subscriber_sees_no_replay() {
    let mut hub = BroadcastHub::new(4);
    assert!(hub.subscribe(1));
    hub.publish(&hmsg(30));
    assert!(hub.subscribe(2));
    assert!(hub.receive(2).is_none());
    assert_eq!(hub.receive(1).unwrap().id, 30);
}
