use justice_server::controllers::chats::fanout_targets;
use justice_server::ids::UserId;
use justice_server::models::events::{SseEvent, SseEventType};
use justice_server::services::hub::{EventHub, CHANNEL_CAPACITY};

fn ev(data: &str) -> SseEvent {
    SseEvent::new(SseEventType::Message, data.to_string())
}

#[test]
fn no_backlog_for_late_subscriber() {
    let mut hub = EventHub::new();
    let u = UserId::new(1);
    assert!(!hub.publish(u, &ev("early")));
    let sub = hub.subscribe(u).unwrap();
    assert!(hub.receive(sub).is_none());
}

#[test]
fn delivery_in_publish_order() {
    let mut hub = EventHub::new();
    let u = UserId::new(1);
    let sub = hub.subscribe(u).unwrap();
    assert!(hub.publish(u, &ev("one")));
    assert!(hub.publish(u, &ev("two")));
    assert_eq!(hub.receive(sub).unwrap().data, "one");
    assert_eq!(hub.receive(sub).unwrap().data, "two");
    assert!(hub.receive(sub).is_none());
}

#[test]
fn slow_subscriber_loses_oldest() {
    let mut hub = EventHub::new();
    let u = UserId::new(1);
    let sub = hub.subscribe(u).unwrap();
    for i in 0..(CHANNEL_CAPACITY + 2) {
        hub.publish(u, &ev(&i.to_string()));
    }
    assert_eq!(hub.receive(sub).unwrap().data, "2");
    let mut n = 1;
    while hub.receive(sub).is_some() {
        n += 1;
    }
    assert_eq!(n, CHANNEL_CAPACITY);
}

#[test]
fn every_subscription_of_a_user_gets_the_event() {
    let mut hub = EventHub::new();
    let u = UserId::new(1);
    let a = hub.subscribe(u).unwrap();
    let b = hub.subscribe(u).unwrap();
    let other = hub.subscribe(UserId::new(2)).unwrap();
    hub.publish(u, &ev("x"));
    assert_eq!(hub.receive(a).unwrap().data, "x");
    assert_eq!(hub.receive(b).unwrap().data, "x");
    assert!(hub.receive(other).is_none());
}

#[test]
fn unsubscribe_releases_slot() {
    let mut hub = EventHub::new();
    let u = UserId::new(1);
    let a = hub.subscribe(u).unwrap();
    hub.unsubscribe(a);
    assert!(!hub.publish(u, &ev("x")));
    assert!(hub.receive(a).is_none());
}

#[test]
fn fanout_publishes_to_exactly_b_and_c() {
    let mut hub = EventHub::new();
    let (a, b, c, d) = (UserId::new(1), UserId::new(2), UserId::new(3), UserId::new(4));
    let sa = hub.subscribe(a).unwrap();
    let sb = hub.subscribe(b).unwrap();
    let sc = hub.subscribe(c).unwrap();
    let sd = hub.subscribe(d).unwrap();
    let targets = fanout_targets(&vec![a, b, c], a);
    hub.publish_to_all(&targets, &SseEvent::new(SseEventType::Chat, "{}".to_string()));
    assert!(hub.receive(sa).is_none());
    let got = hub.receive(sb).unwrap();
    assert_eq!(got.event_type, SseEventType::Chat);
    assert_eq!(got.event_type.as_str(), "chat");
    assert!(hub.receive(sc).is_some());
    assert!(hub.receive(sd).is_none());
    assert!(hub.receive(sb).is_none());
}

#[test]
fn event_names() {
    assert_eq!(SseEventType::Message.as_str(), "message");
    assert_eq!(SseEventType::Chat.as_str(), "chat");
}
