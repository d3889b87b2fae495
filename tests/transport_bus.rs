use robotica_node_rust::bus::{Bus, ReadResult};
use robotica_node_rust::messages::{geofence_to_message, plugged_in_to_message};
use robotica_node_rust::registry::Subscriptions;
use robotica_node_rust::transport::{
    reconnect_delay_ms, ConnectionState, Dispatch, OutboundQueue, OutgoingMessage, TransportAction,
    TransportEvent,
};

#[test]
fn reconnect_delay_doubles_then_caps() {
    let got: Vec<u64> = (1..=9).map(reconnect_delay_ms).collect();
    assert_eq!(
        got,
        vec![1000, 2000, 4000, 8000, 16000, 32000, 60000, 60000, 60000]
    );
    assert_eq!(reconnect_delay_ms(1000), 60000);
    assert_eq!(reconnect_delay_ms(u64::MAX), 60000);
}

#[test]
fn reconnect_delay_non_decreasing() {
    let mut last = 0;
    for k in 1..100 {
        let d = reconnect_delay_ms(k);
        assert!(d >= last);
        assert!(d <= 60000);
        last = d;
    }
}

fn msg(at: u64) -> OutgoingMessage {
    OutgoingMessage::new("state/x".to_string(), "on".to_string(), false, at)
}

#[test]
fn stale_message_dropped() {
    assert_eq!(msg(0).dispatch(301_000, false), Dispatch::Drop);
    assert_eq!(msg(0).dispatch(301_000, true), Dispatch::Drop);
}

#[test]
fn fresh_message_transmitted_or_logged() {
    assert_eq!(msg(0).dispatch(299_000, false), Dispatch::Transmit);
    assert_eq!(msg(0).dispatch(299_000, true), Dispatch::LogOnly);
    assert_eq!(msg(0).dispatch(300_000, false), Dispatch::Transmit);
    assert_eq!(msg(500).dispatch(100, false), Dispatch::Transmit);
}

#[test]
fn outbound_queue_fifo_and_bounded() {
    let mut q = OutboundQueue::new(2, false);
    assert!(q.enqueue(msg(1)).is_ok());
    assert!(q.enqueue(msg(2)).is_ok());
    let back = q.enqueue(msg(3));
    assert_eq!(back.err().map(|m| m.enqueued_at_ms), Some(3));
    let (m, d) = q.dequeue(302_000).unwrap();
    assert_eq!(m.enqueued_at_ms, 1);
    assert_eq!(d, Dispatch::Drop);
    let (m, d) = q.dequeue(299_002).unwrap();
    assert_eq!(m.enqueued_at_ms, 2);
    assert_eq!(d, Dispatch::Transmit);
    assert!(q.dequeue(0).is_none());
}

#[test]
fn outbound_queue_dry_run_logs_only() {
    let mut q = OutboundQueue::new(4, true);
    q.enqueue(msg(0)).ok().unwrap();
    assert_eq!(q.dequeue(10).unwrap().1, Dispatch::LogOnly);
}

#[test]
fn connection_lifecycle() {
    let mut s = ConnectionState::Disconnected;
    assert_eq!(
        s.step(TransportEvent::Start),
        TransportAction::Connect { timeout_ms: 10000 }
    );
    assert_eq!(s.step(TransportEvent::AttemptSucceeded), TransportAction::SubscribeAll);
    assert_eq!(s, ConnectionState::Connected);
    assert_eq!(
        s.step(TransportEvent::ConnectionLost),
        TransportAction::Reconnect { wait_ms: 1000, timeout_ms: 10000 }
    );
    assert_eq!(
        s.step(TransportEvent::AttemptFailed),
        TransportAction::Reconnect { wait_ms: 2000, timeout_ms: 10000 }
    );
    assert_eq!(
        s.step(TransportEvent::AttemptFailed),
        TransportAction::Reconnect { wait_ms: 4000, timeout_ms: 10000 }
    );
    assert_eq!(s, ConnectionState::Connecting { attempt: 3 });
    assert_eq!(s.step(TransportEvent::AttemptSucceeded), TransportAction::SubscribeAll);
    assert_eq!(s, ConnectionState::Connected);
}

#[test]
fn first_connection_failure_is_fatal() {
    let mut s = ConnectionState::Disconnected;
    s.step(TransportEvent::Start);
    assert_eq!(s.step(TransportEvent::AttemptFailed), TransportAction::Fail);
    assert_eq!(s, ConnectionState::Disconnected);
}

#[test]
fn registry_shares_topics() {
    let mut r = Subscriptions::new();
    let a = r.subscribe("teslamate/cars/1/locked");
    let b = r.subscribe("teslamate/cars/1/geofence");
    let c = r.subscribe("teslamate/cars/1/locked");
    assert_eq!(a, c);
    assert_ne!(a, b);
    assert_eq!(r.get("teslamate/cars/1/geofence"), Some(b));
    assert_eq!(r.get("teslamate/cars/2/geofence"), None);
    assert_eq!(
        r.topics(),
        vec!["teslamate/cars/1/locked".to_string(), "teslamate/cars/1/geofence".to_string()]
    );
}

#[test]
fn bus_fan_out_independent_readers() {
    let mut bus: Bus<u64> = Bus::new(10);
    let mut fast = bus.subscribe();
    let mut slow = bus.subscribe();
    for v in 1..=5 {
        assert!(bus.send(v));
        assert!(matches!(bus.read(&mut fast), ReadResult::Item(x) if x == v));
    }
    assert!(matches!(bus.read(&mut fast), ReadResult::Empty));
    assert_eq!(bus.drain(&mut slow), vec![1, 2, 3, 4, 5]);
    bus.close();
    assert!(matches!(bus.read(&mut slow), ReadResult::Closed));
    assert!(!bus.send(6));
}

#[test]
fn bus_late_reader_sees_only_new_values() {
    let mut bus: Bus<u64> = Bus::new(10);
    bus.send(1);
    let mut late = bus.subscribe();
    bus.send(2);
    assert_eq!(bus.drain(&mut late), vec![2]);
}

#[test]
fn bus_lagging_reader_skips_forward() {
    let mut bus: Bus<u64> = Bus::new(3);
    let mut r = bus.subscribe();
    for v in 1..=5 {
        bus.send(v);
    }
    assert!(matches!(bus.read(&mut r), ReadResult::Lagged(2)));
    assert_eq!(bus.drain(&mut r), vec![3, 4, 5]);
}

#[test]
fn geofence_messages() {
    assert_eq!(geofence_to_message((None, "Home".to_string())), None);
    assert_eq!(geofence_to_message((Some("Home".to_string()), "Home".to_string())), None);
    assert_eq!(
        geofence_to_message((Some("".to_string()), "Home".to_string())),
        Some("The tesla has arrived at Home".to_string())
    );
    assert_eq!(
        geofence_to_message((Some("Home".to_string()), "".to_string())),
        Some("The tesla has left Home".to_string())
    );
    assert_eq!(
        geofence_to_message((Some("Home".to_string()), "Work".to_string())),
        Some("The tesla has left Home and arrived at Work".to_string())
    );
}

#[test]
fn plugged_in_messages() {
    assert_eq!(plugged_in_to_message((None, true)), None);
    assert_eq!(
        plugged_in_to_message((Some(false), true)),
        Some("The tesla has been plugged in".to_string())
    );
    assert_eq!(
        plugged_in_to_message((Some(true), false)),
        Some("The tesla been disconnected".to_string())
    );
    assert_eq!(plugged_in_to_message((Some(true), true)), None);
}
