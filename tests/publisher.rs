use cpu_stream::publisher::Publisher;

#[test]
fn new_publisher_holds_initial_value() {
    let p: Publisher<Vec<f32>> = Publisher::new(Vec::new());
    assert!(p.latest().is_empty());
    assert_eq!(p.version(), 0);
    assert_eq!(p.subscriber_count(), 0);
}

#[test]
fn publish_returns_replaced_value() {
    let mut p: Publisher<u64> = Publisher::new(1);
    assert_eq!(p.publish(2), 1);
    assert_eq!(p.publish(3), 2);
    assert_eq!(*p.latest(), 3);
    assert_eq!(p.version(), 2);
}

#[test]
fn publishes_without_subscribers_keep_only_latest() {
    let mut p: Publisher<u64> = Publisher::new(0);
    for i in 1..=10_000u64 {
        p.publish(i);
    }
    assert_eq!(p.version(), 10_000);
    assert_eq!(*p.latest(), 10_000);
    assert_eq!(p.subscriber_count(), 0);
}

#[test]
fn fresh_subscription_waits_for_first_publish() {
    let mut p: Publisher<Vec<f32>> = Publisher::new(Vec::new());
    let mut sub = p.subscribe();
    assert!(p.poll(&mut sub).is_none());
    assert!(p.poll(&mut sub).is_none());
    assert_eq!(sub.seen(), 0);
    p.publish(vec![10.0, 20.0]);
    assert_eq!(p.poll(&mut sub), Some(&vec![10.0f32, 20.0]));
    assert_eq!(sub.seen(), 1);
    assert!(p.poll(&mut sub).is_none());
}

#[test]
fn late_subscription_gets_latest_at_once() {
    let mut p: Publisher<u64> = Publisher::new(0);
    p.publish(4);
    p.publish(5);
    let mut sub = p.subscribe();
    assert_eq!(p.poll(&mut sub), Some(&5));
    assert_eq!(sub.seen(), 2);
    assert_eq!(p.poll(&mut sub), None);
}

#[test]
fn caught_up_subscriber_sees_every_publish_in_order() {
    let mut p: Publisher<u64> = Publisher::new(0);
    let mut sub = p.subscribe();
    let mut seen = Vec::new();
    for v in [7u64, 3, 3, 9, 1] {
        p.publish(v);
        while let Some(x) = p.poll(&mut sub) {
            seen.push(*x);
        }
    }
    assert_eq!(seen, vec![7, 3, 3, 9, 1]);
}

#[test]
fn slow_subscriber_skips_to_latest() {
    let mut p: Publisher<u64> = Publisher::new(0);
    let mut sub = p.subscribe();
    p.publish(1);
    assert_eq!(p.poll(&mut sub), Some(&1));
    p.publish(2);
    p.publish(3);
    p.publish(4);
    assert_eq!(p.poll(&mut sub), Some(&4));
    assert_eq!(sub.seen(), 4);
    assert_eq!(p.poll(&mut sub), None);
}

#[test]
fn unsubscribe_does_not_affect_others() {
    let mut p: Publisher<u64> = Publisher::new(0);
    let mut a = p.subscribe();
    let mut b = p.subscribe();
    assert_eq!(p.subscriber_count(), 2);
    p.publish(11);
    assert_eq!(p.poll(&mut a), Some(&11));
    p.unsubscribe(a);
    assert_eq!(p.subscriber_count(), 1);
    assert_eq!(p.version(), 1);
    assert_eq!(p.poll(&mut b), Some(&11));
    p.publish(12);
    assert_eq!(p.poll(&mut b), Some(&12));
    p.unsubscribe(b);
    assert_eq!(p.subscriber_count(), 0);
}

#[test]
fn two_observers_receive_same_snapshots() {
    let mut p: Publisher<Vec<f32>> = Publisher::new(Vec::new());
    let mut a = p.subscribe();
    let mut b = p.subscribe();
    let mut got_a: Vec<Vec<f32>> = Vec::new();
    let mut got_b: Vec<Vec<f32>> = Vec::new();
    for round in 0..2 {
        let base = round as f32;
        p.publish(vec![base, base + 1.0, base + 2.0, base + 3.0]);
        if let Some(s) = p.poll(&mut a) {
            got_a.push(s.clone());
        }
        if let Some(s) = p.poll(&mut b) {
            got_b.push(s.clone());
        }
    }
    assert_eq!(got_a.len(), 2);
    assert_eq!(got_a, got_b);
    assert!(got_a.iter().all(|s| s.len() == 4));
}

#[test]
fn snapshot_json_round_trip() {
    let mut p: Publisher<Vec<f32>> = Publisher::new(Vec::new());
    let mut sub = p.subscribe();
    p.publish(vec![0.0, 12.5, 100.0, 33.3]);
    let delivered = p.poll(&mut sub).unwrap();
    let json = serde_json::to_string(delivered).unwrap();
    assert_eq!(json, "[0.0,12.5,100.0,33.3]");
    let back: Vec<f32> = serde_json::from_str(&json).unwrap();
    assert_eq!(back.len(), 4);
    for (x, y) in back.iter().zip([0.0f32, 12.5, 100.0, 33.3].iter()) {
        assert!((x - y).abs() < 1e-4);
    }
}
