use psdevbot::sender::{Delivery, DelayedSender, OutboundMessage, QueueClosed, MIN_INTERVAL_MS};

fn global(text: &str) -> OutboundMessage {
    OutboundMessage::GlobalCommand {
        command: text.into(),
    }
}

fn sent_text(d: Delivery) -> Option<String> {
    match d {
        Delivery::Send(OutboundMessage::GlobalCommand { command }) => Some(command),
        _ => None,
    }
}

#[test]
fn sender_does_not_delay_on_first_message() {
    let mut sender = DelayedSender::new();
    sender.send(global("test")).unwrap();
    assert_eq!(sent_text(sender.poll(5000)), Some("test".to_string()));
    assert!(matches!(sender.poll(5000), Delivery::Idle));
}

#[test]
fn sender_does_delay_on_second_message() {
    let mut sender = DelayedSender::new();
    sender.send(global("a")).unwrap();
    assert_eq!(sent_text(sender.poll(0)), Some("a".to_string()));
    sender.send(global("b")).unwrap();
    assert!(matches!(sender.poll(0), Delivery::WaitUntil(700)));
    assert!(matches!(sender.poll(699), Delivery::WaitUntil(700)));
    assert_eq!(sent_text(sender.poll(700)), Some("b".to_string()));
}

#[test]
fn burst_is_delivered_in_order_paced() {
    let mut sender = DelayedSender::new();
    for text in ["1", "2", "3"] {
        sender.send(global(text)).unwrap();
    }
    let mut delivered = Vec::new();
    let mut now = 10;
    while delivered.len() < 3 {
        match sender.poll(now) {
            Delivery::Send(OutboundMessage::GlobalCommand { command }) => delivered.push((now, command)),
            Delivery::WaitUntil(t) => now = t,
            _ => panic!("unexpected delivery"),
        }
    }
    assert_eq!(
        delivered,
        vec![(10, "1".to_string()), (710, "2".to_string()), (1410, "3".to_string())]
    );
    assert_eq!(MIN_INTERVAL_MS, 700);
}

#[test]
fn idle_time_gives_no_burst_credit() {
    let mut sender = DelayedSender::new();
    sender.send(global("a")).unwrap();
    assert!(sent_text(sender.poll(0)).is_some());
    sender.send(global("b")).unwrap();
    sender.send(global("c")).unwrap();
    assert!(sent_text(sender.poll(10_000)).is_some());
    assert!(matches!(sender.poll(10_000), Delivery::WaitUntil(10_700)));
}

#[test]
fn stopped_queue_refuses_and_drops() {
    let mut sender = DelayedSender::new();
    sender.send(global("a")).unwrap();
    sender.stop();
    assert!(sender.is_closed());
    assert!(matches!(sender.poll(0), Delivery::Idle));
    assert_eq!(sender.send(global("b")), Err(QueueClosed));
}
