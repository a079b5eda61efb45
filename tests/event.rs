use instance_pipe::{Event, EventHandler, EventKind};

#[test]
fn log_keeps_order_of_operations() {
    let mut log = EventHandler::new();
    log.notify(Event::<(), u8>::ConnectionAccepted(1));
    log.notify(Event::<(), u8>::MessageSent);
    log.notify(Event::<String, u8>::MessageReceived("hi".to_string()));
    assert_eq!(log.len(), 3);
    assert_eq!(
        log.get_events(),
        vec!["ConnectionAccepted".to_string(), "MessageSent".to_string(), "MessageReceived".to_string()]
    );
}

#[test]
fn new_log_is_empty() {
    assert!(EventHandler::new().get_events().is_empty());
    assert_eq!(EventHandler::default().len(), 0);
}

#[test]
fn each_notify_appends_one_tag() {
    let mut log = EventHandler::default();
    for i in 0..4 {
        log.notify(Event::<(), ()>::MessageSent);
        assert_eq!(log.len(), i + 1);
    }
    assert_eq!(log.get_events(), vec!["MessageSent".to_string(); 4]);
}

#[test]
fn kinds_and_tags() {
    assert_eq!(Event::<u8, u8>::MessageReceived(3).kind(), EventKind::MessageReceived);
    assert_eq!(Event::<u8, u8>::ConnectionAccepted(3).kind(), EventKind::ConnectionAccepted);
    assert_eq!(EventKind::MessageSent.tag(), "MessageSent");
}
