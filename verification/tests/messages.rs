use auto_morph::messages::{log_message, LOG_CAPACITY};

#[test]
fn log_keeps_messages_in_order() {
    let mut log: Vec<String> = Vec::new();
    log_message(&mut log, "first");
    log_message(&mut log, "second");
    assert_eq!(log, vec!["first".to_string(), "second".to_string()]);
}

#[test]
fn log_drops_the_oldest_entry_when_full() {
    let mut log: Vec<String> = Vec::new();
    for i in 0..LOG_CAPACITY {
        log_message(&mut log, &format!("message {i}"));
    }
    assert_eq!(log.len(), 100);
    log_message(&mut log, "one more");
    assert_eq!(log.len(), 100);
    assert_eq!(log[0], "message 1");
    assert_eq!(log[99], "one more");
}
