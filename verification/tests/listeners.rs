use obs_websocket::{find_callback_listener, Listeners};
use std::sync::mpsc::sync_channel;

#[test]
fn a_new_table_holds_nothing() {
    let mut listeners: Listeners<u32> = Listeners::new();
    assert!(!listeners.contains("1"));
    assert_eq!(find_callback_listener(&mut listeners, "1"), None);
}

#[test]
fn a_registered_slot_is_found_under_its_id() {
    let mut listeners: Listeners<u32> = Listeners::new();
    listeners.add_callback("1".to_string(), 11);
    assert!(listeners.contains("1"));
    assert_eq!(find_callback_listener(&mut listeners, "1"), Some(11));
}

#[test]
fn a_slot_is_handed_out_only_once() {
    let mut listeners: Listeners<u32> = Listeners::new();
    listeners.add_callback("1".to_string(), 11);
    assert_eq!(find_callback_listener(&mut listeners, "1"), Some(11));
    assert!(!listeners.contains("1"));
    assert_eq!(find_callback_listener(&mut listeners, "1"), None);
}

#[test]
fn an_unknown_id_finds_nothing_and_changes_nothing() {
    let mut listeners: Listeners<u32> = Listeners::new();
    listeners.add_callback("1".to_string(), 11);
    assert_eq!(find_callback_listener(&mut listeners, "2"), None);
    assert_eq!(find_callback_listener(&mut listeners, "01"), None);
    assert_eq!(find_callback_listener(&mut listeners, ""), None);
    assert_eq!(find_callback_listener(&mut listeners, "1"), Some(11));
}

#[test]
fn registering_an_id_again_replaces_the_slot() {
    let mut listeners: Listeners<u32> = Listeners::new();
    listeners.add_callback("1".to_string(), 11);
    listeners.add_callback("2".to_string(), 22);
    listeners.add_callback("1".to_string(), 33);
    assert_eq!(find_callback_listener(&mut listeners, "1"), Some(33));
    assert_eq!(find_callback_listener(&mut listeners, "1"), None);
    assert_eq!(find_callback_listener(&mut listeners, "2"), Some(22));
}

#[test]
fn slots_are_found_in_any_order() {
    let mut listeners: Listeners<u32> = Listeners::new();
    listeners.add_callback("1".to_string(), 11);
    listeners.add_callback("2".to_string(), 22);
    listeners.add_callback("3".to_string(), 33);
    assert_eq!(find_callback_listener(&mut listeners, "3"), Some(33));
    assert_eq!(find_callback_listener(&mut listeners, "2"), Some(22));
    assert_eq!(find_callback_listener(&mut listeners, "1"), Some(11));
    assert!(!listeners.contains("1"));
    assert!(!listeners.contains("2"));
    assert!(!listeners.contains("3"));
}

#[test]
fn taking_one_slot_leaves_the_others() {
    let mut listeners: Listeners<u32> = Listeners::new();
    listeners.add_callback("1".to_string(), 11);
    listeners.add_callback("2".to_string(), 22);
    listeners.add_callback("3".to_string(), 33);
    assert_eq!(listeners.take("2"), Some(22));
    assert!(listeners.contains("1"));
    assert!(!listeners.contains("2"));
    assert!(listeners.contains("3"));
    assert_eq!(listeners.take("1"), Some(11));
    assert_eq!(listeners.take("3"), Some(33));
}

#[test]
fn ids_are_compared_as_text() {
    let mut listeners: Listeners<u32> = Listeners::new();
    listeners.add_callback("10".to_string(), 1);
    listeners.add_callback("1".to_string(), 2);
    listeners.add_callback("äö".to_string(), 3);
    assert_eq!(listeners.take("1"), Some(2));
    assert_eq!(listeners.take("äö"), Some(3));
    assert_eq!(listeners.take("10"), Some(1));
}

#[test]
fn a_channel_can_be_the_slot() {
    let mut listeners = Listeners::new();
    let (sender, receiver) = sync_channel::<String>(1);
    listeners.add_callback("1".to_string(), sender);
    let found = find_callback_listener(&mut listeners, "1").unwrap();
    found.send("answer".to_string()).unwrap();
    assert_eq!(receiver.recv().unwrap(), "answer");
}

#[test]
fn the_table_counts_the_requests_that_wait() {
    let mut listeners: Listeners<u32> = Listeners::new();
    assert!(listeners.is_empty());
    assert_eq!(listeners.len(), 0);
    listeners.add_callback("1".to_string(), 11);
    listeners.add_callback("2".to_string(), 22);
    assert_eq!(listeners.len(), 2);
    listeners.add_callback("2".to_string(), 23);
    assert_eq!(listeners.len(), 2);
    assert!(!listeners.is_empty());
    assert_eq!(listeners.take("1"), Some(11));
    assert_eq!(listeners.len(), 1);
    assert_eq!(listeners.take("1"), None);
    assert_eq!(listeners.len(), 1);
    assert_eq!(listeners.take("2"), Some(23));
    assert!(listeners.is_empty());
}
