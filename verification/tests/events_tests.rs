use js_plugin::events::{real_send_event, EventQueue};

#[test]
fn events_come_out_in_send_order() {
    let mut q = EventQueue::new();
    q.register_callback("click".to_string(), 2);
    q.register_callback("key".to_string(), 5);
    real_send_event(&mut q, "click".to_string(), "a".to_string());
    real_send_event(&mut q, "key".to_string(), "b".to_string());
    real_send_event(&mut q, "click".to_string(), "c".to_string());
    let evs = q.take_events();
    assert_eq!(
        evs,
        vec![(2, "a".to_string()), (5, "b".to_string()), (2, "c".to_string())]
    );
    assert!(q.take_events().is_empty());
}

#[test]
fn registering_again_replaces_slot() {
    let mut q = EventQueue::new();
    q.register_callback("tick".to_string(), 1);
    q.register_callback("tick".to_string(), 7);
    assert_eq!(q.callback_index(&"tick".to_string()), Some(7));
    real_send_event(&mut q, "tick".to_string(), "{}".to_string());
    assert_eq!(q.take_events(), vec![(7, "{}".to_string())]);
}

#[test]
fn unknown_type_has_no_slot() {
    let mut q = EventQueue::new();
    assert_eq!(q.callback_index(&"tick".to_string()), None);
    q.register_callback("tock".to_string(), 0);
    assert_eq!(q.callback_index(&"tick".to_string()), None);
    assert_eq!(q.callback_index(&"tock".to_string()), Some(0));
}

#[test]
fn taking_keeps_registrations() {
    let mut q = EventQueue::new();
    q.register_callback("e".to_string(), 3);
    real_send_event(&mut q, "e".to_string(), "x".to_string());
    assert_eq!(q.take_events().len(), 1);
    real_send_event(&mut q, "e".to_string(), "y".to_string());
    assert_eq!(q.take_events(), vec![(3, "y".to_string())]);
}

#[test]
fn callback_list_has_each_type_once() {
    let mut q = EventQueue::new();
    q.register_callback("a".to_string(), 1);
    q.register_callback("b".to_string(), 2);
    q.register_callback("a".to_string(), 3);
    let mut l = q.callback_list();
    l.sort();
    assert_eq!(l, vec![("a".to_string(), 3), ("b".to_string(), 2)]);
}
