use js_plugin::invocation::{send_result_real, InvocationState, ARGS_BUFFER_SIZE};

#[test]
fn idle_poll_writes_only_a_zero() {
    let st = InvocationState::new();
    let mut buf = vec![9u8; ARGS_BUFFER_SIZE];
    assert!(st.record_fits());
    st.write_pending_invocation(&mut buf);
    assert_eq!(buf[0], 0);
    assert!(buf[1..].iter().all(|b| *b == 9));
}

#[test]
fn new_state_has_no_call() {
    let st = InvocationState::new();
    assert_eq!(st.current_function(), (0, String::new()));
    assert!(!st.is_waiting());
    assert_eq!(st.result(), "");
}

#[test]
fn answer_is_kept_and_nothing_is_polled() {
    let mut st = InvocationState::new();
    send_result_real(&mut st, "42".to_string());
    assert!(!st.is_waiting());
    assert_eq!(st.result(), "42");
    assert_eq!(st.current_function(), (0, String::new()));
    let mut buf = vec![7u8; ARGS_BUFFER_SIZE];
    st.write_pending_invocation(&mut buf);
    assert_eq!(buf[0], 0);
    assert!(buf[1..].iter().all(|b| *b == 7));
}

#[test]
fn later_answer_replaces_earlier() {
    let mut st = InvocationState::new();
    send_result_real(&mut st, "first".to_string());
    send_result_real(&mut st, "second".to_string());
    assert_eq!(st.result(), "second");
}
