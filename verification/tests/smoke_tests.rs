use protohackers::smoke_test::{echo_step, EchoAction, ReadEvent};

#[test]
fn data_is_echoed_unchanged() {
    match echo_step(ReadEvent::Data(vec![1, 2, 3])) {
        EchoAction::Write(w) => assert_eq!(w, vec![1, 2, 3]),
        _ => panic!("data must be written back"),
    }
    match echo_step(ReadEvent::Data(Vec::new())) {
        EchoAction::Write(w) => assert!(w.is_empty()),
        _ => panic!("data must be written back"),
    }
}

#[test]
fn stream_events_end_or_continue_the_loop() {
    assert!(matches!(echo_step(ReadEvent::Closed), EchoAction::Stop));
    assert!(matches!(echo_step(ReadEvent::Interrupted), EchoAction::Retry));
    assert!(matches!(echo_step(ReadEvent::Failed), EchoAction::Fail));
}
