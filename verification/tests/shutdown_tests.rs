use protohackers::shutdown::ShutdownSignal;

#[test]
fn fresh_signal_is_neither_initiated_nor_complete() {
    let s = ShutdownSignal::new();
    assert!(!s.is_shutdown_initiated());
    assert!(!s.is_shutdown_complete());
}

#[test]
fn exactly_one_initiation_observes_true() {
    let mut s = ShutdownSignal::new();
    let first = s.start_shutdown();
    let second = s.start_shutdown();
    let third = s.start_shutdown();
    assert!(first);
    assert!(!second);
    assert!(!third);
    assert!(s.is_shutdown_initiated());
    assert!(!s.is_shutdown_complete());
}

#[test]
fn complete_before_initiate_is_a_no_op() {
    let mut s = ShutdownSignal::new();
    assert_eq!(s.complete_shutdown(), None);
    assert!(!s.is_shutdown_complete());
    assert!(!s.is_shutdown_initiated());
}

#[test]
fn complete_after_initiate_fires_once() {
    let mut s = ShutdownSignal::new();
    assert!(s.start_shutdown());
    assert_eq!(s.complete_shutdown(), Some(true));
    assert!(s.is_shutdown_complete());
    assert_eq!(s.complete_shutdown(), Some(false));
    assert!(s.is_shutdown_complete());
    assert!(!s.start_shutdown());
}
