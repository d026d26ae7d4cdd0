use faulx::{any_unmatched, signal_to_send};

#[test]
fn test_signal_to_send_defaults_to_terminate() {
    let d = signal_to_send(None).expect("default signal exists");
    assert_eq!(d.name, "TERM");
    assert_eq!(d.value, 15);
}

#[test]
fn test_signal_to_send_resolves_requested_name() {
    let d = signal_to_send(Some("kill")).expect("known name resolves");
    assert_eq!(d.name, "KILL");
    assert_eq!(d.value, 9);
}

#[test]
fn test_signal_to_send_rejects_unknown_name() {
    assert!(signal_to_send(Some("notasignal")).is_none());
}

#[test]
fn test_any_unmatched() {
    assert!(!any_unmatched(&vec![]));
    assert!(!any_unmatched(&vec![1, 2, 3]));
    assert!(any_unmatched(&vec![1, 0, 3]));
    assert!(any_unmatched(&vec![0]));
}
