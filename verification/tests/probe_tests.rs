use meshalert::probe::probe_verdict;

#[test]
fn probe_accepts_the_connected_sentinel() {
    assert!(probe_verdict("Connected to radio"));
    assert!(probe_verdict("Connected to radio\nOwner: someone"));
    assert!(probe_verdict("Connected to radio\r\nOwner: someone"));
}

#[test]
fn probe_rejects_everything_else() {
    assert!(!probe_verdict(""));
    assert!(!probe_verdict("Disconnected"));
    assert!(!probe_verdict("Owner\nConnected to radio"));
    assert!(!probe_verdict("Connected to radio\nError: battery"));
    assert!(!probe_verdict("Error before\nConnected to radio"));
}
