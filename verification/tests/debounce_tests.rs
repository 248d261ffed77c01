use smart_clock::debounce::{Debouncer, DEBOUNCE_MS};

#[test]
fn first_edge_is_accepted() {
    let mut d = Debouncer::new();
    assert!(d.accept(12345));
}

#[test]
fn bounced_edge_within_window_is_one_press() {
    let mut d = Debouncer::new();
    assert!(d.accept(1000));
    // A second edge 30 ms later is bounce, not a new press.
    assert!(!d.accept(1030));
    // And the rejected edge does not extend the quiet interval: an edge
    // a full window after the accepted one counts again.
    assert!(d.accept(1000 + DEBOUNCE_MS));
}

#[test]
fn edge_exactly_at_window_boundary_is_accepted() {
    let mut d = Debouncer::new();
    assert!(d.accept(500));
    assert!(!d.accept(500 + DEBOUNCE_MS - 1));
    let mut d2 = Debouncer::new();
    assert!(d2.accept(500));
    assert!(d2.accept(500 + DEBOUNCE_MS));
}

#[test]
fn stale_timestamp_is_rejected() {
    let mut d = Debouncer::new();
    assert!(d.accept(1000));
    assert!(!d.accept(990));
}
