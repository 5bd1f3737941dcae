use ipc_arc::detach_decision;
use ipc_arc::layout::compute_layout;

#[test]
fn layout_machine_word_fields() {
    // A 40-byte mutex aligned to 8, an 8-byte counter word, a 4-byte
    // payload: the counter starts right after the mutex, the payload right
    // after the counter, and the total rounds up to the strictest
    // alignment.
    let l = compute_layout(40, 8, 8, 8, 4, 4).unwrap();
    assert_eq!(l.mutex_offset, 0);
    assert_eq!(l.counter_offset, 40);
    assert_eq!(l.payload_offset, 48);
    assert_eq!(l.total_size, 56);
    assert_eq!(l.align, 8);
}

#[test]
fn layout_inserts_padding() {
    // Odd sizes force padding: a 5-byte mutex before an 8-aligned counter,
    // a 3-byte payload before the total rounds to 8.
    let l = compute_layout(5, 4, 8, 8, 3, 2).unwrap();
    assert_eq!(l.mutex_offset, 0);
    assert_eq!(l.counter_offset, 8);
    assert_eq!(l.payload_offset, 16);
    assert_eq!(l.total_size, 24);
    assert_eq!(l.align, 8);
}

#[test]
fn layout_refuses_overflow() {
    // A payload so large the segment cannot fit in a machine word.
    assert!(compute_layout(40, 8, 8, 8, usize::MAX, 8).is_none());
}

#[test]
fn detach_decision_values() {
    // Only the observer of the one-to-zero transition destroys.
    assert_eq!(detach_decision(1), (0, true));
    assert_eq!(detach_decision(5), (4, false));
    assert_eq!(detach_decision(2), (1, false));
}
