use resonix::grain::GranularSynthesizerGrain;

#[test]
fn new_grain_starts_at_its_start() {
    let grain = GranularSynthesizerGrain::new(10, 15, 3, true);
    assert_eq!(grain.start_frame, 10);
    assert_eq!(grain.current_frame, 10);
    assert_eq!(grain.end_frame, 15);
    assert_eq!(grain.len, 5);
    assert_eq!(grain.uid, 3);
    assert!(grain.is_init);
    assert!(!grain.is_finished);
    assert!(!grain.exceeds_buffer_selection);
    assert_eq!(grain.remaining_samples(), 5);
}

#[test]
fn default_grain_is_finished_and_empty() {
    let grain = GranularSynthesizerGrain::default();
    assert!(grain.is_finished);
    assert_eq!(grain.len, 0);
    assert_eq!(grain.start_frame, 0);
    assert!(!grain.is_init);
}

#[test]
fn grain_plays_every_frame_of_its_range_once() {
    let mut grain = GranularSynthesizerGrain::new(4, 7, 0, true);
    assert_eq!(grain.next_frame(), Some(4));
    assert_eq!(grain.next_frame(), Some(5));
    assert_eq!(grain.remaining_samples(), 1);
    assert_eq!(grain.next_frame(), Some(6));
    assert!(grain.is_finished);
    assert_eq!(grain.remaining_samples(), 0);
    assert_eq!(grain.next_frame(), None);
    assert_eq!(grain.current_frame, 7);
}

#[test]
fn grain_outside_the_selection_is_flagged() {
    let grain = GranularSynthesizerGrain::new(10, 20, 0, true);
    assert!(!grain.calculate_exceeds_buffer_selection(10, 20));
    assert!(grain.calculate_exceeds_buffer_selection(11, 20));
    assert!(grain.calculate_exceeds_buffer_selection(0, 19));
    assert!(!grain.calculate_exceeds_buffer_selection(0, 100));
}
