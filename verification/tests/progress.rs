use maproom::progress::{throttle_allows, OutputMode, ProgressTracker};

#[test]
fn test_new_creates_tracker() {
    let tracker = ProgressTracker::new(OutputMode::Minimal);
    assert_eq!(tracker.mode(), OutputMode::Minimal);
    assert_eq!(tracker.processed_files(), 0);
    assert_eq!(tracker.processed_chunks(), 0);
}

#[test]
fn test_percentage_calculation() {
    let mut tracker = ProgressTracker::new(OutputMode::Minimal);
    tracker.set_totals(100, None);
    tracker.update_files(50);
    assert_eq!(tracker.percentage_files(), 50);

    tracker.update_files(75);
    assert_eq!(tracker.percentage_files(), 75);
}

#[test]
fn test_percentage_calculation_edge_cases() {
    let mut tracker = ProgressTracker::new(OutputMode::Minimal);

    tracker.set_totals(1, None);
    tracker.update_files(1);
    assert_eq!(tracker.percentage_files(), 100);

    tracker.set_totals(10000, None);
    tracker.update_files(3750);
    assert_eq!(tracker.percentage_files(), 37);
}

#[test]
fn test_zero_total_safe() {
    let mut tracker = ProgressTracker::new(OutputMode::Minimal);
    tracker.set_totals(0, None);
    assert_eq!(tracker.percentage_files(), 0);
}

#[test]
fn first_print_then_throttled() {
    let mut tracker = ProgressTracker::new(OutputMode::Minimal);

    assert!(tracker.should_print(), "First call to should_print() should return true");
    assert!(!tracker.should_print(), "Second immediate call should be throttled");
    assert!(throttle_allows(300_000_000));
    assert!(throttle_allows(250_000_000));
}

#[test]
fn test_output_mode_minimal() {
    let tracker = ProgressTracker::new(OutputMode::Minimal);
    assert_eq!(tracker.mode(), OutputMode::Minimal);
}

#[test]
fn test_output_mode_verbose() {
    let tracker = ProgressTracker::new(OutputMode::Verbose);
    assert_eq!(tracker.mode(), OutputMode::Verbose);
}

#[test]
fn test_set_totals_updates() {
    let mut tracker = ProgressTracker::new(OutputMode::Minimal);

    tracker.set_totals(100, Some(500));

    assert_eq!(tracker.total_files(), Some(100));
    assert_eq!(tracker.total_chunks(), Some(500));
}

#[test]
fn test_chunks_percentage() {
    let mut tracker = ProgressTracker::new(OutputMode::Minimal);
    tracker.set_totals(100, Some(1000));
    tracker.update_chunks(250);
    assert_eq!(tracker.percentage_chunks(), 25);
}

#[test]
fn throttle_threshold_is_strict() {
    assert!(!throttle_allows(200_000_000));
    assert!(throttle_allows(200_000_001));
    assert!(!throttle_allows(0));
}

#[test]
fn progress_output_matches_terminal_state() {
    let mut tracker = ProgressTracker::new(OutputMode::Minimal);
    tracker.set_totals(200, Some(1000));
    tracker.update_files(50);
    tracker.update_chunks(100);
    let out = tracker.progress_output();
    if tracker.is_tty() {
        assert_eq!(
            out,
            Some("\rProcessing: 50/200 files (25%) | Embeddings: 100/1000 (10%)".to_string())
        );
    } else {
        assert_eq!(out, Some("Progress: 25% complete (50/200 files)\n".to_string()));
        // The next line only comes ten points later.
        tracker.update_files(60);
        assert_eq!(tracker.progress_output(), None);
        tracker.update_files(70);
        assert_eq!(
            tracker.progress_output(),
            Some("Progress: 35% complete (70/200 files)\n".to_string())
        );
    }
}

#[test]
fn throttle_step_follows_elapsed_time() {
    let mut tracker = ProgressTracker::new(OutputMode::Minimal);
    let now = std::time::Instant::now();
    assert!(tracker.throttle_step(now, 0), "the first print is always allowed");
    assert!(!tracker.throttle_step(now, 100_000_000));
    assert!(!tracker.throttle_step(now, 200_000_000), "exactly 200 ms is still throttled");
    assert!(tracker.throttle_step(now, 200_000_001));
    assert!(!tracker.throttle_step(now, 0));
}
