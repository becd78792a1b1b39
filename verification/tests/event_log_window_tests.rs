use community_sim::event_log_window::{event_log_window_content, recent_events, EventLogContent, EVENT_LOG_LINES};
use std::collections::VecDeque;

fn events(n: usize) -> VecDeque<String> {
    (0..n).map(|i| format!("event {}", i)).collect()
}

#[test]
fn fewer_events_than_lines_are_all_shown() {
    let log = events(3);
    assert_eq!(recent_events(&log, 22), vec!["event 0", "event 1", "event 2"]);
}

#[test]
fn only_the_last_lines_are_shown_oldest_first() {
    let log = events(30);
    let content = event_log_window_content(&log, true);
    let expected: Vec<String> = (8..30).map(|i| format!("event {}", i)).collect();
    assert_eq!(EVENT_LOG_LINES, 22);
    assert_eq!(content, EventLogContent::Lines(expected));
}

#[test]
fn disabled_window_shows_quiet_mode() {
    assert_eq!(event_log_window_content(&events(5), false), EventLogContent::Quiet);
}

#[test]
fn no_events_no_lines() {
    assert_eq!(event_log_window_content(&VecDeque::new(), true), EventLogContent::Lines(vec![]));
    assert!(recent_events(&events(4), 0).is_empty());
}
