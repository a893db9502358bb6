use time_tracker::clock::Stamp;
use time_tracker::task::Task;

fn stamp(millis: i64) -> Stamp {
    Stamp::new(millis, 0).unwrap()
}

#[test]
fn test_task_creation() {
    let task = Task::new("Test Task".to_string());
    assert_eq!(task.name, "Test Task");
    assert_eq!(task.total_millis, 0);
    assert!(!task.is_running);
}

#[test]
fn test_format_duration() {
    assert_eq!(Task::format_duration(0), "00:00:00");
    assert_eq!(Task::format_duration(59), "00:00:59");
    assert_eq!(Task::format_duration(3661), "01:01:01");
}

#[test]
fn format_duration_hours_past_a_day() {
    assert_eq!(Task::format_duration(100 * 3600 + 9 * 60 + 5), "100:09:05");
    assert_eq!(Task::format_duration(86399), "23:59:59");
    assert_eq!(Task::format_duration(36000), "10:00:00");
}

#[test]
fn start_then_stop_banks_elapsed_time() {
    let mut t = Task::new_at("a".to_string(), stamp(0));
    t.start_at(1_000);
    assert!(t.is_running);
    assert_eq!(t.start_timestamp, Some(1_000));
    t.stop_at(3_500);
    assert_eq!(t.total_millis, 2_500);
    assert!(!t.is_running);
    assert_eq!(t.start_timestamp, None);
}

#[test]
fn start_twice_keeps_first_start() {
    let mut t = Task::new_at("a".to_string(), stamp(0));
    t.start_at(1_000);
    t.start_at(2_000);
    assert_eq!(t.start_timestamp, Some(1_000));
}

#[test]
fn stop_when_idle_changes_nothing() {
    let mut t = Task::new_at("a".to_string(), stamp(0));
    t.stop_at(9_000);
    assert_eq!(t.total_millis, 0);
    assert!(!t.is_running);
}

#[test]
fn stop_before_start_clamps_to_zero() {
    let mut t = Task::new_at("a".to_string(), stamp(0));
    t.start_at(5_000);
    t.stop_at(4_000);
    assert_eq!(t.total_millis, 0);
    assert!(!t.is_running);
}

#[test]
fn reset_from_running_clears_everything() {
    let mut t = Task::new_at("a".to_string(), stamp(0));
    t.start_at(0);
    t.stop_at(7_000);
    t.start_at(8_000);
    t.reset();
    assert_eq!(t.total_millis, 0);
    assert!(!t.is_running);
    assert_eq!(t.start_timestamp, None);
    assert_eq!(t.current_millis_at(99_000), 0);
}

#[test]
fn current_time_includes_live_session() {
    let mut t = Task::new_at("a".to_string(), stamp(0));
    t.start_at(0);
    t.stop_at(2_000);
    t.start_at(10_000);
    assert_eq!(t.current_millis_at(10_750), 2_750);
    assert_eq!(t.current_millis_at(9_000), 2_000);
}

#[test]
fn live_start_stop_uses_the_clock() {
    let mut t = Task::new("live".to_string());
    t.start();
    assert!(t.is_running);
    wait_millis(30);
    t.stop();
    assert!(!t.is_running);
    assert!(t.total_millis >= 25);
    assert!(t.total_millis < 5_000);
}

#[test]
fn saturating_total() {
    let mut t = Task::new_at("a".to_string(), stamp(0));
    t.total_millis = u64::MAX - 1;
    t.start_at(0);
    t.stop_at(10);
    assert_eq!(t.total_millis, u64::MAX);
}

fn wait_millis(ms: u64) {
    let until = std::time::Instant::now() + std::time::Duration::from_millis(ms);
    while std::time::Instant::now() < until {}
}
