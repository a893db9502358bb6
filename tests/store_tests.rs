use time_tracker::clock::Stamp;
use time_tracker::records::{Persistence, TaskRecord};
use time_tracker::store::{AppState, StoreError, TaskDto};

fn stamp(millis: i64) -> Stamp {
    Stamp::new(millis, 0).unwrap()
}

#[test]
fn test_add_and_get_task() {
    let mut state = AppState::new();
    let result = state.add_task("Test Task".to_string());
    assert!(result.is_ok());
    assert!(state.find("Test Task").is_some());
}

#[test]
fn test_duplicate_task_error() {
    let mut state = AppState::new();
    assert!(state.add_trimmed_at("Duplicate".to_string(), stamp(0)).is_ok());
    let result = state.add_task("Duplicate".to_string());
    assert!(result.is_err());
}

#[test]
fn test_save_and_load_tasks() {
    let mut state = AppState::new();
    state.add_task("Test Task".to_string()).unwrap();
    let records = Persistence::to_records(&state);
    let loaded = Persistence::from_records(&records).unwrap();
    assert!(loaded.find("Test Task").is_some());
}

#[test]
fn add_same_name_twice_is_duplicate() {
    let mut state = AppState::new();
    assert_eq!(state.add_task("x".to_string()), Ok(()));
    assert_eq!(state.add_task("x".to_string()), Err(StoreError::DuplicateTask));
    assert_eq!(state.len(), 1);
}

#[test]
fn add_trims_before_checking() {
    let mut state = AppState::new();
    assert_eq!(state.add_task("  x \t".to_string()), Ok(()));
    assert_eq!(state.task_at(0).name, "x");
    assert_eq!(state.add_task("x".to_string()), Err(StoreError::DuplicateTask));
}

#[test]
fn add_empty_or_blank_is_empty_name() {
    let mut state = AppState::new();
    assert_eq!(state.add_task("".to_string()), Err(StoreError::EmptyName));
    assert_eq!(state.add_task("   ".to_string()), Err(StoreError::EmptyName));
    assert_eq!(state.len(), 0);
}

#[test]
fn names_are_case_sensitive() {
    let mut state = AppState::new();
    assert_eq!(state.add_task("Task".to_string()), Ok(()));
    assert_eq!(state.add_task("task".to_string()), Ok(()));
    assert_eq!(state.len(), 2);
}

#[test]
fn absent_name_is_not_found() {
    let mut state = AppState::new();
    state.add_trimmed_at("here".to_string(), stamp(0)).unwrap();
    assert_eq!(state.start_task("gone"), Err(StoreError::NotFound));
    assert_eq!(state.stop_task("gone"), Err(StoreError::NotFound));
    assert_eq!(state.reset_task("gone"), Err(StoreError::NotFound));
    assert_eq!(state.delete_task("gone"), Err(StoreError::NotFound));
    assert_eq!(state.len(), 1);
}

#[test]
fn delete_removes_only_that_task() {
    let mut state = AppState::new();
    state.add_trimmed_at("a".to_string(), stamp(0)).unwrap();
    state.add_trimmed_at("b".to_string(), stamp(1)).unwrap();
    assert_eq!(state.delete_task("a"), Ok(()));
    assert_eq!(state.len(), 1);
    assert!(state.find("a").is_none());
    assert_eq!(state.find("b"), Some(0));
}

#[test]
fn write_report_end_to_end() {
    let mut state = AppState::new();
    assert_eq!(state.add_task("Write Report".to_string()), Ok(()));
    assert_eq!(state.start_task("Write Report"), Ok(()));
    wait_millis(20);
    assert_eq!(state.stop_task("Write Report"), Ok(()));
    assert_eq!(state.reset_task("Write Report"), Ok(()));
    let i = state.find("Write Report").unwrap();
    let t = state.task_at(i);
    assert_eq!(t.get_current_time(), 0);
    assert!(!t.is_running);
}

#[test]
fn stop_task_at_banks_time() {
    let mut state = AppState::new();
    state.add_trimmed_at("a".to_string(), stamp(0)).unwrap();
    assert_eq!(state.start_task_at("a", 1_000), Ok(()));
    assert_eq!(state.stop_task_at("a", 62_000), Ok(()));
    let dtos = state.get_tasks_at(70_000);
    assert_eq!(dtos[0].total_time_secs, 61);
    assert_eq!(dtos[0].formatted_time, "00:01:01");
    assert!(!dtos[0].is_running);
}

#[test]
fn listing_is_in_creation_order() {
    let mut state = AppState::new();
    state.add_trimmed_at("Zulu".to_string(), stamp(1_000)).unwrap();
    state.add_trimmed_at("Alpha".to_string(), stamp(2_000)).unwrap();
    let names: Vec<String> = state.get_tasks_at(5_000).into_iter().map(|d| d.name).collect();
    assert_eq!(names, vec!["Zulu".to_string(), "Alpha".to_string()]);
}

#[test]
fn listing_ignores_insertion_order() {
    let mut state = AppState::new();
    state.add_trimmed_at("late".to_string(), stamp(9_000)).unwrap();
    state.add_trimmed_at("early".to_string(), stamp(1_000)).unwrap();
    state.add_trimmed_at("middle".to_string(), stamp(5_000)).unwrap();
    state.add_trimmed_at("tie".to_string(), stamp(5_000)).unwrap();
    let names: Vec<String> = state.get_tasks_at(10_000).into_iter().map(|d| d.name).collect();
    assert_eq!(names, vec!["early", "middle", "tie", "late"]);
}

#[test]
fn listing_shows_running_time() {
    let mut state = AppState::new();
    state.add_trimmed_at("a".to_string(), stamp(0)).unwrap();
    state.start_task_at("a", 0).unwrap();
    let dtos = state.get_tasks_at(3_661_999);
    assert!(dtos[0].is_running);
    assert_eq!(dtos[0].total_time_secs, 3661);
    assert_eq!(dtos[0].formatted_time, "01:01:01");
}

#[test]
fn listing_renders_creation_stamp_in_local_time() {
    let mut state = AppState::new();
    let created = Stamp::new(1_700_000_000_000, 3600).unwrap();
    state.add_trimmed_at("a".to_string(), created).unwrap();
    let dtos = state.get_tasks();
    assert_eq!(dtos[0].created_at, "2023-11-14 23:13:20");
}

#[test]
fn stamp_rejects_out_of_range() {
    assert!(Stamp::new(0, 86_400).is_none());
    assert!(Stamp::new(0, -86_400).is_none());
    assert!(Stamp::new(i64::MAX, 0).is_none());
    assert!(Stamp::new(i64::MIN, 0).is_none());
    assert!(Stamp::new(0, 86_399).is_some());
}

fn dto(name: &str, formatted: &str, running: bool, created: &str) -> TaskDto {
    TaskDto {
        name: name.to_string(),
        total_time_secs: 0,
        formatted_time: formatted.to_string(),
        is_running: running,
        created_at: created.to_string(),
    }
}

#[test]
fn report_layout() {
    let dtos = vec![
        dto("Zulu", "00:00:05", false, "2024-01-01 09:00:00"),
        dto("Alpha", "01:00:00", true, "2024-01-01 10:00:00"),
    ];
    let text = Persistence::render_report("2024-01-02 12:00:00", &dtos);
    assert_eq!(
        text,
        "Time Tracker Export\nGenerated on: 2024-01-02 12:00:00\n\n\
         Task: Zulu\nTotal Time: 00:00:05\nCreated: 2024-01-01 09:00:00\n\n\
         Task: Alpha\nTotal Time: 01:00:00 (Running)\nCreated: 2024-01-01 10:00:00\n\n"
    );
}

#[test]
fn report_of_empty_store() {
    let text = Persistence::render_report("2024-01-02 12:00:00", &Vec::new());
    assert_eq!(text, "Time Tracker Export\nGenerated on: 2024-01-02 12:00:00\n\n");
}

#[test]
fn export_orders_by_creation() {
    let mut state = AppState::new();
    state.add_trimmed_at("Zulu".to_string(), stamp(1_000)).unwrap();
    state.add_trimmed_at("Alpha".to_string(), stamp(2_000)).unwrap();
    let text = state.export_text_at(5_000, stamp(0));
    let z = text.find("Task: Zulu").unwrap();
    let a = text.find("Task: Alpha").unwrap();
    assert!(z < a);
    assert!(text.starts_with("Time Tracker Export\nGenerated on: 1970-01-01 00:00:00\n\n"));
}

#[test]
fn records_round_trip() {
    let mut state = AppState::new();
    state.add_trimmed_at("a".to_string(), stamp(1_000)).unwrap();
    state.add_trimmed_at("b".to_string(), stamp(2_000)).unwrap();
    state.start_task_at("a", 0).unwrap();
    state.stop_task_at("a", 4_700).unwrap();
    state.start_task_at("b", 0).unwrap();
    let records = Persistence::to_records(&state);
    assert_eq!(records[0].total_time, 4);
    let loaded = Persistence::from_records(&records).unwrap();
    assert_eq!(loaded.task_at(0).total_millis, 4_000);
    assert!(!loaded.task_at(1).is_running);
    assert_eq!(loaded.task_at(1).start_timestamp, None);
    let again = Persistence::to_records(&loaded);
    assert_eq!(again.len(), 2);
    for (x, y) in records.iter().zip(again.iter()) {
        assert_eq!(x.name, y.name);
        assert_eq!(x.total_time, y.total_time);
        assert_eq!(x.created_at, y.created_at);
    }
}

fn record(name: &str, total: u64, millis: i64) -> TaskRecord {
    TaskRecord { name: name.to_string(), total_time: total, created_at: stamp(millis) }
}

#[test]
fn records_with_duplicate_names_are_refused() {
    let records = vec![record("a", 1, 0), record("a", 2, 0)];
    assert!(Persistence::from_records(&records).is_none());
}

#[test]
fn records_with_huge_total_are_refused() {
    let records = vec![record("a", u64::MAX, 0)];
    assert!(Persistence::from_records(&records).is_none());
}

#[test]
fn records_with_bad_offset_are_refused() {
    let records = vec![TaskRecord {
        name: "a".to_string(),
        total_time: 0,
        created_at: Stamp { millis: 0, offset_secs: 90_000 },
    }];
    assert!(Persistence::from_records(&records).is_none());
}

fn wait_millis(ms: u64) {
    let until = std::time::Instant::now() + std::time::Duration::from_millis(ms);
    while std::time::Instant::now() < until {}
}

#[test]
fn summary_of_one_task() {
    let mut t = time_tracker::task::Task::new_at("a".to_string(), stamp(0));
    t.start_at(0);
    t.stop_at(59_999);
    let d = TaskDto::from_task_at(&t, 1_000_000);
    assert_eq!(d.name, "a");
    assert_eq!(d.total_time_secs, 59);
    assert_eq!(d.formatted_time, "00:00:59");
    assert!(!d.is_running);
    assert_eq!(d.created_at, "1970-01-01 00:00:00");
}
