use snake_core::LevelError;
use snake_core::level::LevelManager;

#[test]
fn level_manager_adds_and_retrieves_levels() {
    let mut manager = LevelManager::new(81);
    let level_data = b"##########       ## ##### ## #   # ## # # # ## #   # ## ##### ##       ##########";
    manager.add_level("level1", level_data).unwrap();
    let retrieved_level = manager.get_level("level1").unwrap();
    assert_eq!(retrieved_level, level_data);
}

#[test]
fn level_manager_can_add_level_with_line_breaks() {
    let mut manager = LevelManager::new(81);
    let level_data_with_breaks = b"##########\n       ##\n ##### ##\n #   # ##\n # # # ##\n #   # ##\n ##### ##\n       ##########";
    let clean_level_data: Vec<u8> = level_data_with_breaks
        .iter()
        .filter(|b| **b != b'\n' && **b != b'\r')
        .copied()
        .collect();
    manager.add_level("level2", level_data_with_breaks).unwrap();
    let retrieved_level = manager.get_level("level2").unwrap();
    assert_eq!(retrieved_level, &clean_level_data);
}

#[test]
fn level_manager_returns_none_for_nonexistent_level() {
    let manager = LevelManager::new(81);
    let retrieved_level = manager.get_level("nonexistent_level");
    assert!(retrieved_level.is_none());
}

#[test]
fn level_manager_rejects_invalid_level_size() {
    let mut manager = LevelManager::new(81);
    let invalid_level_data = b"##########       ## ##### ## #   # ## # # # ## #   # ## ##### ##       ########";
    let result = manager.add_level("level1", invalid_level_data);
    assert!(result.is_err());
}

#[test]
fn level_manager_can_determine_level_names() {
    let mut manager = LevelManager::new(81);
    let level_data1 = b"##########       ## ##### ## #   # ## # # # ## #   # ## ##### ##       ##########";
    let level_data2 = b"##########       ## ##### ## #   # ## # # # ## #   # ## ##### ##       ##########";
    manager.add_level("level 1", level_data1).unwrap();
    manager.add_level("level 2", level_data2).unwrap();
    let level_names = manager.get_level_names();
    assert_eq!(level_names, vec!["level 1", "level 2"]);
}

#[test]
fn level_manager_reports_the_sizes_in_its_error() {
    let mut manager = LevelManager::new(81);
    let result = manager.add_level("level1", b"too short");
    match result {
        Err(LevelError::SizeMismatch { expected, got }) => {
            assert_eq!(expected, 81);
            assert_eq!(got, 9);
        }
        Ok(()) => panic!("a level of nine bytes must be rejected"),
    }
}
