use skills_manager::os_text::OsText;
use skills_manager::paths::{Platform, RepoPath};
use skills_manager::places::Place;
use skills_manager::state::{
    base_dir_override_active, push_startup_warning, record_migration, record_startup_error,
    set_runtime_base_dir_override, set_runtime_skills_dir_override, set_test_base_dir_override,
    set_test_config_path_override, set_test_home_dir_override, startup_warnings,
    take_last_migration, take_startup_errors, RepoState,
};

fn path(text: &str) -> RepoPath {
    RepoPath::parse(text, Platform::Other)
}

fn place(text: &str) -> Place {
    Place::read(&OsText::new(text), Platform::Other)
}

#[test]
fn a_move_is_handed_out_once() {
    let mut state = RepoState::new();
    assert_eq!(take_last_migration(&mut state), None);
    record_migration(&mut state, &path("/old"), &path("/new"));
    assert_eq!(take_last_migration(&mut state), Some((path("/old"), path("/new"))));
    assert_eq!(take_last_migration(&mut state), None);
}

#[test]
fn a_warning_is_kept_once_and_in_order() {
    let mut state = RepoState::new();
    assert!(startup_warnings(&state).is_empty());
    push_startup_warning(&mut state, "migration_incomplete");
    push_startup_warning(&mut state, "config_unreadable");
    push_startup_warning(&mut state, "migration_incomplete");
    assert_eq!(startup_warnings(&state), vec!["migration_incomplete", "config_unreadable"]);
    // Reading them does not take them.
    assert_eq!(startup_warnings(&state).len(), 2);
}

#[test]
fn errors_are_handed_out_once_and_may_repeat() {
    let mut state = RepoState::new();
    record_startup_error(&mut state, "first".to_string());
    record_startup_error(&mut state, "second".to_string());
    record_startup_error(&mut state, "first".to_string());
    assert_eq!(take_startup_errors(&mut state), vec!["first", "second", "first"]);
    assert!(take_startup_errors(&mut state).is_empty());
}

#[test]
fn pins_are_set_and_released() {
    let mut state = RepoState::new();
    assert!(!base_dir_override_active(&state));
    set_runtime_base_dir_override(&mut state, Some(place("/lib")));
    set_runtime_skills_dir_override(&mut state, Some(path("/skills")));
    assert!(base_dir_override_active(&state));
    assert_eq!(state.base_dir_override(), Some(place("/lib")));
    assert_eq!(state.skills_dir_override(), Some(path("/skills")));

    set_test_base_dir_override(&mut state, Some(place("/other")));
    assert_eq!(state.base_dir_override(), Some(place("/other")));
    assert_eq!(state.skills_dir_override(), None);
    set_runtime_base_dir_override(&mut state, None);
    assert!(!base_dir_override_active(&state));

    set_test_home_dir_override(&mut state, Some(place("/home")));
    set_test_config_path_override(&mut state, Some(place("/cfg.json")));
    assert_eq!(state.home_dir_override(), Some(place("/home")));
    assert_eq!(state.config_path_override(), Some(place("/cfg.json")));
}
