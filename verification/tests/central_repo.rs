use skills_manager::central_repo::{
    base_dir, cache_dir, cancel_pending_migration, config_file_path, configured_base_dir, db_path,
    default_base_dir, default_repo_path, find_base_dir, find_home_base_dir, home_base_dir,
    keep_session_on_data, live_base_dir, load_config, load_config_state, load_config_state_from,
    logs_dir, paths_are_same_dir, pending_source_dir, pending_switch_target, requested_base_dir,
    requested_location, scenarios_dir, set_base_dir_override, skills_dir, ConfigFile, ConfigState,
    PathError, RepoPathConfig, RepoPathIntent, CONFIG_FILE_NAME,
};
use skills_manager::environment::Environment;
use skills_manager::os_text::OsText;
use skills_manager::paths::{Platform, RepoPath};
use skills_manager::places::Place;
use skills_manager::state::{
    set_runtime_base_dir_override, set_runtime_skills_dir_override, set_test_config_path_override,
    set_test_home_dir_override, RepoState,
};
use std::path::Path;

fn path(text: &str) -> RepoPath {
    RepoPath::parse(text, Platform::Other)
}

fn place(text: &str) -> Place {
    Place::read(&OsText::new(text), Platform::Other)
}

fn on_disk(path: &Path) -> RepoPath {
    RepoPath::parse(&path.to_string_lossy(), Platform::Other)
}

fn text(path: &RepoPath) -> String {
    path.to_text(Platform::Other)
}

fn env() -> Environment {
    Environment {
        platform: Platform::Other,
        home: Some(place("/home/me")),
        config_dir: Some(place("/home/me/.config")),
    }
}

fn config_migrating(source: &Path, target: &Path) -> RepoPathConfig {
    RepoPathConfig {
        repo_path: Some(target.to_string_lossy().to_string()),
        pending_migration_from: Some(source.to_string_lossy().to_string()),
    }
}

/// Whether the pending source of the settings is a directory on this disk.
fn source_is_dir(config: &RepoPathConfig) -> bool {
    match pending_source_dir(config, &env()) {
        Some(source) => Path::new(&text(&source)).is_dir(),
        None => false,
    }
}

fn live(config: &RepoPathConfig) -> RepoPath {
    live_base_dir(&RepoState::new(), &env(), config, source_is_dir(config))
}

fn settings(repo_path: Option<&str>, pending: Option<&str>) -> RepoPathConfig {
    RepoPathConfig {
        repo_path: repo_path.map(|t| t.to_string()),
        pending_migration_from: pending.map(|t| t.to_string()),
    }
}

/// A session on a populated default library below `/home/me`.
fn session() -> RepoState {
    let mut state = RepoState::new();
    set_test_home_dir_override(&mut state, Some(place("/home/me")));
    state
}

/// Save a change, and keep the session on its data. `present` are the directories on disk.
fn save(
    state: &mut RepoState,
    config: &mut RepoPathConfig,
    request: Option<&str>,
    intent: RepoPathIntent,
    present: &[&str],
) -> Result<RepoPath, PathError> {
    let is_dir = |config: &RepoPathConfig| match pending_source_dir(config, &env()) {
        Some(source) => present.contains(&text(&source).as_str()),
        None => false,
    };
    let change = set_base_dir_override(
        state,
        &env(),
        config,
        is_dir(config),
        request.map(|t| t.to_string()),
        intent,
    )?;
    keep_session_on_data(state, &env(), &change, is_dir(&change.config));
    *config = change.config;
    Ok(change.next)
}

/// While a migration is pending, the session must keep running against the data. Following the
/// requested path at once is what split a session across two locations.
#[test]
fn pending_migration_keeps_the_session_on_the_source() {
    let src = tempfile::tempdir().unwrap();
    let dst = tempfile::tempdir().unwrap();
    let config = config_migrating(src.path(), dst.path());

    assert_eq!(live(&config), on_disk(src.path()));
    assert_eq!(requested_base_dir(&RepoState::new(), &env(), &config), on_disk(dst.path()));
}

#[test]
fn without_a_pending_migration_the_requested_path_is_live() {
    let dst = tempfile::tempdir().unwrap();
    let config = RepoPathConfig {
        repo_path: Some(dst.path().to_string_lossy().to_string()),
        pending_migration_from: None,
    };

    assert_eq!(live(&config), on_disk(dst.path()));
}

/// A source that no longer exists cannot be where the data is; falling back to the requested
/// path avoids pinning a session to a deleted directory.
#[test]
fn pending_migration_with_a_vanished_source_falls_back_to_the_target() {
    let dst = tempfile::tempdir().unwrap();
    let gone = dst.path().join("removed");
    let config = config_migrating(&gone, dst.path());

    assert_eq!(live(&config), on_disk(dst.path()));
}

#[test]
fn config_state_missing_file_is_missing() {
    let tmp = tempfile::tempdir().unwrap();
    let file = tmp.path().join("repo-config.json");
    assert!(!file.exists());
    let state = load_config_state_from(&place(&file.to_string_lossy()), ConfigFile::NotFound);
    assert!(matches!(state, ConfigState::Missing));
}

#[test]
fn config_state_valid_json_is_valid() {
    // What the file holds: { "repo_path": "/tmp/lib", "pending_migration_from": null }
    let parsed = settings(Some("/tmp/lib"), None);
    match load_config_state_from(&place("/cfg/repo-config.json"), ConfigFile::Parsed(parsed)) {
        ConfigState::Valid(config) => {
            assert_eq!(config.repo_path.as_deref(), Some("/tmp/lib"));
        }
        _ => panic!("expected Valid"),
    }
}

#[test]
fn config_state_corrupt_json_is_invalid_not_fresh_install() {
    // A corrupt config must never be treated like a missing one: that is how a library seems
    // to be rebuilt empty.
    let file = place("/cfg/repo-config.json");
    let state = load_config_state_from(
        &file,
        ConfigFile::Malformed("key must be a string at line 1 column 3".to_string()),
    );
    match state {
        ConfigState::Invalid(detail) => assert_eq!(
            detail,
            "corrupt JSON in /cfg/repo-config.json: key must be a string at line 1 column 3"
        ),
        _ => panic!("expected Invalid"),
    }
    let state =
        load_config_state_from(&file, ConfigFile::Unreadable("permission denied".to_string()));
    match state {
        ConfigState::Invalid(detail) => {
            assert_eq!(detail, "cannot read /cfg/repo-config.json: permission denied")
        }
        _ => panic!("expected Invalid"),
    }
}

#[test]
fn unusable_settings_are_those_of_a_fresh_installation() {
    assert_eq!(load_config(ConfigState::Missing), RepoPathConfig::default());
    assert_eq!(
        load_config(ConfigState::Invalid("broken".to_string())),
        settings(None, None)
    );
    let config = settings(Some("/lib"), Some("/old"));
    assert_eq!(load_config(ConfigState::Valid(config.clone())), config);
    let mut state = RepoState::new();
    set_test_config_path_override(&mut state, Some(place("/x/cfg.json")));
    match load_config_state(&state, ConfigFile::Unreadable("no".to_string()), &env()) {
        ConfigState::Invalid(detail) => assert_eq!(detail, "cannot read /x/cfg.json: no"),
        _ => panic!("expected Invalid"),
    }
}

#[test]
fn the_settings_file_lies_below_the_settings_directory() {
    let mut state = RepoState::new();
    assert_eq!(
        text(&config_file_path(&state, &env())),
        "/home/me/.config/skills-manager/repo-config.json"
    );
    let mut bare = env();
    bare.config_dir = None;
    assert_eq!(
        text(&config_file_path(&state, &bare)),
        "/home/me/.skills-manager/skills-manager/repo-config.json"
    );
    set_test_config_path_override(
        &mut state,
        Some(place("/cfg").child(CONFIG_FILE_NAME, Platform::Other)),
    );
    assert_eq!(text(&config_file_path(&state, &env())), "/cfg/repo-config.json");
}

#[test]
fn the_default_location_lies_below_home() {
    let mut state = RepoState::new();
    for found in [
        home_base_dir(&state, &env()),
        default_base_dir(&state, &env()),
        default_repo_path(&state, &env()),
    ] {
        assert_eq!(text(&found), "/home/me/.skills-manager");
    }
    set_test_home_dir_override(&mut state, Some(place("/elsewhere")));
    assert_eq!(text(&home_base_dir(&state, &env())), "/elsewhere/.skills-manager");
    let homeless = Environment { platform: Platform::Other, home: None, config_dir: None };
    assert_eq!(find_home_base_dir(&RepoState::new(), &homeless), None);
    assert_eq!(find_base_dir(&RepoState::new(), &homeless, &settings(None, None), false), None);
    assert_eq!(
        find_base_dir(&RepoState::new(), &homeless, &settings(Some("/lib"), None), false),
        Some(path("/lib"))
    );
}

#[test]
fn every_directory_lies_below_the_library() {
    let mut state = RepoState::new();
    let config = settings(Some("~/lib"), None);
    assert_eq!(configured_base_dir(&config, &env()), Some(path("/home/me/lib")));
    assert_eq!(configured_base_dir(&settings(Some("lib"), None), &env()), None);
    assert_eq!(text(&base_dir(&state, &env(), &config, false)), "/home/me/lib");
    assert_eq!(text(&skills_dir(&state, &env(), &config, false)), "/home/me/lib/skills");
    assert_eq!(text(&scenarios_dir(&state, &env(), &config, false)), "/home/me/lib/scenarios");
    assert_eq!(text(&cache_dir(&state, &env(), &config, false)), "/home/me/lib/cache");
    assert_eq!(text(&logs_dir(&state, &env(), &config, false)), "/home/me/lib/logs");
    assert_eq!(text(&db_path(&state, &env(), &config, false)), "/home/me/lib/skills-manager.db");

    set_runtime_base_dir_override(&mut state, Some(place("/pinned")));
    assert_eq!(text(&db_path(&state, &env(), &config, false)), "/pinned/skills-manager.db");
    set_runtime_skills_dir_override(&mut state, Some(path("/my/skills")));
    assert_eq!(text(&skills_dir(&state, &env(), &config, false)), "/my/skills");
}

/// A save must not move the session onto the destination. The next launch does.
#[test]
fn a_saved_path_is_requested_and_not_yet_live() {
    let mut state = session();
    let mut config = RepoPathConfig::default();
    let present = ["/home/me/.skills-manager"];
    assert_eq!(base_dir(&state, &env(), &config, false), path("/home/me/.skills-manager"));

    let next = save(
        &mut state,
        &mut config,
        Some("/home/me/moved"),
        RepoPathIntent::Migrate,
        &present,
    )
    .unwrap();

    assert_eq!(next, path("/home/me/moved"));
    assert_eq!(config, settings(Some("/home/me/moved"), Some("/home/me/.skills-manager")));
    // The marker keeps the session on its data, so nothing is pinned: a pinned session would
    // leave the move alone.
    assert_eq!(state.base_dir_override(), None);
    assert_eq!(base_dir(&state, &env(), &config, true), path("/home/me/.skills-manager"));
    assert_eq!(
        pending_switch_target(&state, &env(), &config, true),
        Some(path("/home/me/moved"))
    );
}

/// Several changes before a restart still move the data from where it is.
#[test]
fn a_second_change_keeps_the_true_source() {
    let mut state = session();
    let mut config = RepoPathConfig::default();
    let present = ["/home/me/.skills-manager"];
    save(&mut state, &mut config, Some("/first"), RepoPathIntent::Migrate, &present).unwrap();
    save(&mut state, &mut config, Some("/second"), RepoPathIntent::Migrate, &present).unwrap();
    assert_eq!(config, settings(Some("/second"), Some("/home/me/.skills-manager")));
    // Back to where the data is: nothing is left to move.
    save(&mut state, &mut config, None, RepoPathIntent::Migrate, &present).unwrap();
    assert_eq!(config, settings(None, None));
    assert_eq!(state.base_dir_override(), None);
}

#[test]
fn a_refused_request_changes_nothing() {
    let mut state = session();
    let mut config = settings(Some("/lib"), None);
    let refused = save(&mut state, &mut config, Some("lib"), RepoPathIntent::Migrate, &[]);
    assert_eq!(refused, Err(PathError::NotAbsolute));
    assert_eq!(save(&mut state, &mut config, Some(" "), RepoPathIntent::Adopt, &[]), Err(PathError::Empty));
    assert_eq!(config, settings(Some("/lib"), None));
    assert_eq!(state.base_dir_override(), None);
}

/// Adopting the default location — what "reset to default" does when the default already holds
/// a library — must store "no path" rather than that path written out.
#[test]
fn adopting_the_default_location_stores_no_path() {
    let mut state = session();
    let mut config = RepoPathConfig::default();
    set_runtime_base_dir_override(&mut state, Some(place("/home/me/elsewhere")));

    save(&mut state, &mut config, None, RepoPathIntent::Adopt, &["/home/me/elsewhere"]).unwrap();

    assert_eq!(config.repo_path, None, "the default must stay 'no path'");
    assert_eq!(config.pending_migration_from, None, "nothing to migrate");
    // This session keeps using the data it already has...
    assert_eq!(base_dir(&state, &env(), &config, false), path("/home/me/elsewhere"));
    // ...and the next one resolves to the default.
    assert_eq!(
        live_base_dir(&state, &env(), &config, false),
        path("/home/me/.skills-manager")
    );
}

/// An adoption leaves no marker, so the session has to be pinned to stay on its data.
#[test]
fn adopting_a_library_pins_the_running_session() {
    let mut state = session();
    let mut config = RepoPathConfig::default();
    save(&mut state, &mut config, Some("/other-library"), RepoPathIntent::Adopt, &[]).unwrap();
    assert_eq!(config, settings(Some("/other-library"), None));
    assert_eq!(state.base_dir_override(), Some(place("/home/me/.skills-manager")));
    assert_eq!(
        pending_switch_target(&state, &env(), &config, false),
        Some(path("/other-library"))
    );
    // The next launch runs against the adopted library.
    set_runtime_base_dir_override(&mut state, None);
    assert_eq!(base_dir(&state, &env(), &config, false), path("/other-library"));
    assert_eq!(pending_switch_target(&state, &env(), &config, false), None);
}

#[test]
fn abandoning_a_switch_stays_with_the_library() {
    let mut state = session();
    let mut config = RepoPathConfig::default();
    let present = ["/home/me/.skills-manager"];
    save(&mut state, &mut config, Some("/moved"), RepoPathIntent::Migrate, &present).unwrap();
    let kept = cancel_pending_migration(&state, &env(), &config, true, None, None);
    // Staying on the default keeps following home.
    assert_eq!(kept, settings(None, None));
    assert_eq!(base_dir(&state, &env(), &kept, false), path("/home/me/.skills-manager"));
    assert_eq!(pending_switch_target(&state, &env(), &kept, false), None);

    // Elsewhere, the location is written down.
    set_runtime_base_dir_override(&mut state, Some(place("/data/lib")));
    let kept = cancel_pending_migration(&state, &env(), &config, false, None, None);
    assert_eq!(kept, settings(Some("/data/lib"), None));
    // Unless it is the default under another name.
    let real = path("/real");
    let kept = cancel_pending_migration(&state, &env(), &config, false, Some(&real), Some(&real));
    assert_eq!(kept, settings(None, None));
}

#[test]
fn directories_are_the_same_by_path_or_by_canonical_form() {
    let (a, b, real, other) = (path("/a"), path("/b"), path("/real"), path("/other"));
    assert!(paths_are_same_dir(&a, &a, None, None));
    assert!(!paths_are_same_dir(&a, &b, None, None));
    assert!(paths_are_same_dir(&a, &b, Some(&real), Some(&real)));
    assert!(!paths_are_same_dir(&a, &b, Some(&real), Some(&other)));
    assert!(!paths_are_same_dir(&a, &b, Some(&real), None));
}

/// What is stored and shown keeps the spelling of the home directory and of a pinned library.
#[test]
fn stored_locations_keep_their_spelling() {
    let mut state = RepoState::new();
    set_test_home_dir_override(&mut state, Some(place("/home//me/.")));
    let mut config = RepoPathConfig::default();
    let present = ["/home/me/.skills-manager"];
    save(&mut state, &mut config, Some("/new"), RepoPathIntent::Migrate, &present).unwrap();
    assert_eq!(config, settings(Some("/new"), Some("/home//me/./.skills-manager")));
    // The stored source stands for the library all the same, and is then spelled plainly.
    assert_eq!(base_dir(&state, &env(), &config, true), path("/home/me/.skills-manager"));
    save(&mut state, &mut config, Some("/newer"), RepoPathIntent::Migrate, &present).unwrap();
    assert_eq!(config, settings(Some("/newer"), Some("/home/me/.skills-manager")));

    let mut state = session();
    set_runtime_base_dir_override(&mut state, Some(place("/data//lib/")));
    let mut config = RepoPathConfig::default();
    save(&mut state, &mut config, Some("/new"), RepoPathIntent::Migrate, &["/data/lib"]).unwrap();
    assert_eq!(config.pending_migration_from.as_deref(), Some("/data//lib/"));
    let kept = cancel_pending_migration(&state, &env(), &config, true, None, None);
    assert_eq!(kept, settings(Some("/data//lib/"), None));

    set_test_config_path_override(&mut state, Some(place("/x//cfg.json")));
    match load_config_state(&state, ConfigFile::Unreadable("no".to_string()), &env()) {
        ConfigState::Invalid(detail) => assert_eq!(detail, "cannot read /x//cfg.json: no"),
        _ => panic!("expected Invalid"),
    }
}

/// A second move that leads back to the library leaves nothing to do.
#[test]
fn a_second_change_back_to_the_library_is_no_move() {
    let mut state = session();
    let mut config = settings(Some("/data/lib"), None);
    let present = ["/data/lib"];
    save(&mut state, &mut config, Some("/first"), RepoPathIntent::Migrate, &present).unwrap();
    assert_eq!(config, settings(Some("/first"), Some("/data/lib")));
    save(&mut state, &mut config, Some("/data/lib"), RepoPathIntent::Migrate, &present).unwrap();
    assert_eq!(config, settings(Some("/data/lib"), None));
    assert_eq!(pending_switch_target(&state, &env(), &config, false), None);
    assert_eq!(base_dir(&state, &env(), &config, false), path("/data/lib"));
}

/// A change that is abandoned leaves the library where it was, now and on the next launch.
#[test]
fn an_abandoned_change_leaves_the_library_in_place() {
    for intent in [RepoPathIntent::Migrate, RepoPathIntent::Adopt] {
        let mut state = session();
        let mut config = settings(Some("/data/lib"), None);
        save(&mut state, &mut config, Some("/other"), intent, &["/data/lib"]).unwrap();
        let marker = config.pending_migration_from.is_some();
        let kept = cancel_pending_migration(&state, &env(), &config, marker, None, None);
        assert_eq!(kept, settings(Some("/data/lib"), None));
        assert_eq!(base_dir(&state, &env(), &kept, false), path("/data/lib"));
        assert_eq!(pending_switch_target(&state, &env(), &kept, false), None);
        set_runtime_base_dir_override(&mut state, None);
        assert_eq!(base_dir(&state, &env(), &kept, false), path("/data/lib"));
    }
}

#[test]
fn the_requested_location_is_spelled_as_stored_or_as_home_is() {
    let state = RepoState::new();
    let stored = requested_location(&state, &env(), &settings(Some("/a//b/../c"), None));
    assert_eq!((stored.path, stored.text.as_str()), (path("/a/c"), "/a/c"));
    let mut env = env();
    env.home = Some(place("/home//me"));
    let default = requested_location(&state, &env, &settings(None, None));
    assert_eq!(default.path, path("/home/me/.skills-manager"));
    assert_eq!(default.text, "/home//me/.skills-manager");
}
