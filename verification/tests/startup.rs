use skills_manager::central_repo::{
    base_dir, cancel_pending_migration, keep_session_on_data, pending_source_dir,
    pending_switch_target, set_base_dir_override, ConfigState, RepoPathConfig, RepoPathIntent,
};
use skills_manager::environment::Environment;
use skills_manager::migration::{MigrationEvent, MigrationStage};
use skills_manager::os_text::OsText;
use skills_manager::paths::{Platform, RepoPath};
use skills_manager::places::Place;
use skills_manager::startup::{
    advance_startup, ensure_central_repo, Startup, StartupEvent,
};
use skills_manager::state::{
    set_runtime_base_dir_override, set_runtime_skills_dir_override, set_test_home_dir_override,
    startup_warnings, take_last_migration, take_startup_errors, RepoState,
};
use skills_manager::target::{
    EntryFacts, EntryKind, Listing, TargetContents, TargetEntry, TargetItem,
};

const LOCK_FILE_NAME: &str = ".skills-manager.lock";

fn path(text: &str) -> RepoPath {
    RepoPath::parse(text, Platform::Other)
}

fn place(text: &str) -> Place {
    Place::read(&OsText::new(text), Platform::Other)
}

fn text(path: &RepoPath) -> String {
    path.to_text(Platform::Other)
}

fn env() -> Environment {
    Environment { platform: Platform::Other, home: Some(place("/users/me")), config_dir: None }
}

fn entry(name: &str, kind: EntryKind) -> TargetItem {
    TargetItem::Entry(TargetEntry {
        facts: EntryFacts { name: Some(name.to_string()), kind: Ok(kind), bridge_owned: false },
        inside: Listing::Items(vec![]),
    })
}

/// A disk that is a list of directories, and the settings that are stored on it.
struct World {
    dirs: Vec<String>,
    config: RepoPathConfig,
    /// What lies directly in a directory, where that matters.
    contents: Vec<(String, Vec<(&'static str, EntryKind)>)>,
    /// The names of what an early version left behind.
    legacy: Vec<&'static str>,
    /// Names in the library that are taken, whatever their case.
    taken: Vec<String>,
    renames: bool,
    saves: bool,
    log: Vec<String>,
}

impl World {
    fn new(dirs: &[&str]) -> World {
        World {
            dirs: dirs.iter().map(|dir| dir.to_string()).collect(),
            config: RepoPathConfig::default(),
            contents: Vec::new(),
            legacy: Vec::new(),
            taken: Vec::new(),
            renames: true,
            saves: true,
            log: Vec::new(),
        }
    }

    fn is_dir(&self, path: &RepoPath) -> bool {
        self.dirs.contains(&text(path))
    }

    fn source_is_dir(&self, config: &RepoPathConfig) -> bool {
        pending_source_dir(config, &env()).map_or(false, |source| self.is_dir(&source))
    }

    fn base(&self, state: &RepoState) -> String {
        text(&base_dir(state, &env(), &self.config, self.source_is_dir(&self.config)))
    }

    fn switch_target(&self, state: &RepoState) -> Option<String> {
        pending_switch_target(state, &env(), &self.config, self.source_is_dir(&self.config))
            .map(|target| text(&target))
    }

    fn contents_of(&self, target: &RepoPath) -> TargetContents {
        if !self.is_dir(target) {
            return TargetContents::Absent;
        }
        for (dir, items) in &self.contents {
            if *dir == text(target) {
                return TargetContents::Items(
                    items.iter().map(|(name, kind)| entry(name, *kind)).collect(),
                );
            }
        }
        TargetContents::Items(vec![])
    }

    /// Save a change of the requested path.
    fn save(&mut self, state: &mut RepoState, request: Option<&str>, intent: RepoPathIntent) {
        let change = set_base_dir_override(
            state,
            &env(),
            &self.config,
            self.source_is_dir(&self.config),
            request.map(|t| t.to_string()),
            intent,
        )
        .unwrap();
        let marker_is_dir = self.source_is_dir(&change.config);
        keep_session_on_data(state, &env(), &change, marker_is_dir);
        self.config = change.config;
    }

    /// Abandon a pending switch.
    fn cancel(&mut self, state: &RepoState) {
        let source_is_dir = self.source_is_dir(&self.config);
        self.config =
            cancel_pending_migration(state, &env(), &self.config, source_is_dir, None, None);
    }

    /// Start the app on this disk.
    fn start(&mut self, state: &mut RepoState, loaded: ConfigState) -> Result<(), String> {
        let mut startup = ensure_central_repo(state, &env(), loaded);
        loop {
            let event = match &startup {
                Startup::Done(result) => return result.clone(),
                Startup::Migrate { migration, .. } => {
                    let source = migration.source.clone();
                    let target = migration.target.path.clone();
                    StartupEvent::Migration(match migration.stage {
                        MigrationStage::Compare => MigrationEvent::Compared {
                            source_exists: self.is_dir(&source),
                            canonical_source: None,
                            canonical_target: None,
                        },
                        MigrationStage::Inspect => {
                            MigrationEvent::Inspected(self.contents_of(&target))
                        }
                        MigrationStage::CreateParent => MigrationEvent::ParentCreated(Ok(())),
                        MigrationStage::Rename => {
                            if self.renames {
                                self.log.push(format!("rename {} {}", text(&source), text(&target)));
                                self.dirs.retain(|dir| *dir != text(&source));
                                self.dirs.push(text(&target));
                            }
                            MigrationEvent::Renamed(self.renames)
                        }
                        MigrationStage::Copy => {
                            self.log.push(format!("copy {} {}", text(&source), text(&target)));
                            self.dirs.push(text(&target));
                            MigrationEvent::Copied(Ok(()))
                        }
                    })
                }
                Startup::Save { config, .. } => {
                    if self.saves {
                        self.config = config.clone();
                        StartupEvent::Saved(Ok(()))
                    } else {
                        StartupEvent::Saved(Err("disk full".to_string()))
                    }
                }
                Startup::Resolve | Startup::Locate => StartupEvent::Resolved {
                    config: self.config.clone(),
                    source_is_dir: self.source_is_dir(&self.config),
                },
                Startup::ProbeLegacy { skills, legacy, .. } => StartupEvent::LegacyProbed {
                    legacy_exists: self.is_dir(legacy),
                    skills_exist: self.is_dir(skills),
                },
                Startup::CreateBase { base, .. } => {
                    self.log.push(format!("create {}", text(base)));
                    StartupEvent::BaseCreated(Ok(()))
                }
                Startup::ListLegacy { .. } => StartupEvent::LegacyListed(
                    self.legacy.iter().map(|name| OsText::new(name)).collect(),
                ),
                Startup::ProbeEntry { place, .. } => StartupEvent::EntryProbed {
                    taken: self.taken.contains(&text(place).to_lowercase()),
                },
                Startup::MoveEntry { entry, place, .. } => {
                    self.log.push(format!("take over {} {}", text(entry), text(place)));
                    self.taken.push(text(place).to_lowercase());
                    // Settings that come along are in force from then on.
                    if text(place).ends_with("/skills-manager") {
                        self.config.repo_path = Some("/brought".to_string());
                    }
                    StartupEvent::EntryMoved
                }
                Startup::CreateDirs { dirs } => {
                    for dir in dirs {
                        self.log.push(format!("create {}", text(dir)));
                        self.dirs.push(text(dir));
                    }
                    StartupEvent::DirsCreated(Ok(()))
                }
            };
            startup = advance_startup(state, &env(), startup, event, LOCK_FILE_NAME);
        }
    }

    /// Start the app again: whatever the session was pinned to is forgotten.
    fn restart(&mut self, state: &mut RepoState) {
        set_runtime_base_dir_override(state, None);
        let loaded = ConfigState::Valid(self.config.clone());
        self.start(state, loaded).unwrap();
    }
}

fn session() -> RepoState {
    let mut state = RepoState::new();
    set_test_home_dir_override(&mut state, Some(place("/home")));
    state
}

/// A save must not move the session onto the destination; the next launch does.
#[test]
fn saving_a_new_path_keeps_the_session_on_the_current_library() {
    let mut state = session();
    // Start on a populated default library.
    let mut world = World::new(&["/home/.skills-manager", "/home/.skills-manager/skills"]);
    assert_eq!(world.base(&state), "/home/.skills-manager");

    world.save(&mut state, Some("/home/moved"), RepoPathIntent::Migrate);

    // The session must still be on the data, and the destination untouched.
    assert_eq!(
        world.base(&state),
        "/home/.skills-manager",
        "session moved before the migration"
    );
    assert!(
        !world.is_dir(&path("/home/moved")),
        "the destination must not be created before the migration"
    );

    // Now the restart: the migration runs and completes.
    world.restart(&mut state);
    assert_eq!(
        world.base(&state),
        "/home/moved",
        "migration did not complete on restart"
    );
    assert_eq!(world.log[0], "rename /home/.skills-manager /home/moved");
    assert_eq!(
        take_last_migration(&mut state),
        Some((path("/home/.skills-manager"), path("/home/moved")))
    );
}

/// The destination picks up a lock file from a stray operation, and the migration must still
/// succeed on the next launch.
#[test]
fn migration_succeeds_when_the_target_only_holds_app_debris() {
    let mut state = session();
    let mut world = World::new(&["/home/.skills-manager"]);
    world.save(&mut state, Some("/home/moved"), RepoPathIntent::Migrate);

    // Whatever created this left debris.
    world.dirs.push("/home/moved".to_string());
    world.contents.push((
        "/home/moved".to_string(),
        vec![("skills", EntryKind::Dir), (LOCK_FILE_NAME, EntryKind::File)],
    ));
    world.renames = false;
    world.restart(&mut state);

    assert_eq!(
        world.base(&state),
        "/home/moved",
        "debris-only target blocked the migration"
    );
    assert_eq!(world.log[0], "copy /home/.skills-manager /home/moved");
    assert!(startup_warnings(&state).is_empty());
}

/// A save that is never acted on must be abandonable, leaving the library where it is.
#[test]
fn cancelling_a_pending_migration_keeps_the_library_in_place() {
    let mut state = session();
    let mut world = World::new(&["/home/.skills-manager"]);
    world.save(&mut state, Some("/home/moved"), RepoPathIntent::Migrate);
    assert_eq!(world.switch_target(&state), Some("/home/moved".to_string()));

    world.cancel(&state);
    world.restart(&mut state);

    assert_eq!(
        world.base(&state),
        "/home/.skills-manager",
        "cancel must keep the library where it is"
    );
    assert!(world.switch_target(&state).is_none());
    assert!(!world.is_dir(&path("/home/moved")));
}

/// Cancelling must work even when nothing is pending, the shape left by an adoption.
#[test]
fn cancelling_after_an_adoption_keeps_the_adopted_library() {
    let mut state = session();
    let mut world = World::new(&["/home/.skills-manager", "/home/other-library"]);

    // Adopt, then restart into it, so the session runs on it with nothing pending.
    world.save(&mut state, Some("/home/other-library"), RepoPathIntent::Adopt);
    world.restart(&mut state);
    assert_eq!(world.base(&state), "/home/other-library");

    world.cancel(&state);
    world.restart(&mut state);

    assert_eq!(
        world.base(&state),
        "/home/other-library",
        "cancelling must not strand the session on an empty default"
    );
}

/// Adopting a library switches to it on the next launch without copying anything.
#[test]
fn adopting_an_existing_library_switches_without_copying() {
    let mut state = session();
    let mut world = World::new(&["/home/.skills-manager", "/home/other-library"]);
    world.save(&mut state, Some("/home/other-library"), RepoPathIntent::Adopt);

    // Still running on the old data until the restart...
    assert_eq!(world.base(&state), "/home/.skills-manager");

    world.restart(&mut state);

    // ...and now on the adopted library, whose contents are untouched.
    assert_eq!(world.base(&state), "/home/other-library");
    assert!(
        world.log.iter().all(|line| line.starts_with("create ")),
        "adoption must not copy the old library in"
    );
    assert_eq!(take_last_migration(&mut state), None);
}

/// A move that fails leaves the session at the source, pinned, with the marker in place.
#[test]
fn a_failed_move_runs_at_the_source() {
    let mut state = session();
    let mut world = World::new(&["/home/.skills-manager", "/home/moved"]);
    world.save(&mut state, Some("/home/moved"), RepoPathIntent::Migrate);
    world.contents.push(("/home/moved".to_string(), vec![("mine.txt", EntryKind::File)]));
    let saved = world.config.clone();
    world.restart(&mut state);
    assert_eq!(state.base_dir_override(), Some(place("/home/.skills-manager")));
    assert_eq!(world.base(&state), "/home/.skills-manager");
    assert_eq!(world.config, saved);
    assert_eq!(startup_warnings(&state), vec!["migration_incomplete"]);
    assert_eq!(take_startup_errors(&mut state).len(), 1);
    // Another launch tries again, and succeeds once the target is empty.
    world.contents.clear();
    world.restart(&mut state);
    assert_eq!(world.base(&state), "/home/moved");
    // The warning of the first launch is still there, once.
    assert_eq!(startup_warnings(&state), vec!["migration_incomplete"]);
}

/// A pinned session leaves a pending move alone: it belongs to another library.
#[test]
fn a_pinned_session_moves_nothing() {
    let mut state = session();
    let mut world = World::new(&["/old"]);
    world.config = RepoPathConfig {
        repo_path: Some("/new".to_string()),
        pending_migration_from: Some("/old".to_string()),
    };
    set_runtime_base_dir_override(&mut state, Some(place("/chosen")));
    let loaded = ConfigState::Valid(world.config.clone());
    world.start(&mut state, loaded).unwrap();
    assert_eq!(world.base(&state), "/chosen");
    assert_eq!(
        world.log,
        vec![
            "create /chosen/skills",
            "create /chosen/scenarios",
            "create /chosen/cache",
            "create /chosen/logs",
        ]
    );
    assert_eq!(world.config.pending_migration_from.as_deref(), Some("/old"));
}

/// Settings that cannot be used never pass in silence.
#[test]
fn unusable_settings_raise_a_warning() {
    let mut state = session();
    let mut world = World::new(&[]);
    world.start(&mut state, ConfigState::Invalid("broken".to_string())).unwrap();
    assert_eq!(startup_warnings(&state), vec!["config_unreadable"]);
    assert_eq!(world.base(&state), "/home/.skills-manager");

    let mut state = session();
    let mut world = World::new(&[]);
    world.config.repo_path = Some("relative".to_string());
    world.restart(&mut state);
    assert_eq!(startup_warnings(&state), vec!["repo_path_invalid"]);
    assert_eq!(world.base(&state), "/home/.skills-manager");

    let mut state = session();
    World::new(&[]).start(&mut state, ConfigState::Missing).unwrap();
    assert!(startup_warnings(&state).is_empty());
}

/// A settings file that cannot be written is noted, and the session goes on.
#[test]
fn settings_that_cannot_be_saved_are_noted() {
    let mut state = session();
    let mut world = World::new(&["/old"]);
    world.config = RepoPathConfig {
        repo_path: Some("/new".to_string()),
        pending_migration_from: Some("/old".to_string()),
    };
    world.saves = false;
    world.restart(&mut state);
    assert_eq!(
        take_startup_errors(&mut state),
        vec!["central repo: failed to persist migration state (disk full); it may retry next launch"]
    );
    // The stored source is gone, so the session runs at the target all the same.
    assert_eq!(world.base(&state), "/new");
}

/// What an early version left behind is taken over before anything is created.
#[test]
fn the_legacy_directory_is_taken_over_first() {
    let mut state = session();
    let mut world = World::new(&["/users/me/.agent-skills"]);
    world.legacy = vec!["skills", "cache"];
    world.taken.push("/home/.skills-manager/cache".to_string());
    world.start(&mut state, ConfigState::Missing).unwrap();
    assert_eq!(
        world.log,
        vec![
            "create /home/.skills-manager",
            "take over /users/me/.agent-skills/skills /home/.skills-manager/skills",
            "create /home/.skills-manager/skills",
            "create /home/.skills-manager/scenarios",
            "create /home/.skills-manager/cache",
            "create /home/.skills-manager/logs",
        ]
    );
    // Once there is a skills directory, it is left alone.
    let mut again = World::new(&["/users/me/.agent-skills", "/home/.skills-manager/skills"]);
    set_runtime_skills_dir_override(&mut state, Some(path("/pinned/skills")));
    again.start(&mut state, ConfigState::Missing).unwrap();
    assert_eq!(again.log.len(), 4);
    assert_eq!(again.log[0], "create /pinned/skills");
}

/// A directory that cannot be created ends startup with its reason.
#[test]
fn a_directory_that_cannot_be_created_is_an_error() {
    let mut state = session();
    let dirs = vec![path("/a")];
    let over = advance_startup(
        &mut state,
        &env(),
        Startup::CreateDirs { dirs },
        StartupEvent::DirsCreated(Err("denied".to_string())),
        LOCK_FILE_NAME,
    );
    assert!(matches!(over, Startup::Done(Err(reason)) if reason == "denied"));
    let over = advance_startup(
        &mut state,
        &env(),
        Startup::CreateBase { base: path("/a"), legacy: path("/b") },
        StartupEvent::BaseCreated(Err("full".to_string())),
        LOCK_FILE_NAME,
    );
    assert!(matches!(over, Startup::Done(Err(reason)) if reason == "full"));
}

/// Settings that the take-over brings along decide where the directories are created.
#[test]
fn the_directories_are_located_after_the_take_over() {
    let mut state = session();
    let mut world = World::new(&["/users/me/.agent-skills"]);
    world.legacy = vec!["skills-manager"];
    world.start(&mut state, ConfigState::Missing).unwrap();
    assert_eq!(
        world.log,
        vec![
            "create /home/.skills-manager",
            "take over /users/me/.agent-skills/skills-manager /home/.skills-manager/skills-manager",
            "create /brought/skills",
            "create /brought/scenarios",
            "create /brought/cache",
            "create /brought/logs",
        ]
    );
}

/// Each place is looked at just before its entry is moved: what was taken over first is there by
/// then, and a library may not tell names apart by case.
#[test]
fn an_entry_does_not_replace_one_that_was_just_taken_over() {
    let mut state = session();
    let mut world = World::new(&["/users/me/.agent-skills"]);
    world.legacy = vec!["Notes", "notes", "other"];
    world.start(&mut state, ConfigState::Missing).unwrap();
    assert_eq!(
        world.log[1..3],
        [
            "take over /users/me/.agent-skills/Notes /home/.skills-manager/Notes",
            "take over /users/me/.agent-skills/other /home/.skills-manager/other",
        ]
    );
    assert_eq!(world.log.len(), 7);
}

/// An entry whose name is not Unicode is taken over under that very name.
#[test]
fn an_entry_that_is_not_unicode_is_taken_over() {
    let mut state = session();
    let name = OsText { shown: "\u{fffd}".to_string(), bytes: vec![0xff] };
    let stage = advance_startup(
        &mut state,
        &env(),
        Startup::ListLegacy { base: path("/lib"), legacy: path("/legacy") },
        StartupEvent::LegacyListed(vec![name.clone()]),
        LOCK_FILE_NAME,
    );
    let stage = advance_startup(
        &mut state,
        &env(),
        stage,
        StartupEvent::EntryProbed { taken: false },
        LOCK_FILE_NAME,
    );
    assert!(matches!(&stage, Startup::MoveEntry { entry, place, .. }
        if *entry == path("/legacy").entry(&name) && *place == path("/lib").entry(&name)));
    let stage =
        advance_startup(&mut state, &env(), stage, StartupEvent::EntryMoved, LOCK_FILE_NAME);
    assert!(matches!(stage, Startup::Locate));
}
