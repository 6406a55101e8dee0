use skills_manager::central_repo::{normalize_path, PathError, RepoPathConfig};
use skills_manager::environment::Environment;
use skills_manager::migration::{
    advance_migration, copy_library_entry, copy_library_tree, copy_link, invalid_source_note,
    migrate_repo_if_needed, CopyFailure, CopyStep, MigrationEvent, MigrationOutcome,
    MigrationStage, MigrationTurn, WalkItem,
};
use skills_manager::os_text::OsText;
use skills_manager::paths::{Platform, RepoPath};
use skills_manager::places::Place;
use skills_manager::state::{
    startup_warnings, take_last_migration, take_startup_errors, RepoState,
};
use skills_manager::target::{
    EntryFacts, EntryKind, Listed, Listing, TargetContents, TargetEntry, TargetItem,
};
use std::path::Path;

const LOCK_FILE_NAME: &str = ".skills-manager.lock";

fn path(text: &str) -> RepoPath {
    RepoPath::parse(text, Platform::Other)
}

fn place(text: &str) -> Place {
    Place::read(&OsText::new(text), Platform::Other)
}

fn on_disk(path: &Path) -> RepoPath {
    RepoPath::parse(&path.to_string_lossy(), Platform::Other)
}

fn env() -> Environment {
    Environment { platform: Platform::Other, home: Some(place("/home/me")), config_dir: None }
}

fn config_migrating(source: &Path, target: &Path) -> RepoPathConfig {
    RepoPathConfig {
        repo_path: Some(target.to_string_lossy().to_string()),
        pending_migration_from: Some(source.to_string_lossy().to_string()),
    }
}

fn entry(name: &str, kind: EntryKind, inside: &[&str]) -> TargetItem {
    let facts = |name: &str, kind: EntryKind| EntryFacts {
        name: Some(name.to_string()),
        kind: Ok(kind),
        bridge_owned: false,
    };
    TargetItem::Entry(TargetEntry {
        facts: facts(name, kind),
        inside: Listing::Items(
            inside.iter().map(|name| Listed::Entry(facts(name, EntryKind::File))).collect(),
        ),
    })
}

/// A disk as the move meets it.
struct Disk {
    source_exists: bool,
    canonical: Option<(RepoPath, RepoPath)>,
    contents: TargetContents,
    parent: Result<(), String>,
    renames: bool,
    copies: Result<(), String>,
}

impl Disk {
    fn holding(items: Vec<TargetItem>) -> Disk {
        Disk {
            source_exists: true,
            canonical: None,
            contents: TargetContents::Items(items),
            parent: Ok(()),
            renames: true,
            copies: Ok(()),
        }
    }
}

/// Run a move to its end, and say which stages it went through.
fn migrate(
    state: &mut RepoState,
    config: &mut RepoPathConfig,
    target: &RepoPath,
    disk: Disk,
) -> (MigrationOutcome, Vec<MigrationStage>) {
    let target = Place::plain(target.clone(), Platform::Other);
    migrate_to(state, config, &target, disk)
}

/// Run a move to a target that is spelled in some way.
fn migrate_to(
    state: &mut RepoState,
    config: &mut RepoPathConfig,
    target: &Place,
    disk: Disk,
) -> (MigrationOutcome, Vec<MigrationStage>) {
    let mut stages = Vec::new();
    let mut contents = Some(disk.contents);
    let mut turn = migrate_repo_if_needed(state, &env(), config, target);
    loop {
        match turn {
            MigrationTurn::Finished(outcome) => return (outcome, stages),
            MigrationTurn::Continue(migration) => {
                stages.push(migration.stage);
                let event = match migration.stage {
                    MigrationStage::Compare => MigrationEvent::Compared {
                        source_exists: disk.source_exists,
                        canonical_source: disk.canonical.as_ref().map(|pair| pair.0.clone()),
                        canonical_target: disk.canonical.as_ref().map(|pair| pair.1.clone()),
                    },
                    MigrationStage::Inspect => MigrationEvent::Inspected(contents.take().unwrap()),
                    MigrationStage::CreateParent => {
                        MigrationEvent::ParentCreated(disk.parent.clone())
                    }
                    MigrationStage::Rename => MigrationEvent::Renamed(disk.renames),
                    MigrationStage::Copy => MigrationEvent::Copied(disk.copies.clone()),
                };
                turn = advance_migration(state, &env(), config, migration, event, LOCK_FILE_NAME);
            }
        }
    }
}

fn paths() -> (&'static Path, &'static Path) {
    (Path::new("/data/src"), Path::new("/data/dst"))
}

#[test]
fn migration_into_empty_target_moves_and_clears_marker() {
    let (src, dst) = paths();
    let mut state = RepoState::new();
    let mut config = config_migrating(src, dst);
    let (outcome, stages) =
        migrate(&mut state, &mut config, &on_disk(dst), Disk::holding(vec![]));

    assert!(matches!(outcome, MigrationOutcome::Proceed));
    assert_eq!(config.pending_migration_from, None);
    assert_eq!(stages.last(), Some(&MigrationStage::Rename));
    assert_eq!(take_last_migration(&mut state), Some((on_disk(src), on_disk(dst))));
    assert!(startup_warnings(&state).is_empty());
    assert!(take_startup_errors(&mut state).is_empty());
}

#[test]
fn migration_into_nonempty_target_keeps_source_and_marker() {
    // Never blind-merge over a non-empty target: fall back to the intact source and keep
    // retrying.
    let (src, dst) = paths();
    let mut state = RepoState::new();
    let mut config = config_migrating(src, dst);
    let (outcome, stages) = migrate(
        &mut state,
        &mut config,
        &on_disk(dst),
        Disk::holding(vec![entry("existing.txt", EntryKind::File, &[])]),
    );

    match outcome {
        MigrationOutcome::UseSource(p) => {
            assert_eq!(p, normalize_path(&src.to_string_lossy(), &env()).unwrap());
        }
        _ => panic!("expected UseSource for a non-empty target"),
    }
    assert!(config.pending_migration_from.is_some(), "marker kept for retry");
    assert_eq!(stages, vec![MigrationStage::Compare, MigrationStage::Inspect]);
    assert_eq!(take_last_migration(&mut state), None);
    assert_eq!(startup_warnings(&state), vec!["migration_incomplete"]);
    assert_eq!(
        take_startup_errors(&mut state),
        vec!["central repo: migration target /data/dst is not empty; keeping data at source /data/src"]
    );
}

/// A lock file that a stray operation wrote into the target must not block the move for ever.
#[test]
fn migration_into_target_holding_only_the_lock_file_moves() {
    let (src, dst) = paths();
    let mut config = config_migrating(src, dst);
    let (outcome, stages) = migrate(
        &mut RepoState::new(),
        &mut config,
        &on_disk(dst),
        Disk::holding(vec![entry(LOCK_FILE_NAME, EntryKind::File, &[])]),
    );

    assert!(matches!(outcome, MigrationOutcome::Proceed), "got {outcome:?}");
    assert_eq!(config.pending_migration_from, None, "migration completed");
    assert_eq!(stages.last(), Some(&MigrationStage::Rename));
}

#[test]
fn migration_into_target_holding_only_empty_skeletons_moves() {
    let (src, dst) = paths();
    let mut config = config_migrating(src, dst);
    let mut items = Vec::new();
    for dir in ["skills", "scenarios", "cache", "logs"] {
        items.push(entry(dir, EntryKind::Dir, &[]));
    }
    let (outcome, stages) =
        migrate(&mut RepoState::new(), &mut config, &on_disk(dst), Disk::holding(items));

    assert!(matches!(outcome, MigrationOutcome::Proceed), "got {outcome:?}");
    assert_eq!(stages.last(), Some(&MigrationStage::Rename));
}

/// A skeleton dir that has anything in it is user data, not debris.
#[test]
fn migration_into_target_with_data_inside_a_skeleton_dir_is_refused() {
    let (src, dst) = paths();
    let mut config = config_migrating(src, dst);
    let (outcome, stages) = migrate(
        &mut RepoState::new(),
        &mut config,
        &on_disk(dst),
        Disk::holding(vec![entry("skills", EntryKind::Dir, &["precious.md"])]),
    );

    assert!(matches!(outcome, MigrationOutcome::UseSource(_)), "got {outcome:?}");
    assert!(
        !stages.contains(&MigrationStage::Rename) && !stages.contains(&MigrationStage::Copy),
        "the refused target must be left untouched"
    );
}

#[test]
fn migration_into_a_target_holding_only_os_metadata_moves() {
    let (src, dst) = paths();
    let mut config = config_migrating(src, dst);
    let (outcome, stages) = migrate(
        &mut RepoState::new(),
        &mut config,
        &on_disk(dst),
        Disk::holding(vec![entry(".DS_Store", EntryKind::File, &[])]),
    );

    assert!(matches!(outcome, MigrationOutcome::Proceed), "got {outcome:?}");
    assert_eq!(stages.last(), Some(&MigrationStage::Rename));
}

#[test]
fn migration_same_dir_via_symlink_clears_marker() {
    // A cosmetic path difference that resolves to the same directory must not be mistaken for
    // a real relocation.
    let real = Path::new("/data/real");
    let link = Path::new("/links/aliased");
    let mut config = config_migrating(real, link);
    let mut disk = Disk::holding(vec![entry("skills", EntryKind::Dir, &[])]);
    disk.canonical = Some((on_disk(real), on_disk(real)));
    let (outcome, stages) = migrate(&mut RepoState::new(), &mut config, &on_disk(link), disk);

    assert!(matches!(outcome, MigrationOutcome::Proceed));
    assert_eq!(config.pending_migration_from, None, "same-dir move clears marker");
    // The real library is untouched.
    assert_eq!(stages, vec![MigrationStage::Compare]);
}

#[test]
fn migration_with_missing_source_clears_marker() {
    let dst = tempfile::tempdir().unwrap();
    let missing = dst.path().join("does-not-exist");
    let mut config = config_migrating(&missing, dst.path());

    let mut disk = Disk::holding(vec![]);
    disk.source_exists = missing.exists();
    let (outcome, _) = migrate(&mut RepoState::new(), &mut config, &on_disk(dst.path()), disk);
    assert!(matches!(outcome, MigrationOutcome::Proceed));
    assert_eq!(config.pending_migration_from, None);
}

#[test]
fn no_pending_migration_is_a_noop() {
    let dst = tempfile::tempdir().unwrap();
    let mut config = RepoPathConfig {
        repo_path: Some(dst.path().to_string_lossy().to_string()),
        pending_migration_from: None,
    };
    let (outcome, stages) = migrate(
        &mut RepoState::new(),
        &mut config,
        &on_disk(dst.path()),
        Disk::holding(vec![]),
    );
    assert!(matches!(outcome, MigrationOutcome::Proceed));
    assert_eq!(config.pending_migration_from, None);
    assert!(stages.is_empty());
}

/// Where a rename is refused the tree is copied, and the move completes all the same.
#[test]
fn migration_of_a_library_containing_a_symlink_completes() {
    let (src, dst) = paths();
    let mut state = RepoState::new();
    let mut config = config_migrating(src, dst);
    // Debris only, so the target stays migratable while still existing.
    let mut disk = Disk::holding(vec![entry(LOCK_FILE_NAME, EntryKind::File, &[])]);
    disk.renames = false;
    let (outcome, stages) = migrate(&mut state, &mut config, &on_disk(dst), disk);

    assert!(matches!(outcome, MigrationOutcome::Proceed), "got {outcome:?}");
    assert_eq!(stages.last(), Some(&MigrationStage::Copy));
    assert_eq!(take_last_migration(&mut state), Some((on_disk(src), on_disk(dst))));

    let walk = vec![
        walked("/data/src", EntryKind::Dir),
        walked("/data/src/skills/real/SKILL.md", EntryKind::File),
        walked("/data/src/skills/linked", EntryKind::Symlink),
    ];
    let plan = copy_library_tree(&env(), &walk, &on_disk(src), &on_disk(dst), LOCK_FILE_NAME);
    assert!(plan.failure.is_none());
    assert!(matches!(&plan.steps[1], CopyStep::File { destination, .. }
        if *destination == path("/data/dst/skills/real/SKILL.md")));
    assert!(matches!(&plan.steps[2], CopyStep::Link { destination }
        if *destination == path("/data/dst/skills/linked")));
}

/// Every way in which a move fails is noted in its own words.
#[test]
fn every_failure_is_noted_and_keeps_the_marker() {
    let fail = |source: &str, target: &str, disk: Disk| {
        let mut state = RepoState::new();
        let mut config = config_migrating(Path::new(source), Path::new(target));
        let (outcome, _) = migrate(&mut state, &mut config, &path(target), disk);
        assert_eq!(outcome, MigrationOutcome::UseSource(path(source)));
        assert_eq!(config.pending_migration_from.as_deref(), Some(source));
        assert_eq!(startup_warnings(&state), vec!["migration_incomplete"]);
        assert_eq!(take_last_migration(&mut state), None);
        let errors = take_startup_errors(&mut state);
        assert_eq!(errors.len(), 1);
        errors[0].clone()
    };

    assert_eq!(
        fail("/src", "/src/inner", Disk::holding(vec![])),
        "central repo: migration target /src/inner is inside source /src; keeping data at the source"
    );
    let mut disk = Disk::holding(vec![]);
    disk.contents = TargetContents::Unlistable("permission denied".to_string());
    assert_eq!(
        fail("/src", "/dst", disk),
        "central repo: cannot inspect migration target /dst (permission denied); keeping data at source /src"
    );
    let mut disk = Disk::holding(vec![]);
    disk.parent = Err("read-only".to_string());
    assert_eq!(
        fail("/src", "/up/dst", disk),
        "central repo: cannot create migration target parent /up (read-only); keeping data at source /src"
    );
    let mut disk = Disk::holding(vec![]);
    disk.renames = false;
    disk.copies = Err("disk full".to_string());
    assert_eq!(
        fail("/src", "/dst", disk),
        "central repo: migration copy from /src to /dst failed (disk full); keeping data at source"
    );
}

/// A stored source that cannot be used never will be, so it is dropped.
#[test]
fn an_unusable_source_is_dropped_with_a_note() {
    let mut state = RepoState::new();
    let mut config = RepoPathConfig {
        repo_path: None,
        pending_migration_from: Some("old \"lib\"\n".to_string()),
    };
    let (outcome, stages) =
        migrate(&mut state, &mut config, &path("/dst"), Disk::holding(vec![]));
    assert_eq!(outcome, MigrationOutcome::Proceed);
    assert!(stages.is_empty());
    assert_eq!(config.pending_migration_from, None);
    assert!(startup_warnings(&state).is_empty());
    assert_eq!(
        take_startup_errors(&mut state),
        vec!["central repo: pending migration source \"old \\\"lib\\\"\\n\" is invalid (Central repository path must be absolute); dropping it"]
    );
    assert_eq!(
        invalid_source_note("\"x\"", PathError::Empty),
        "central repo: pending migration source \"x\" is invalid (Path cannot be empty); dropping it"
    );
}

/// A target without a parent has none to create.
#[test]
fn a_root_has_no_parent_to_create() {
    let mut config = config_migrating(Path::new("/src"), Path::new("/"));
    let (_, stages) = migrate(
        &mut RepoState::new(),
        &mut config,
        &path("/"),
        Disk::holding(vec![]),
    );
    assert!(!stages.contains(&MigrationStage::CreateParent));
    assert_eq!(stages.last(), Some(&MigrationStage::Rename));
}

fn walked(text: &str, kind: EntryKind) -> WalkItem {
    WalkItem::Entry { path: path(text), kind }
}

/// The lock names the operation of a running process, so it must not be carried along.
#[test]
fn copy_library_tree_leaves_the_lock_file_behind() {
    let walk = vec![
        walked("/src", EntryKind::Dir),
        walked("/src/keep.md", EntryKind::File),
        walked("/src/.skills-manager.lock", EntryKind::File),
        walked("/src/skills/.skills-manager.lock", EntryKind::File),
    ];
    let plan = copy_library_tree(&env(), &walk, &path("/src"), &path("/dst/out"), LOCK_FILE_NAME);
    assert_eq!(plan.failure, None);
    assert_eq!(plan.steps.len(), 4);
    assert!(matches!(&plan.steps[0], CopyStep::Directory { destination } if *destination == path("/dst/out")));
    assert!(matches!(&plan.steps[1], CopyStep::File { destination, parent }
        if *destination == path("/dst/out/keep.md") && *parent == Some(path("/dst/out"))));
    assert!(
        matches!(&plan.steps[2], CopyStep::Skip),
        "the lock file must not be copied"
    );
    // Only the lock of the library itself is left behind.
    assert!(matches!(&plan.steps[3], CopyStep::File { .. }));
}

/// Links must be recreated, not followed, and an absolute one into the library goes along.
#[test]
fn copy_library_tree_preserves_symlinks() {
    let (src, out) = (path("/src"), path("/dst/out"));
    let walk = vec![
        walked("/src/skills/link-in", EntryKind::Symlink),
        walked("/src/link-out.md", EntryKind::Symlink),
        walked("/src/link-in-file.md", EntryKind::Symlink),
    ];
    let plan = copy_library_tree(&env(), &walk, &src, &out, LOCK_FILE_NAME);
    let places: Vec<String> = plan
        .steps
        .iter()
        .map(|step| match step {
            CopyStep::Link { destination } => destination.to_text(Platform::Other),
            _ => panic!("an in-library link must stay a link"),
        })
        .collect();
    assert_eq!(
        places,
        vec!["/dst/out/skills/link-in", "/dst/out/link-out.md", "/dst/out/link-in-file.md"]
    );

    let rebased = |target: &str| copy_link(&env(), &path(target), &src, &out).to_text(Platform::Other);
    assert_eq!(rebased("/src/skills/real"), "/dst/out/skills/real");
    assert_eq!(rebased("/src/skills/real/SKILL.md"), "/dst/out/skills/real/SKILL.md");
    assert_eq!(
        rebased("/outside/ext.md"),
        "/outside/ext.md",
        "an external link keeps pointing where it did"
    );
    assert_eq!(rebased("../skills/real"), "../skills/real");
    assert_eq!(rebased("/srcs/x"), "/srcs/x");
}

#[test]
fn copy_library_tree_copies_read_only_source_files() {
    // Whether a file may be written to has no say in whether it is copied.
    let walk = vec![walked("/src", EntryKind::Dir), walked("/src/pack.idx", EntryKind::File)];
    let plan =
        copy_library_tree(&env(), &walk, &path("/src"), &path("/dst/out"), LOCK_FILE_NAME);
    assert_eq!(plan.failure, None);
    assert_eq!(plan.steps.len(), 2);
    assert!(matches!(&plan.steps[1], CopyStep::File { destination, .. }
        if *destination == path("/dst/out/pack.idx")));
}

#[test]
fn a_plan_stops_at_the_first_thing_that_goes_wrong() {
    let walk = vec![
        walked("/src/a", EntryKind::Other),
        WalkItem::Failed("loop found".to_string()),
        walked("/src/b", EntryKind::File),
    ];
    let plan = copy_library_tree(&env(), &walk, &path("/src"), &path("/dst"), LOCK_FILE_NAME);
    assert_eq!(plan.steps.len(), 1);
    assert_eq!(plan.failure, Some(CopyFailure::Walk("loop found".to_string())));

    let walk = vec![walked("/elsewhere", EntryKind::File)];
    let plan = copy_library_tree(&env(), &walk, &path("/src"), &path("/dst"), LOCK_FILE_NAME);
    assert!(plan.steps.is_empty());
    assert_eq!(plan.failure, Some(CopyFailure::OutsideSource));
}

/// The notes show the target as it is spelled.
#[test]
fn a_note_keeps_the_spelling_of_the_target() {
    let note = |disk: Disk| {
        let mut state = RepoState::new();
        let mut config = config_migrating(Path::new("/src"), Path::new("/dst"));
        migrate_to(&mut state, &mut config, &place("/up//./dst/"), disk);
        take_startup_errors(&mut state)[0].clone()
    };
    assert_eq!(
        note(Disk::holding(vec![entry("mine.txt", EntryKind::File, &[])])),
        "central repo: migration target /up//./dst/ is not empty; keeping data at source /src"
    );
    let mut disk = Disk::holding(vec![]);
    disk.parent = Err("read-only".to_string());
    assert_eq!(
        note(disk),
        "central repo: cannot create migration target parent /up (read-only); keeping data at source /src"
    );
}

/// An entry whose name is not Unicode lands under that very name.
#[test]
fn names_that_are_not_unicode_are_copied_as_they_are() {
    let odd = |dir: &str| {
        path(dir).entry(&OsText { shown: "\u{fffd}".to_string(), bytes: vec![0xff] })
    };
    let walk = vec![WalkItem::Entry { path: odd("/src/skills"), kind: EntryKind::File }];
    let plan = copy_library_tree(&env(), &walk, &path("/src"), &path("/dst"), LOCK_FILE_NAME);
    assert!(matches!(&plan.steps[0], CopyStep::File { destination, .. }
        if *destination == odd("/dst/skills")));
    let target = copy_link(&env(), &odd("/src"), &path("/src"), &path("/dst"));
    assert_eq!(target, odd("/dst"));
}

/// An entry outside the source has no place in the copy.
#[test]
fn an_entry_outside_the_source_is_not_copied() {
    let step = |text: &str| {
        copy_library_entry(
            &env(),
            &path(text),
            EntryKind::File,
            &path("/src"),
            &path("/dst"),
            LOCK_FILE_NAME,
        )
    };
    assert!(step("/srcs/a").is_none());
    assert!(matches!(step("/src/a"), Some(CopyStep::File { destination, .. })
        if destination == path("/dst/a")));
}
