use skills_manager::central_repo::{PathError, CACHE_DIR_NAME, SKILLS_DIR_NAME};
use skills_manager::environment::Environment;
use skills_manager::os_text::OsText;
use skills_manager::paths::Platform;
use skills_manager::places::Place;
use skills_manager::target::{
    inspect_target, is_app_owned_debris, is_os_metadata_name, read_library_skill_count,
    target_has_user_data, wants_listing, EntryFacts, EntryKind, InspectError, Listed, Listing,
    TargetContents, TargetEntry, TargetInspection, TargetItem,
};

const LOCK_FILE_NAME: &str = ".skills-manager.lock";

fn env() -> Environment {
    Environment {
        platform: Platform::Other,
        home: Some(Place::read(&OsText::new("/home/me"), Platform::Other)),
        config_dir: None,
    }
}

fn facts(name: &str, kind: EntryKind) -> EntryFacts {
    EntryFacts {
        name: Some(name.to_string()),
        kind: Ok(kind),
        bridge_owned: name == "skills-manager" || name == ".bridge-stamp",
    }
}

fn entry(name: &str, kind: EntryKind, inside: &[(&str, EntryKind)]) -> TargetEntry {
    TargetEntry {
        facts: facts(name, kind),
        inside: Listing::Items(
            inside.iter().map(|(name, kind)| Listed::Entry(facts(name, *kind))).collect(),
        ),
    }
}

fn file(name: &str) -> TargetEntry {
    entry(name, EntryKind::File, &[])
}

fn dir(name: &str, inside: &[(&str, EntryKind)]) -> TargetEntry {
    entry(name, EntryKind::Dir, inside)
}

fn holding(entries: Vec<TargetEntry>) -> TargetContents {
    TargetContents::Items(entries.into_iter().map(TargetItem::Entry).collect())
}

fn has_user_data(entries: Vec<TargetEntry>) -> bool {
    target_has_user_data(&holding(entries), LOCK_FILE_NAME).unwrap()
}

fn skeleton() -> Vec<TargetEntry> {
    let mut entries = vec![file(LOCK_FILE_NAME)];
    for name in ["skills", "scenarios", "cache", "logs"] {
        entries.push(dir(name, &[]));
    }
    entries
}

#[test]
fn target_has_user_data_ignores_only_app_owned_entries() {
    assert!(!has_user_data(vec![]), "empty dir");

    // The write lock, and the bare skeleton dirs, are debris.
    assert!(
        !has_user_data(skeleton()),
        "the lock file plus bare skeletons is debris"
    );

    // A populated skeleton dir is not.
    let mut populated = skeleton();
    populated[1] = dir(SKILLS_DIR_NAME, &[("mine.md", EntryKind::File)]);
    assert!(has_user_data(populated), "a populated skeleton dir is content");

    // The database and key carry the library's own state, so neither is debris.
    let mut with_database = skeleton();
    with_database.push(file("skills-manager.db"));
    assert!(has_user_data(with_database), "the database is content, not debris");
    let mut with_key = skeleton();
    with_key.push(file(".secret.key"));
    assert!(has_user_data(with_key), "the secret key is content, not debris");

    // A skeleton *name* that is a plain file is not ours.
    assert!(
        has_user_data(vec![file(CACHE_DIR_NAME)]),
        "a file named like a skeleton must not be exempt"
    );
}

#[test]
fn target_holding_only_the_cli_bridge_is_migratable() {
    let bridge = [("skills-manager", EntryKind::File), (".bridge-stamp", EntryKind::File)];
    assert!(
        !has_user_data(vec![dir("bin", &bridge)]),
        "the bridge directory alone is debris"
    );

    let mut foreign = bridge.to_vec();
    foreign.push(("notes.txt", EntryKind::File));
    assert!(
        has_user_data(vec![dir("bin", &foreign)]),
        "a foreign file inside bin must block the move"
    );
    // The bridge's name on something that is no file is not the bridge's.
    assert!(has_user_data(vec![dir("bin", &[("skills-manager", EntryKind::Dir)])]));
    // The operating system's files do not block, its names on directories do.
    assert!(!has_user_data(vec![dir("bin", &[(".DS_Store", EntryKind::File)])]));
    assert!(has_user_data(vec![dir("bin", &[(".DS_Store", EntryKind::Dir)])]));
    assert!(has_user_data(vec![file("bin")]));
}

#[test]
fn target_holding_only_os_metadata_is_migratable() {
    let junk = || vec![file(".DS_Store"), file("desktop.ini"), file("Thumbs.db")];
    assert!(!has_user_data(junk()), "OS metadata alone is not user data");

    // A skeleton holding only OS metadata is still a bare skeleton.
    let mut with_skeleton = junk();
    with_skeleton.push(dir("skills", &[(".DS_Store", EntryKind::File)]));
    assert!(
        !has_user_data(with_skeleton),
        "a skeleton with only OS metadata is still empty"
    );

    // A real file next to it still blocks the move.
    let mut with_content = junk();
    with_content.push(dir(
        "skills",
        &[(".DS_Store", EntryKind::File), ("mine.md", EntryKind::File)],
    ));
    assert!(has_user_data(with_content), "real content must still block the move");
}

#[test]
fn inspect_target_classifies_empty_library_and_foreign_data() {
    let look = |raw: &str, contents: &TargetContents, database: bool, rows: Option<i64>| {
        inspect_target(raw, &env(), contents, LOCK_FILE_NAME, database, rows).unwrap()
    };

    // Absent and debris-only destinations are migratable.
    assert_eq!(
        look("/tmp/fresh/missing", &TargetContents::Absent, false, None),
        TargetInspection::Empty {
            requested_path: "/tmp/fresh/missing".to_string(),
        }
    );
    let debris = holding(vec![file(LOCK_FILE_NAME), dir("skills", &[])]);
    assert_eq!(
        look("/tmp/debris", &debris, false, None),
        TargetInspection::Empty {
            requested_path: "/tmp/debris".to_string(),
        }
    );

    // A real library is recognised as such.
    let library = holding(vec![file("skills-manager.db")]);
    assert_eq!(
        look("/tmp/library", &library, true, Some(2)),
        TargetInspection::ExistingLibrary {
            requested_path: "/tmp/library".to_string(),
            skill_count: 2,
        }
    );

    // Someone else's data is neither migratable nor adoptable here.
    let foreign = holding(vec![file("notes.txt")]);
    assert_eq!(
        look("/tmp/foreign", &foreign, false, None),
        TargetInspection::NotEmpty {
            requested_path: "/tmp/foreign".to_string(),
        }
    );

    // Offering an empty library for adoption would read as data loss.
    assert_eq!(
        look("/tmp/library", &library, true, Some(0)),
        TargetInspection::NotEmpty {
            requested_path: "/tmp/library".to_string(),
        },
        "an empty library must not be offered for adoption"
    );

    // A database that cannot be read is likewise not something to hand over to.
    assert_eq!(
        look("/tmp/library", &library, true, None),
        TargetInspection::NotEmpty {
            requested_path: "/tmp/library".to_string(),
        },
        "an unreadable library must not be offered for adoption"
    );

    // A count has a say only if the database is a plain file.
    assert_eq!(
        look("/tmp/library", &library, false, Some(2)),
        TargetInspection::NotEmpty {
            requested_path: "/tmp/library".to_string(),
        }
    );
    // The path that is reported is the one that was looked at.
    assert_eq!(
        look(" ~/x/../lib ", &TargetContents::Absent, false, None),
        TargetInspection::Empty {
            requested_path: "/home/me/lib".to_string(),
        }
    );
}

#[test]
fn a_destination_that_cannot_be_judged_is_an_error() {
    let look = |raw: &str, contents: &TargetContents| {
        inspect_target(raw, &env(), contents, LOCK_FILE_NAME, true, Some(3))
    };
    assert_eq!(
        look("lib", &TargetContents::Absent),
        Err(InspectError::Path(PathError::NotAbsolute))
    );
    assert_eq!(
        look("/lib", &TargetContents::Unlistable("not a directory".to_string())),
        Err(InspectError::Unreadable("not a directory".to_string()))
    );
    let broken = TargetContents::Items(vec![
        TargetItem::Entry(file(".DS_Store")),
        TargetItem::Failed("i/o error".to_string()),
    ]);
    assert_eq!(look("/lib", &broken), Err(InspectError::Unreadable("i/o error".to_string())));
    // The first thing that decides does so: content in front of an error is content.
    let found_first = TargetContents::Items(vec![
        TargetItem::Entry(file("mine.md")),
        TargetItem::Failed("i/o error".to_string()),
    ]);
    assert_eq!(target_has_user_data(&found_first, LOCK_FILE_NAME), Ok(true));
}

#[test]
fn an_entry_is_judged_by_name_and_kind() {
    let judge = |entry: &TargetEntry| is_app_owned_debris(entry, LOCK_FILE_NAME);
    assert_eq!(judge(&file(LOCK_FILE_NAME)), Ok(true));
    assert_eq!(judge(&dir(LOCK_FILE_NAME, &[])), Ok(false));
    assert_eq!(judge(&entry("skills", EntryKind::Symlink, &[])), Ok(false));
    assert_eq!(judge(&entry("._x", EntryKind::Dir, &[("a", EntryKind::File)])), Ok(true));
    assert_eq!(judge(&entry("other", EntryKind::Other, &[])), Ok(false));

    let undecodable = TargetEntry {
        facts: EntryFacts { name: None, kind: Ok(EntryKind::File), bridge_owned: false },
        inside: Listing::Items(vec![]),
    };
    assert_eq!(judge(&undecodable), Ok(false));
    let unknown_kind = TargetEntry {
        facts: EntryFacts {
            name: Some("skills".to_string()),
            kind: Err("no type".to_string()),
            bridge_owned: false,
        },
        inside: Listing::Items(vec![]),
    };
    assert_eq!(judge(&unknown_kind), Err("no type".to_string()));
    let closed = TargetEntry {
        facts: facts("logs", EntryKind::Dir),
        inside: Listing::Failed("denied".to_string()),
    };
    assert_eq!(judge(&closed), Err("denied".to_string()));
    let half_read = TargetEntry {
        facts: facts("bin", EntryKind::Dir),
        inside: Listing::Items(vec![Listed::Failed("gone".to_string())]),
    };
    assert_eq!(judge(&half_read), Err("gone".to_string()));
}

#[test]
fn only_skeletons_and_the_bridge_are_looked_into() {
    assert!(wants_listing(&facts("skills", EntryKind::Dir), LOCK_FILE_NAME));
    assert!(wants_listing(&facts("bin", EntryKind::Dir), LOCK_FILE_NAME));
    assert!(!wants_listing(&facts("skills", EntryKind::File), LOCK_FILE_NAME));
    assert!(!wants_listing(&facts("mine", EntryKind::Dir), LOCK_FILE_NAME));
    assert!(!wants_listing(&facts("skills", EntryKind::Dir), "skills"));
}

#[test]
fn the_operating_systems_names_are_known() {
    for name in [".DS_Store", "desktop.ini", "Thumbs.db", ".localized", "._", "._x"] {
        assert!(is_os_metadata_name(name), "{name}");
    }
    for name in ["", ".", ".ds_store", "thumbs.db", "skills", "a._b", "_"] {
        assert!(!is_os_metadata_name(name), "{name}");
    }
}

#[test]
fn a_negative_count_is_none_and_no_count_stays_unknown() {
    assert_eq!(read_library_skill_count(Some(-1)), Some(0));
    assert_eq!(read_library_skill_count(Some(0)), Some(0));
    assert_eq!(read_library_skill_count(Some(7)), Some(7));
    assert_eq!(read_library_skill_count(None), None);
}
