use skills_manager::file_manager::{file_manager_command, FileManagerAction};
use skills_manager::paths::Platform;

/// A path with spaces and non-ASCII characters must leave here as one unquoted argument:
/// whoever starts the program escapes it, and quotes put on here would end up in the path.
#[test]
fn opening_a_directory_passes_the_path_as_one_unquoted_argument() {
    for (platform, expected) in [
        (Platform::MacOs, "open"),
        (Platform::Windows, "explorer"),
        (Platform::Other, "xdg-open"),
    ] {
        let (program, args) = file_manager_command(
            "/tmp/My Projects/技能库",
            FileManagerAction::OpenDir,
            platform,
        );

        assert_eq!(args, vec!["/tmp/My Projects/技能库".to_string()]);
        assert_eq!(program, expected);
    }
}

#[test]
fn revealing_targets_the_entry_not_its_contents() {
    let path = "/tmp/My Projects/技能库";

    let (program, args) = file_manager_command(path, FileManagerAction::RevealItem, Platform::MacOs);
    assert_eq!(program, "open");
    // -R must precede the path, or `open` reads it as a file to launch.
    assert_eq!(
        args,
        vec!["-R".to_string(), "/tmp/My Projects/技能库".to_string()]
    );

    let (program, args) =
        file_manager_command(path, FileManagerAction::RevealItem, Platform::Windows);
    assert_eq!(program, "explorer");
    // explorer wants the path inside the single /select argument.
    assert_eq!(args, vec!["/select,/tmp/My Projects/技能库".to_string()]);

    let (program, args) = file_manager_command(path, FileManagerAction::RevealItem, Platform::Other);
    assert_eq!(program, "xdg-open");
    // No selection concept, so the containing directory is opened.
    assert_eq!(args, vec!["/tmp/My Projects".to_string()]);
}

#[test]
fn no_platform_produces_an_empty_argument() {
    // A path with no parent must still yield something runnable.
    for platform in [Platform::MacOs, Platform::Windows, Platform::Other] {
        let (_, args) = file_manager_command("/", FileManagerAction::RevealItem, platform);

        assert!(!args.is_empty());
        assert!(args.iter().all(|arg| !arg.is_empty()), "{args:?}");
    }
}

#[test]
fn a_single_name_is_revealed_in_the_current_directory() {
    for path in ["notes.txt", ".", "..", "./", "技能"] {
        for platform in [Platform::MacOs, Platform::Windows, Platform::Other] {
            let (_, args) = file_manager_command(path, FileManagerAction::RevealItem, platform);

            assert!(!args.is_empty());
            assert!(args.iter().all(|arg| !arg.is_empty()), "{args:?}");
        }
    }
    let (_, args) =
        file_manager_command("notes.txt", FileManagerAction::RevealItem, Platform::Other);
    assert_eq!(args, vec![".".to_string()]);
}

/// The containing directory is the one that the standard library calls the parent, written in
/// the same way, with a dot for the current directory.
#[test]
fn the_containing_directory_is_the_parent_as_it_is_written() {
    for text in [
        "/a/b", "/a//b", "/a/./b", "/a/b/", "/a/b//", "//a", "/./a", "/a/..", "/a/b/.", "a", "a/b",
        "./a", "./a/b", "..", "../a", ".", "./", "/", "//", "", "a/./b", "/a/.b", "/a/...", "/.",
        "a//", "./.", "./..", ".a", "..a", "a/..b/c",
    ] {
        let path = std::path::Path::new(text);
        let expected = match path.parent() {
            Some(parent) if parent.as_os_str().is_empty() => ".".to_string(),
            Some(parent) => parent.display().to_string(),
            None => text.to_string(),
        };
        let (_, args) = file_manager_command(text, FileManagerAction::RevealItem, Platform::Other);
        assert_eq!(args, vec![expected], "{text:?}");
    }
}
