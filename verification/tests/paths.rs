use skills_manager::central_repo::{normalize_path, PathError};
use skills_manager::environment::{environment_of, read_environment, Environment};
use skills_manager::os_text::OsText;
use skills_manager::paths::{lexically_normalize, PathComponent, Platform, RepoPath};
use skills_manager::places::Place;
use skills_manager::text::{chars_of, is_white_space, text_begins_with, text_between, trim};
use std::path::{Component, Path, PathBuf};

fn unix(text: &str) -> RepoPath {
    RepoPath::parse(text, Platform::Other)
}

fn windows(text: &str) -> RepoPath {
    RepoPath::parse(text, Platform::Windows)
}

fn env_with_home(platform: Platform, home: Option<&str>) -> Environment {
    Environment {
        platform,
        home: home.map(|text| Place::read(&OsText::new(text), platform)),
        config_dir: None,
    }
}

fn normalized(raw: &str) -> Result<String, PathError> {
    let env = env_with_home(Platform::Other, Some("/home/me"));
    normalize_path(raw, &env).map(|path| path.to_text(Platform::Other))
}

#[test]
fn lexically_normalize_handles_basic_cases() {
    assert_eq!(lexically_normalize(&unix("/a/./b/../c")), unix("/a/c"));
    assert_eq!(lexically_normalize(&unix("./a/b")), unix("a/b"));
    assert_eq!(lexically_normalize(&unix("/..")), unix("/"));
}

#[test]
fn lexical_normalization_keeps_what_it_cannot_resolve() {
    assert_eq!(lexically_normalize(&unix("../../a/../b")), unix("../../b"));
    assert_eq!(lexically_normalize(&unix("a/../..")), unix(".."));
    assert_eq!(lexically_normalize(&unix("/a/../../..")), unix("/"));
    assert_eq!(
        lexically_normalize(&windows(r"C:\..\a")).to_text(Platform::Windows),
        r"C:\a"
    );
    // A second time changes nothing.
    let once = lexically_normalize(&unix("a/./../../b/c/.."));
    assert_eq!(lexically_normalize(&once), once);
    assert_eq!(once, unix("../b"));
}

/// On this platform the components are those of the standard library.
#[test]
fn components_agree_with_the_standard_library() {
    for text in [
        "", "/", "//", "///a", "a", "a/b", "/a/b/", "a//b", "./a", ".", "./", "./.", "a/.", "a/./b",
        "..", "../..", "/..", "/.", "a/../b", ".a", "..a", "...", "a/...", "/a/ b /c", "技能/库", "a\\b",
        "C:\\x", "~", "~/a",
    ] {
        let path = unix(text);
        let expected: Vec<PathComponent> = Path::new(text)
            .components()
            .map(|component| match component {
                Component::Prefix(_) => unreachable!(),
                Component::RootDir => PathComponent::RootDir,
                Component::CurDir => PathComponent::CurDir,
                Component::ParentDir => PathComponent::ParentDir,
                Component::Normal(name) => {
                    PathComponent::Normal(name.to_string_lossy().to_string())
                }
            })
            .collect();
        assert_eq!(path.components, expected, "{text:?}");
        // Written out again, the path is the one that the components make up.
        let collected: PathBuf = Path::new(text).components().collect();
        assert_eq!(path.to_text(Platform::Other), collected.to_string_lossy(), "{text:?}");
        assert_eq!(path.is_absolute(Platform::Other), Path::new(text).is_absolute());
        assert_eq!(
            path.parent().map(|p| p.to_text(Platform::Other)),
            collected.parent().map(|p| p.to_string_lossy().to_string()),
            "{text:?}"
        );
        assert_eq!(
            path.file_name().map(|name| name.to_string()),
            collected.file_name().map(|name| name.to_string_lossy().to_string()),
            "{text:?}"
        );
    }
}

#[test]
fn joining_agrees_with_the_standard_library() {
    for base in ["", "/", "/a", "a", "a/b", ".", "/a/.."] {
        for tail in ["", "b", "/b", "./b", "../b", ".", "b/c/", "/"] {
            let joined = unix(base).join(&unix(tail), Platform::Other);
            let expected: PathBuf = Path::new(base).join(tail).components().collect();
            assert_eq!(
                joined.to_text(Platform::Other),
                expected.to_string_lossy(),
                "{base:?} and {tail:?}"
            );
        }
    }
}

#[test]
fn prefixes_are_stripped_by_whole_components() {
    let stripped = |path: &str, base: &str| {
        unix(path).strip_prefix(&unix(base)).map(|rest| rest.to_text(Platform::Other))
    };
    assert_eq!(stripped("/a/b/c", "/a"), Some("b/c".to_string()));
    assert_eq!(stripped("/a/b", "/a/b/"), Some("".to_string()));
    assert_eq!(stripped("/ab", "/a"), None);
    assert_eq!(stripped("a/b", "/a"), None);
    assert!(unix("/a/b").starts_with(&unix("/a")));
    assert!(!unix("/a").starts_with(&unix("/a/b")));
}

#[test]
fn windows_prefixes_are_told_apart() {
    let prefix = |text: &str| match windows(text).components.into_iter().next() {
        Some(PathComponent::Prefix(name)) => Some(name),
        _ => None,
    };
    assert_eq!(prefix(r"C:\a"), Some("C:".to_string()));
    assert_eq!(prefix("c:a"), Some("c:".to_string()));
    assert_eq!(prefix(r"\\server\share\a"), Some(r"\\server\share".to_string()));
    assert_eq!(prefix("//server/share/a"), Some("//server/share".to_string()));
    assert_eq!(prefix(r"\\.\COM42\a"), Some(r"\\.\COM42".to_string()));
    assert_eq!(prefix(r"\\?\C:\a"), Some(r"\\?\C:".to_string()));
    assert_eq!(prefix(r"\\?\UNC\server\share\a"), Some(r"\\?\UNC\server\share".to_string()));
    assert_eq!(prefix(r"\\?\name\a"), Some(r"\\?\name".to_string()));
    assert_eq!(prefix(r"\\server"), None);
    assert_eq!(prefix(r"\a"), None);
    assert_eq!(prefix("1:"), None);

    assert!(windows(r"C:\a").is_absolute(Platform::Windows));
    assert!(!windows("C:a").is_absolute(Platform::Windows));
    assert!(!windows(r"\a").is_absolute(Platform::Windows));
    assert!(windows(r"\\server\share").is_absolute(Platform::Windows));
    assert_eq!(windows("C:/a//b/./c").to_text(Platform::Windows), r"C:\a\b\c");
    // Behind a verbatim prefix a slash is part of a name, and a dot is a component.
    assert_eq!(
        windows(r"\\?\C:\a/b\.").components,
        vec![
            PathComponent::Prefix(r"\\?\C:".to_string()),
            PathComponent::RootDir,
            PathComponent::Normal("a/b".to_string()),
            PathComponent::CurDir,
        ]
    );
}

/// The letter of a drive means the same in either case; names do not.
#[test]
fn windows_drives_compare_in_either_case() {
    assert!(windows(r"c:\Skills").same_as(&windows(r"C:\Skills")));
    assert!(!windows(r"c:\skills").same_as(&windows(r"C:\Skills")));
    assert!(!windows(r"C:\Skills").same_as(&windows(r"D:\Skills")));
    assert!(windows("//server/share/a").same_as(&windows(r"\\server\share\a")));
    assert!(windows(r"\\?\c:\a").same_as(&windows(r"\\?\C:\a")));
    assert!(!windows(r"\\?\C:\a").same_as(&windows(r"C:\a")));
    assert!(windows(r"c:\a\b").starts_with(&windows(r"C:\a")));
}

#[test]
fn windows_paths_join_by_prefix_and_root() {
    let joined = |base: &str, tail: &str| {
        windows(base).join(&windows(tail), Platform::Windows).to_text(Platform::Windows)
    };
    assert_eq!(joined(r"C:\a", r"b\c"), r"C:\a\b\c");
    assert_eq!(joined(r"C:\a", r"\b"), r"C:\b");
    assert_eq!(joined(r"C:\a", r"D:\b"), r"D:\b");
    assert_eq!(joined(r"C:\a", r".\b"), r"C:\a\b");
    assert_eq!(joined(r"\\?\C:\a", r"..\b\.\c"), r"\\?\C:\b\c");
    assert_eq!(joined(r"\\?\C:\a", r"\b"), r"\\?\C:\b");
    // Behind a prefix that is no plain drive a name takes a separator.
    assert_eq!(joined(r"\\?\D:", "skills"), r"\\?\D:\skills");
    assert_eq!(joined(r"\\?\D:", ".."), r"\\?\D:");
    assert_eq!(joined("D:", "skills"), "D:skills");
    assert_eq!(joined(r"\\server\share", "skills"), r"\\server\share\skills");
    assert_eq!(
        windows(r"\\?\D:").child("skills"),
        windows(r"\\?\D:\skills")
    );
    assert_eq!(windows("D:").child("skills"), windows("D:skills"));
}

#[test]
fn a_written_path_is_trimmed_expanded_and_collapsed() {
    assert_eq!(normalized("  /tmp/lib\t"), Ok("/tmp/lib".to_string()));
    assert_eq!(normalized("~"), Ok("/home/me".to_string()));
    assert_eq!(normalized("~/lib"), Ok("/home/me/lib".to_string()));
    // A backslash behind the tilde counts as well; the rest is read as on this platform.
    assert_eq!(normalized("~\\lib"), Ok("/home/me/lib".to_string()));
    assert_eq!(normalized("~//lib"), Ok("/lib".to_string()));
    assert_eq!(normalized("/a/./b/../c//d/"), Ok("/a/c/d".to_string()));
    assert_eq!(normalized("/../.."), Ok("/".to_string()));
    assert_eq!(normalized("~/.."), Ok("/home".to_string()));
}

#[test]
fn an_unusable_path_is_refused_with_its_reason() {
    assert_eq!(normalized(""), Err(PathError::Empty));
    assert_eq!(normalized(" \n\u{3000}"), Err(PathError::Empty));
    assert_eq!(normalized("lib"), Err(PathError::NotAbsolute));
    assert_eq!(normalized("./lib"), Err(PathError::NotAbsolute));
    assert_eq!(normalized("~lib"), Err(PathError::NotAbsolute));
    let homeless = env_with_home(Platform::Other, None);
    assert_eq!(normalize_path("~", &homeless), Err(PathError::NoHome));
    assert_eq!(normalize_path("~/lib", &homeless), Err(PathError::NoHome));
    assert!(normalize_path("/lib", &homeless).is_ok());
    // A drive behind the tilde stands for a place of its own.
    let on_windows = env_with_home(Platform::Windows, Some(r"C:\Users\me"));
    assert_eq!(normalize_path(r"~\D:x", &on_windows), Err(PathError::NotAbsolute));
    assert_eq!(normalize_path(r"\lib", &on_windows), Err(PathError::NotAbsolute));
    assert!(normalize_path(r"~\\lib", &on_windows).is_ok());

    assert_eq!(PathError::Empty.message(), "Path cannot be empty");
    assert_eq!(PathError::NoHome.message(), "Cannot determine home directory");
    assert_eq!(
        PathError::NotAbsolute.message(),
        "Central repository path must be absolute"
    );
}

/// What is stored can be read again, unless the last name ends in white space.
#[test]
fn normalized_paths_read_back() {
    for raw in ["/", "/a", "~/My Skills/技能", "/a b/c/../d", "/a/ b"] {
        let once = normalized(raw).unwrap();
        assert_eq!(normalized(&once), Ok(once.clone()), "{raw:?}");
    }
    let odd = normalized("/a/b /").unwrap();
    assert_eq!(odd, "/a/b ");
    assert_eq!(normalized(&odd), Ok("/a/b".to_string()));

    let env = env_with_home(Platform::Windows, Some(r"C:\Users\me"));
    for (raw, expected) in [
        (r"~\lib", r"C:\Users\me\lib"),
        (r"d:/x/../y", r"d:\y"),
        (r"\\server\share\.\a", r"\\server\share\a"),
        (r"\\?\C:\a", r"\\?\C:\a"),
    ] {
        let once = normalize_path(raw, &env).unwrap().to_text(Platform::Windows);
        assert_eq!(once, expected);
        let twice = normalize_path(&once, &env).unwrap().to_text(Platform::Windows);
        assert_eq!(twice, expected);
    }
}

#[test]
fn white_space_is_that_of_the_standard_library() {
    for c in '\0'..=char::MAX {
        assert_eq!(is_white_space(c), c.is_whitespace(), "{c:?}");
    }
    for text in ["", " ", " a ", "\u{a0}a b\u{2003}", "a"] {
        assert_eq!(trim(text), text.trim());
    }
}

#[test]
fn text_is_taken_apart_and_put_together() {
    let chars = chars_of("技能 lib");
    assert_eq!(chars, vec!['技', '能', ' ', 'l', 'i', 'b']);
    assert_eq!(text_between(&chars, 1, 4), "能 l");
    assert!(text_begins_with("._resource", "._"));
    assert!(!text_begins_with(".", "._"));
}

#[test]
fn the_environment_is_read_from_its_texts() {
    let env = environment_of(Platform::Windows, Some(OsText::new(r"C:\Users\me")), None);
    assert_eq!(env.platform, Platform::Windows);
    assert_eq!(env.home, Some(Place::plain(windows(r"C:\Users\me"), Platform::Windows)));
    assert_eq!(env.config_dir, None);
}

/// The directories of the user are those that the operating system names.
#[test]
fn the_environment_is_read_from_the_operating_system() {
    let env = read_environment(Platform::Other);
    let read = |path: Option<PathBuf>| {
        path.map(|p| {
            let clean = p.components().collect::<PathBuf>().to_string_lossy().to_string();
            (clean, p.to_string_lossy().to_string())
        })
    };
    let found = |place: Option<Place>| place.map(|p| (p.path.to_text(Platform::Other), p.text));
    assert_eq!(env.platform, Platform::Other);
    assert_eq!(found(env.home), read(dirs::home_dir()));
    assert_eq!(found(env.config_dir), read(dirs::config_dir()));
}

fn not_unicode(shown: &str, bytes: &[u8]) -> OsText {
    OsText { shown: shown.to_string(), bytes: bytes.to_vec() }
}

/// A name that is not Unicode is told apart by its bytes, shown with replacement characters, and
/// is otherwise a name like any other.
#[test]
fn names_that_are_not_unicode_are_kept() {
    let home = not_unicode("/h/\u{fffd}/./b/../c/", b"/h/\xff/./b/../c/");
    let path = RepoPath::read(&home, Platform::Other);
    assert_eq!(path.components.len(), 6);
    assert_eq!(
        path.components[2],
        PathComponent::Foreign { shown: "\u{fffd}".to_string(), bytes: vec![0xff] }
    );
    assert_eq!(path.components[3], PathComponent::Normal("b".to_string()));
    assert_eq!(path.to_text(Platform::Other), "/h/\u{fffd}/b/../c");
    // Two names that are shown alike are not the same.
    let other = RepoPath::read(&not_unicode("/h/\u{fffd}", b"/h/\xfe"), Platform::Other);
    let head = RepoPath::read(&not_unicode("/h/\u{fffd}", b"/h/\xff"), Platform::Other);
    assert!(path.starts_with(&head));
    assert!(!path.starts_with(&other));
    assert!(!head.same_as(&unix("/h/\u{fffd}")));
    assert_eq!(head.parent(), Some(unix("/h")));
    assert_eq!(head.join(&unix("../x"), Platform::Other).collapsed(), unix("/h/x"));
    assert_eq!(lexically_normalize(&head.join(&unix(".."), Platform::Other)), unix("/h"));
    // A replacement character that stands in the text itself is Unicode.
    assert_eq!(
        RepoPath::read(&OsText::new("/h/\u{fffd}"), Platform::Other),
        unix("/h/\u{fffd}")
    );
    // Relative paths and those of Windows are read in the same way.
    let dot = RepoPath::read(&not_unicode("./\u{fffd}x", b"./\xffx"), Platform::Other);
    assert_eq!(dot.components[0], PathComponent::CurDir);
    assert!(matches!(&dot.components[1], PathComponent::Foreign { bytes, .. } if bytes == b"\xffx"));
    let users = not_unicode("C:\\Users\\\u{fffd}\\me", b"C:\\Users\\\xed\xa0\x80\\me");
    let users = RepoPath::read(&users, Platform::Windows);
    assert_eq!(users.components[2], PathComponent::Normal("Users".to_string()));
    assert!(
        matches!(&users.components[3], PathComponent::Foreign { bytes, .. } if bytes == b"\xed\xa0\x80")
    );
    assert_eq!(users.components[4], PathComponent::Normal("me".to_string()));
    // A drive without a root, and a verbatim path with a dot that is a component.
    let drive = RepoPath::read(&not_unicode("C:\u{fffd}", b"C:\xed\xa0\x80"), Platform::Windows);
    assert_eq!(drive.components[0], PathComponent::Prefix("C:".to_string()));
    assert!(
        matches!(&drive.components[1], PathComponent::Foreign { bytes, .. } if bytes == b"\xed\xa0\x80")
    );
    let verbatim = not_unicode("\\\\?\\C:\\a/b\\.\\\u{fffd}", b"\\\\?\\C:\\a/b\\.\\\xed\xa0\x80");
    let verbatim = RepoPath::read(&verbatim, Platform::Windows);
    assert_eq!(verbatim.components[2], PathComponent::Normal("a/b".to_string()));
    assert_eq!(verbatim.components[3], PathComponent::CurDir);
    assert!(
        matches!(&verbatim.components[4], PathComponent::Foreign { bytes, .. } if bytes == b"\xed\xa0\x80")
    );
}

/// The home directory leads to the library also where its name is not Unicode.
#[test]
fn home_need_not_be_unicode() {
    let env =
        environment_of(Platform::Other, Some(not_unicode("/h/\u{fffd}", b"/h/\xff")), None);
    let home = RepoPath::read(&not_unicode("/h/\u{fffd}", b"/h/\xff"), Platform::Other);
    assert_eq!(normalize_path("~", &env), Ok(home.clone()));
    assert_eq!(normalize_path("~/lib", &env), Ok(home.child("lib")));
    assert_eq!(normalize_path("~/..", &env), Ok(unix("/h")));
}

/// A name is put behind a place as the standard library puts it there.
#[test]
fn places_are_spelled_as_the_standard_library_spells_them() {
    for text in ["/", "//", "/a", "/a/", "/a//b", "/a/./", "a", "", "./a/..", "/a b/"] {
        let place = Place::read(&OsText::new(text), Platform::Other);
        let child = place.child("x", Platform::Other);
        assert_eq!(child.text, Path::new(text).join("x").to_string_lossy());
        assert_eq!(child.path, unix(&child.text));
        let parent = Path::new(text).parent().map_or(text.into(), |p| p.to_string_lossy());
        assert_eq!(place.parent_text(Platform::Other), parent);
    }
    let spelled = |text: &str| {
        Place::read(&OsText::new(text), Platform::Windows).child("x", Platform::Windows).text
    };
    assert_eq!(spelled(r"C:\Users/me"), r"C:\Users/me\x");
    assert_eq!(spelled(r"C:\"), r"C:\x");
    assert_eq!(spelled("C:"), "C:x");
    assert_eq!(spelled(r"\\?\C:\a\\b"), r"\\?\C:\a\b\x");
}
