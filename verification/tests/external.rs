use skills_manager::central_repo::default_base_dir;
use skills_manager::environment::{read_environment, Environment};
use skills_manager::external::{
    external_base_dir, external_base_dir_for, external_dir_name, external_identity,
    sanitize_dir_name,
};
use skills_manager::os_text::OsText;
use skills_manager::paths::{Platform, RepoPath};
use skills_manager::places::Place;
use skills_manager::state::RepoState;
use std::path::Path;

fn path(text: &str) -> RepoPath {
    RepoPath::parse(text, Platform::Other)
}

fn place(text: &str) -> Place {
    Place::read(&OsText::new(text), Platform::Other)
}

fn env() -> Environment {
    let mut env = read_environment(Platform::Other);
    if env.home.is_none() {
        env.home = Some(place("/home/me"));
    }
    env
}

/// The directory for a checkout, seen from the directory `/work/dir`.
fn external_dir(root: &str) -> RepoPath {
    let canonical = Path::new(root)
        .canonicalize()
        .ok()
        .map(|found| path(&found.to_string_lossy()));
    external_base_dir(
        &RepoState::new(),
        &env(),
        &path(root),
        canonical.as_ref(),
        Some(&path("/work/dir")),
    )
}

fn last_name(dir: &RepoPath) -> String {
    dir.file_name().unwrap().to_string()
}

#[test]
fn external_base_dir_lives_under_default_base_external() {
    let dir = external_dir("/tmp/some/my-skills");
    let prefix = default_base_dir(&RepoState::new(), &env()).child("external");
    assert!(
        dir.starts_with(&prefix),
        "expected {} to start with {}",
        dir.to_text(Platform::Other),
        prefix.to_text(Platform::Other)
    );
}

#[test]
fn external_base_dir_is_stable_for_same_path() {
    let a = external_dir("/tmp/some/my-skills");
    let b = external_dir("/tmp/some/my-skills");
    assert_eq!(a, b);
}

#[test]
fn external_base_dir_differs_for_different_paths() {
    let a = external_dir("/tmp/one/my-skills");
    let b = external_dir("/tmp/two/my-skills");
    assert_ne!(a, b);
}

#[test]
fn external_base_dir_does_not_pollute_skills_root_or_its_parent() {
    let skills_root = path("/tmp/external-test/my-skills");
    let dir = external_dir("/tmp/external-test/my-skills");
    assert!(!dir.starts_with(&skills_root));
    assert!(!dir.starts_with(&skills_root.parent().unwrap()));
}

#[test]
fn sanitize_dir_name_replaces_unsafe_characters() {
    assert_eq!(sanitize_dir_name("my skills"), "my-skills");
    assert_eq!(sanitize_dir_name("a/b\\c:d"), "a-b-c-d");
    assert_eq!(sanitize_dir_name(""), "external");
}

#[test]
fn external_base_dir_relative_path_is_stable_against_absolute_form() {
    // For a target that is not there yet, a relative path gets the same place as the absolute
    // path that it stands for.
    let rel = "nonexistent-skills-target-xyz";
    let abs = "/work/dir/nonexistent-skills-target-xyz";
    assert_eq!(external_dir(rel), external_dir(abs));
}

#[test]
fn external_base_dir_normalizes_redundant_segments() {
    // `./x`, `x`, and `a/../x` should all get the same place when none of them exist on disk.
    let plain = external_dir("nonexistent-norm-target");
    let dot = external_dir("./nonexistent-norm-target");
    let parent = external_dir("a/../nonexistent-norm-target");
    assert_eq!(plain, dot);
    assert_eq!(plain, parent);
}

/// The first five bytes of the SHA-256 digest of the path go into the name.
#[test]
fn the_name_ends_in_the_beginning_of_the_digest() {
    let named = |root: &str| last_name(&external_base_dir(&RepoState::new(), &env(), &path(root), None, None));
    assert_eq!(named("/tmp/some/my-skills"), "my-skills-02ac459f49");
    assert_eq!(named("/tmp/one/my-skills"), "my-skills-bfdb02bdf8");
    assert_eq!(named("/tmp/two/my-skills"), "my-skills-fdd996a1ea");
    // A root has no name of its own.
    assert_eq!(named("/"), "external-8a5edab282");
    assert_eq!(
        last_name(&external_dir("nonexistent-norm-target")),
        "nonexistent-norm-target-e850d90442"
    );
}

#[test]
fn only_the_canonical_form_counts_where_there_is_one() {
    let real = path("/srv/real");
    let placed = |root: &str| {
        external_base_dir(
            &RepoState::new(),
            &env(),
            &path(root),
            Some(&real),
            Some(&path("/work")),
        )
    };
    assert_eq!(placed("/srv/alias"), placed("link"));
    assert_eq!(
        placed("/srv/alias"),
        external_base_dir(&RepoState::new(), &env(), &real, None, None)
    );
}

#[test]
fn an_unknown_current_directory_leaves_a_relative_path_as_it_is() {
    let identity = external_identity(&env(), &path("./a/../b"), None, None);
    assert_eq!(identity, path("b"));
}

#[test]
fn names_are_put_together_from_name_and_digest() {
    assert_eq!(external_dir_name("my skills", &[0, 1, 0xab, 0xff, 16, 99]), "my-skills-0001abff10");
    assert_eq!(external_dir_name("x", &[7]), "x-07");
    let env = Environment {
        platform: Platform::Other,
        home: Some(place("/home/me")),
        config_dir: None,
    };
    let dir = external_base_dir_for(&RepoState::new(), &env, &path("/x/技能"), &[1, 2, 3, 4, 5, 6]);
    assert_eq!(
        dir.to_text(Platform::Other),
        "/home/me/.skills-manager/external/---0102030405"
    );
}

/// A checkout whose name is not Unicode has a name of its own all the same.
#[test]
fn a_name_that_is_not_unicode_is_replaced() {
    let mut env = env();
    env.home = Some(place("/home/me"));
    let mut bytes = b"/x/caf".to_vec();
    bytes.push(0xe9);
    let root = RepoPath::read(
        &OsText { shown: "/x/caf\u{fffd}".to_string(), bytes },
        Platform::Other,
    );
    assert_eq!(root.file_name(), None);
    let dir = external_base_dir_for(&RepoState::new(), &env, &root, &[1, 2, 3, 4, 5]);
    assert_eq!(
        dir.to_text(Platform::Other),
        "/home/me/.skills-manager/external/external-0102030405"
    );
    // What is hashed is the path as it is shown.
    let shown = path("/x/caf\u{fffd}");
    let hashed = |root: &RepoPath| {
        let dir = external_base_dir(&RepoState::new(), &env, root, None, None);
        let name = dir.file_name().unwrap().to_string();
        name[name.len() - 10..].to_string()
    };
    assert_eq!(hashed(&root), hashed(&shown));
}
