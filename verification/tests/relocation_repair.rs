use skills_manager::environment::Environment;
use skills_manager::os_text::OsText;
use skills_manager::paths::{lexically_normalize, Platform, RepoPath};
use skills_manager::relocation_repair::{
    advance_repair, dotted_part, repoint_agent_links, repoint_link, repoint_links_under,
    FoundEntry, RepairEvent, RepairStage, RepairTask, RepairWalk, ResolvedLink,
};
use skills_manager::target::EntryKind;

fn path(text: &str) -> RepoPath {
    RepoPath::parse(text, Platform::Other)
}

fn text(path: &RepoPath) -> String {
    path.to_text(Platform::Other)
}

fn env() -> Environment {
    Environment { platform: Platform::Other, home: None, config_dir: None }
}

/// Nothing is known of where a link really lies.
fn nothing() -> ResolvedLink {
    ResolvedLink { dir: None, dotted: None }
}

/// The dots of a link lead to this directory.
fn dots_at(dir: &str) -> ResolvedLink {
    ResolvedLink { dir: None, dotted: Some(path(dir)) }
}

/// A disk of directories, links and files. Links lead nowhere unless they are said to.
#[derive(Default)]
struct Disk {
    entries: Vec<(&'static str, &'static str, Option<EntryKind>)>,
    links: Vec<(&'static str, &'static str)>,
    /// Paths that lead through a link, each with its canonical form.
    real: Vec<(&'static str, &'static str)>,
    resolving: Vec<(&'static str, bool)>,
    dirs: Vec<&'static str>,
    stuck: Vec<&'static str>,
    relinked: Vec<(String, String, bool)>,
    listed: Vec<String>,
}

impl Disk {
    fn canonical(&self, dir: &RepoPath) -> RepoPath {
        match self.real.iter().find(|found| found.0 == text(dir)) {
            Some(found) => path(found.1),
            None => lexically_normalize(dir),
        }
    }

    /// Walk the disk to the end, and say how many links were re-pointed.
    fn repair(&mut self, roots: &[&str], from: &str, to: &str) -> usize {
        let roots: Vec<RepoPath> = roots.iter().map(|root| path(root)).collect();
        let mut walk = repoint_agent_links(&roots, &path(from), &path(to));
        loop {
            let event = match &walk.stage {
                RepairStage::Done => return walk.repointed,
                RepairStage::List { dir, .. } => {
                    self.listed.push(text(dir));
                    RepairEvent::Listed(
                        self.entries
                            .iter()
                            .filter(|entry| entry.0 == text(dir))
                            .map(|entry| FoundEntry { name: OsText::new(entry.1), kind: entry.2 })
                            .collect(),
                    )
                }
                RepairStage::ReadLink { link } => {
                    let found = self.links.iter().find(|found| found.0 == text(link));
                    let raw = found.map(|found| path(found.1));
                    let dir = link.parent().unwrap();
                    let resolved = ResolvedLink {
                        dotted: raw.as_ref().map(|raw| {
                            self.canonical(&dir.join(&dotted_part(raw), Platform::Other))
                        }),
                        dir: Some(self.canonical(&dir)),
                    };
                    RepairEvent::LinkRead { raw, resolved }
                }
                RepairStage::Probe { link, target } => RepairEvent::Probed {
                    resolves_to_dir: self
                        .resolving
                        .iter()
                        .find(|found| found.0 == text(link))
                        .map(|found| found.1),
                    target_is_dir: self.dirs.contains(&text(target).as_str()),
                },
                RepairStage::Relink { link, target, dir_link } => {
                    let done = !self.stuck.contains(&text(link).as_str());
                    if done {
                        self.relinked.push((text(link), text(target), *dir_link));
                    }
                    RepairEvent::Relinked(done)
                }
            };
            walk = advance_repair(&env(), walk, event);
        }
    }
}

const LINK: Option<EntryKind> = Some(EntryKind::Symlink);
const DIR: Option<EntryKind> = Some(EntryKind::Dir);
const FILE: Option<EntryKind> = Some(EntryKind::File);

/// Only links pointing into the old library are touched, and the link's kind is preserved.
#[test]
fn repoints_only_links_that_point_into_the_old_root() {
    let mut disk = Disk {
        entries: vec![
            ("/agent", "alpha", LINK),
            ("/agent", "plain.md", LINK),
            ("/agent", "other", LINK),
        ],
        links: vec![
            ("/agent/alpha", "/old/skills/alpha"),
            ("/agent/plain.md", "/old/skills/plain.md"),
            ("/agent/other", "/elsewhere/other"),
        ],
        dirs: vec!["/new/skills/alpha"],
        ..Disk::default()
    };

    let repointed = disk.repair(&["/agent"], "/old", "/new");

    assert_eq!(repointed, 2, "only the two library links should move");
    assert_eq!(
        disk.relinked,
        vec![
            ("/agent/alpha".to_string(), "/new/skills/alpha".to_string(), true),
            ("/agent/plain.md".to_string(), "/new/skills/plain.md".to_string(), false),
        ]
    );
}

/// A link whose old target is already gone is still re-pointed.
#[test]
fn repoints_a_dangling_link() {
    let mut disk = Disk {
        entries: vec![("/agent", "alpha", LINK)],
        links: vec![("/agent/alpha", "/old/skills/alpha")],
        dirs: vec!["/new/skills/alpha"],
        ..Disk::default()
    };
    let repointed = disk.repair(&["/agent"], "/old", "/new");

    assert_eq!(repointed, 1);
    assert!(disk.relinked[0].2, "now resolves");
}

/// Nothing under the old root means nothing to do.
#[test]
fn leaves_a_root_without_library_links_alone() {
    let mut disk = Disk { entries: vec![("/agent", "real.md", FILE)], ..Disk::default() };
    assert_eq!(disk.repair(&["/agent"], "/old", "/new"), 0);
    assert!(disk.relinked.is_empty());
}

/// A link that still resolves keeps its kind, whatever the new target is.
#[test]
fn a_link_that_resolves_keeps_its_kind() {
    let mut disk = Disk {
        entries: vec![("/agent", "a", LINK), ("/agent", "b", LINK)],
        links: vec![("/agent/a", "/old/a"), ("/agent/b", "/old/b")],
        resolving: vec![("/agent/a", false), ("/agent/b", true)],
        dirs: vec!["/new/a"],
        ..Disk::default()
    };
    assert_eq!(disk.repair(&["/agent"], "/old", "/new"), 2);
    assert!(!disk.relinked[0].2);
    assert!(disk.relinked[1].2);
}

/// One entry that cannot be read or replaced never ends the walk.
#[test]
fn one_bad_entry_does_not_end_the_walk() {
    let mut disk = Disk {
        entries: vec![
            ("/one", "unreadable", LINK),
            ("/one", "stuck", LINK),
            ("/one", "unknown", None),
            ("/two", "good", LINK),
        ],
        links: vec![("/one/stuck", "/old/s"), ("/two/good", "/old/g")],
        stuck: vec!["/one/stuck"],
        ..Disk::default()
    };
    assert_eq!(disk.repair(&["/missing", "/one", "/two"], "/old", "/new"), 1);
    assert_eq!(disk.relinked[0].0, "/two/good");
    assert_eq!(disk.listed, vec!["/missing", "/one", "/two"]);
}

/// Directories are descended into down to the limit, links never.
#[test]
fn the_walk_goes_four_levels_down_and_through_no_link() {
    let mut disk = Disk {
        entries: vec![
            ("/r", "a", DIR),
            ("/r", "l", LINK),
            ("/r/l", "hidden", LINK),
            ("/r/a", "b", DIR),
            ("/r/a/b", "c", DIR),
            ("/r/a/b/c", "d", DIR),
            ("/r/a/b/c/d", "link", LINK),
            ("/r/a/b/c/d", "e", DIR),
            ("/r/a/b/c/d/e", "deep", LINK),
        ],
        links: vec![
            ("/r/l", "/old/l"),
            ("/r/l/hidden", "/old/h"),
            ("/r/a/b/c/d/link", "/old/x"),
            ("/r/a/b/c/d/e/deep", "/old/y"),
        ],
        ..Disk::default()
    };
    assert_eq!(disk.repair(&["/r"], "/old", "/new"), 2);
    assert_eq!(disk.listed, vec!["/r", "/r/a", "/r/a/b", "/r/a/b/c", "/r/a/b/c/d"]);
    // What lies below the first entry comes before the second one.
    assert_eq!(disk.relinked[0].0, "/r/a/b/c/d/link");
    assert_eq!(disk.relinked[1].0, "/r/l");
}

#[test]
fn a_relative_link_is_read_from_its_directory() {
    let target = |link: &str, raw: &str| {
        repoint_link(&env(), &path(link), &nothing(), &path(raw), &path("/old"), &path("/new"))
            .map(|t| text(&t))
    };
    assert_eq!(target("/old/links/x", "y"), Some("/new/links/y".to_string()));
    // One that leads into the old library through `..` is re-pointed like any other.
    assert_eq!(target("/agent/x", "../old/y"), Some("/new/y".to_string()));
    assert_eq!(target("/agent/x", "./../agent/../old/y/."), Some("/new/y".to_string()));
    assert_eq!(target("/agent/x", "../older/y"), None);
    assert_eq!(target("/old/x", "../y"), None);
    // Within the old library the link keeps its dots, since everything moves together.
    assert_eq!(target("/old/links/x", "../y"), Some("/new/links/../y".to_string()));
    assert_eq!(
        repoint_link(
            &env(),
            &path("/home/u/agent/alpha"),
            &dots_at("/home/u"),
            &path("../lib/skills/alpha"),
            &path("/home/u/lib"),
            &path("/home/u/new"),
        ),
        Some(path("/home/u/new/skills/alpha"))
    );
    assert_eq!(target("/agent/x", "/old"), Some("/new".to_string()));
    assert_eq!(target("/agent/x", "/older/y"), None);
    // A link that was re-pointed once is left alone.
    assert_eq!(target("/agent/x", "/new/y"), None);
    // One that would not change is left alone as well.
    assert_eq!(
        repoint_link(
            &env(),
            &path("/a/x"),
            &nothing(),
            &path("/same/y"),
            &path("/same"),
            &path("/same"),
        ),
        None
    );
}

#[test]
fn what_a_directory_gives_is_visited_first() {
    let mut pending = vec![RepairTask::Link { path: path("/later") }];
    let entries = vec![
        FoundEntry { name: OsText::new("l"), kind: LINK },
        FoundEntry { name: OsText::new("f"), kind: FILE },
        FoundEntry { name: OsText::new("d"), kind: DIR },
    ];
    repoint_links_under(&mut pending, &path("/r"), 4, &entries);
    // At the limit no directory is added. The next visit stands last.
    assert_eq!(pending.len(), 2);
    assert!(matches!(&pending[1], RepairTask::Link { path: p } if *p == path("/r/l")));
    // Below the limit nothing is added at all.
    repoint_links_under(&mut pending, &path("/agent"), 5, &entries);
    assert_eq!(pending.len(), 2);
    repoint_links_under(&mut pending, &path("/r"), 3, &entries);
    assert!(matches!(&pending[3], RepairTask::Link { path: p } if *p == path("/r/l")));
    assert!(matches!(&pending[2], RepairTask::Dir { path: p, depth: 4 } if *p == path("/r/d")));
}

/// A second walk over the disk that the first one left behind finds nothing to do.
#[test]
fn a_second_repair_finds_nothing() {
    let mut disk = Disk {
        entries: vec![("/agent", "a", LINK), ("/agent", "b", LINK), ("/agent", "c", LINK)],
        links: vec![("/agent/a", "/old/a"), ("/agent/b", "../old/./b/../x"), ("/agent/c", "/c")],
        ..Disk::default()
    };
    assert_eq!(disk.repair(&["/agent"], "/old", "/new"), 2);
    assert_eq!(
        disk.relinked,
        vec![
            ("/agent/a".to_string(), "/new/a".to_string(), false),
            ("/agent/b".to_string(), "/new/x".to_string(), false),
        ]
    );
    disk.links = vec![("/agent/a", "/new/a"), ("/agent/b", "/new/x"), ("/agent/c", "/c")];
    assert_eq!(disk.repair(&["/agent"], "/old", "/new"), 0);
}

/// A stage below the limit, however it came about, gives nothing to visit.
#[test]
fn a_directory_below_the_limit_gives_nothing() {
    let walk = RepairWalk {
        from: path("/old"),
        to: path("/new"),
        pending: vec![],
        repointed: 0,
        stage: RepairStage::List { dir: path("/agent"), depth: 5 },
    };
    let entries = vec![FoundEntry { name: OsText::new("l"), kind: LINK }];
    let walk = advance_repair(&env(), walk, RepairEvent::Listed(entries));
    assert!(matches!(walk.stage, RepairStage::Done));
    assert_eq!(walk.repointed, 0);
}

/// A `..` leads to the parent of the directory itself, not of the link it was reached through.
#[test]
fn a_relative_link_is_read_from_the_real_directory() {
    // `/home/u/agent` is a link to `/mnt/v/agent`.
    let target = |raw: &str, dots: &str, from: &str| {
        repoint_link(
            &env(),
            &path("/home/u/agent/x"),
            &dots_at(dots),
            &path(raw),
            &path(from),
            &path("/new"),
        )
        .map(|t| text(&t))
    };
    assert_eq!(target("../lib/y", "/mnt/v", "/mnt/v/lib"), Some("/new/y".to_string()));
    assert_eq!(target("../lib/y", "/mnt/v", "/home/u/lib"), None);
    assert_eq!(target("../../v/lib", "/mnt", "/mnt/v/lib"), Some("/new".to_string()));
    // `sub` is a link, too.
    assert_eq!(target("sub/../lib/y", "/srv", "/srv/lib"), Some("/new/y".to_string()));
    assert_eq!(target("y/z", "/mnt/v/agent", "/mnt/v/agent"), Some("/new/y/z".to_string()));
    // The old library is gone, so that dots behind it lead nowhere.
    let gone = ResolvedLink { dir: Some(path("/mnt/v/agent")), dotted: None };
    let behind = |from: &str| {
        repoint_link(
            &env(),
            &path("/home/u/agent/x"),
            &gone,
            &path("../lib/a/../y"),
            &path(from),
            &path("/new"),
        )
    };
    assert_eq!(behind("/mnt/v/lib"), Some(path("/new/y")));
    assert_eq!(behind("/home/u/lib"), None);

    let mut disk = Disk {
        entries: vec![("/agent", "a", LINK)],
        links: vec![("/agent/a", "../lib/a")],
        real: vec![("/agent/..", "/srv")],
        ..Disk::default()
    };
    assert_eq!(disk.repair(&["/agent"], "/srv/lib", "/new"), 1);
    assert_eq!(disk.relinked[0].1, "/new/a");
    assert_eq!(disk.repair(&["/agent"], "/lib", "/new"), 0);
}

/// What is resolved on disk is the target up to its last `..`.
#[test]
fn the_dots_of_a_target_are_resolved_on_disk() {
    for (raw, part) in [("a/b", ""), ("../a", ".."), ("a/../b/../../c/d", "a/../b/../.."), ("", "")] {
        assert_eq!(dotted_part(&path(raw)), path(part));
    }
    // A canonical form of Windows is that of a plain drive.
    let windows = |text: &str| RepoPath::parse(text, Platform::Windows);
    let env = Environment { platform: Platform::Windows, home: None, config_dir: None };
    let moved = repoint_link(
        &env,
        &windows(r"C:\agent\x"),
        &ResolvedLink { dir: None, dotted: Some(windows(r"\\?\C:\u")) },
        &windows(r"..\u\lib\y"),
        &windows(r"c:\u\u\lib"),
        &windows(r"D:\new"),
    );
    assert_eq!(moved, Some(windows(r"D:\new\y")));
}

/// Of two libraries one may hold the other, as long as no target lies in the old one.
#[test]
fn a_second_repair_finds_nothing_in_nested_libraries() {
    let mut disk = Disk {
        entries: vec![("/agent", "a", LINK)],
        links: vec![("/agent/a", "/a/lib/y")],
        ..Disk::default()
    };
    assert_eq!(disk.repair(&["/agent"], "/a/lib", "/a"), 1);
    assert_eq!(disk.relinked[0].1, "/a/y");
    disk.links = vec![("/agent/a", "/a/y")];
    assert_eq!(disk.repair(&["/agent"], "/a/lib", "/a"), 0);
    // Here the target lies in the old library again.
    disk.links = vec![("/agent/a", "/a/lib/lib/y")];
    assert_eq!(disk.repair(&["/agent"], "/a/lib", "/a"), 1);
    assert_eq!(disk.relinked[1].1, "/a/lib/y");
}

/// Links and targets whose names are not Unicode are followed under those very names.
#[test]
fn links_with_names_that_are_not_unicode_are_repaired() {
    let name = OsText { shown: "\u{fffd}".to_string(), bytes: vec![0xff] };
    let moved = repoint_link(
        &env(),
        &path("/agent").entry(&name),
        &nothing(),
        &path("/old/skills").entry(&name),
        &path("/old"),
        &path("/new"),
    );
    assert_eq!(moved, Some(path("/new/skills").entry(&name)));
    let mut pending = Vec::new();
    let entries = vec![FoundEntry { name: name.clone(), kind: LINK }];
    repoint_links_under(&mut pending, &path("/agent"), 0, &entries);
    assert!(
        matches!(&pending[0], RepairTask::Link { path: p } if *p == path("/agent").entry(&name))
    );
}
