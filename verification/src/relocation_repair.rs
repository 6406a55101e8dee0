//! Re-pointing agent-side links after the library moved.
//!
//! Skills are deployed as links into the library. A move leaves every one of them naming the
//! old place, so each is found and pointed at the new one. The walk says what is to be done on
//! disk next; the event that comes back decides what follows. One entry that cannot be read
//! never ends the walk.

use vstd::prelude::*;
use vstd::string::*;

use crate::environment::Environment;
use crate::os_text::OsText;
use crate::paths::{
    absolute, drive_at, entry_of, has_drive_at, joined, lexical, lexically_normalize, parent_of,
    path_opt, path_starts_with, same_path, verbatim_text, Component, PathComponent,
    PathView, Platform, RepoPath,
};
use crate::startup::path_views;
use crate::target::EntryKind;
use crate::text::{chars_of, text_between};

verus! {

/// How far below a root the walk goes. A deployed skill lies directly below its root; the
/// limit keeps a pathological tree from taking long.
pub const MAX_DEPTH: usize = 4;

/// Something the walk has still to visit.
pub enum RepairTask {
    Dir { path: RepoPath, depth: usize },
    Link { path: RepoPath },
}

/// The value of a [`RepairTask`].
pub enum TaskView {
    Dir { path: PathView, depth: usize },
    Link { path: PathView },
}

impl View for RepairTask {
    type V = TaskView;

    open spec fn view(&self) -> TaskView {
        match self {
            RepairTask::Dir { path, depth } => TaskView::Dir { path: path@, depth: *depth },
            RepairTask::Link { path } => TaskView::Link { path: path@ },
        }
    }
}

/// What is to be done next.
pub enum RepairStage {
    /// List the directory. One that is none, or that cannot be listed, counts as empty.
    List { dir: RepoPath, depth: usize },
    /// Read where the link points, and resolve the directory that holds it, and the
    /// [`dotted_part`] of the target from there.
    ReadLink { link: RepoPath },
    /// Look whether the link leads to a directory, and whether `target` is one.
    Probe { link: RepoPath, target: RepoPath },
    /// Replace the link by one to `target`, as a link to a directory or to a file.
    Relink { link: RepoPath, target: RepoPath, dir_link: bool },
    /// There is nothing left.
    Done,
}

/// The value of a [`RepairStage`].
pub enum RepairStageView {
    List { dir: PathView, depth: usize },
    ReadLink { link: PathView },
    Probe { link: PathView, target: PathView },
    Relink { link: PathView, target: PathView, dir_link: bool },
    Done,
}

impl View for RepairStage {
    type V = RepairStageView;

    open spec fn view(&self) -> RepairStageView {
        match self {
            RepairStage::List { dir, depth } => RepairStageView::List { dir: dir@, depth: *depth },
            RepairStage::ReadLink { link } => RepairStageView::ReadLink { link: link@ },
            RepairStage::Probe { link, target } => RepairStageView::Probe {
                link: link@,
                target: target@,
            },
            RepairStage::Relink { link, target, dir_link } => RepairStageView::Relink {
                link: link@,
                target: target@,
                dir_link: *dir_link,
            },
            RepairStage::Done => RepairStageView::Done,
        }
    }
}

/// A walk that re-points links.
pub struct RepairWalk {
    /// Where the library was.
    pub from: RepoPath,
    /// Where the library is now.
    pub to: RepoPath,
    /// What is still to be visited, the next one last.
    pub pending: Vec<RepairTask>,
    /// How many links were re-pointed so far.
    pub repointed: usize,
    pub stage: RepairStage,
}

/// The value of a [`RepairWalk`]. What is still to be visited stands in the order of the visits.
pub struct WalkView {
    pub from: PathView,
    pub to: PathView,
    pub pending: Seq<TaskView>,
    pub repointed: usize,
    pub stage: RepairStageView,
}

/// The values of a list of tasks that is kept back to front.
pub open spec fn task_views(tasks: Seq<RepairTask>) -> Seq<TaskView> {
    Seq::new(tasks.len(), |i: int| tasks[tasks.len() - 1 - i]@)
}

impl View for RepairWalk {
    type V = WalkView;

    open spec fn view(&self) -> WalkView {
        WalkView {
            from: self.from@,
            to: self.to@,
            pending: task_views(self.pending@),
            repointed: self.repointed,
            stage: self.stage@,
        }
    }
}

/// An entry of a directory that was listed.
pub struct FoundEntry {
    pub name: OsText,
    /// The kind of the entry itself, where it can be told. Links are not followed.
    pub kind: Option<EntryKind>,
}

/// What the disk says of a link, all links on the way followed.
pub struct ResolvedLink {
    /// The canonical form of the directory that holds the link, where it has one.
    pub dir: Option<RepoPath>,
    /// The canonical form of the directory to which the [`dotted_part`] of the link's target leads
    /// from there, where it has one.
    pub dotted: Option<RepoPath>,
}

/// The value of a [`ResolvedLink`].
pub struct ResolvedView {
    pub dir: Option<PathView>,
    pub dotted: Option<PathView>,
}

impl View for ResolvedLink {
    type V = ResolvedView;

    open spec fn view(&self) -> ResolvedView {
        ResolvedView { dir: path_opt(self.dir), dotted: path_opt(self.dotted) }
    }
}

/// What came of the work that a stage asked for.
pub enum RepairEvent {
    Listed(Vec<FoundEntry>),
    LinkRead {
        /// Where the link points, unless it cannot be read.
        raw: Option<RepoPath>,
        /// What the disk says of the places that matter for that.
        resolved: ResolvedLink,
    },
    Probed {
        /// Whether the link leads to a directory; none where it leads nowhere.
        resolves_to_dir: Option<bool>,
        target_is_dir: bool,
    },
    /// Whether the link was replaced.
    Relinked(bool),
}

/// Whether `event` reports on the work of `stage`.
pub open spec fn repair_answers(stage: RepairStageView, event: RepairEvent) -> bool {
    match stage {
        RepairStageView::List { .. } => event is Listed,
        RepairStageView::ReadLink { .. } => event is LinkRead,
        RepairStageView::Probe { .. } => event is Probed,
        RepairStageView::Relink { .. } => event is Relinked,
        RepairStageView::Done => false,
    }
}

/// How many components of a link's target there are up to its last `..`.
pub open spec fn dotted_len(raw: PathView) -> int
    decreases raw.len(),
{
    if raw.len() == 0 {
        0
    } else if raw.last() is ParentDir {
        raw.len() as int
    } else {
        dotted_len(raw.drop_last())
    }
}

/// `dotted_len` counts components of the target, and the last that it counts is a `..`.
pub proof fn lemma_dotted_len_bounds(raw: PathView)
    ensures
        0 <= dotted_len(raw) <= raw.len(),
        dotted_len(raw) > 0 ==> raw[dotted_len(raw) - 1] is ParentDir,
    decreases raw.len(),
{
    if raw.len() > 0 && !(raw.last() is ParentDir) {
        lemma_dotted_len_bounds(raw.drop_last());
    }
}

/// The part of a link's target that is to be resolved on disk: everything up to its last `..`,
/// since a `..` leads to the parent of a directory, not of a link through which it was reached.
pub fn dotted_part(raw: &RepoPath) -> (r: RepoPath)
    ensures
        r@ == raw@.take(dotted_len(raw@)),
{
    let mut r = raw.clone();
    proof {
        lemma_dotted_len_bounds(raw@);
        assert(raw@.take(raw@.len() as int) =~= raw@);
    }
    while r.components.len() > 0 && !matches!(
        r.components[r.components.len() - 1],
        PathComponent::ParentDir
    )
        invariant
            r@.len() <= raw@.len(),
            r@ == raw@.take(r@.len() as int),
            dotted_len(raw@) == dotted_len(r@),
        decreases r.components@.len(),
    {
        let ghost before = r@;
        r.components.pop();
        assert(r@ =~= before.drop_last());
        assert(r@ =~= raw@.take(r@.len() as int));
    }
    proof {
        lemma_dotted_len_bounds(r@);
    }
    r
}

/// `path` with a plain drive in place of a verbatim one: `C:` in place of `\\?\C:`, which is how
/// canonical forms are written on Windows.
pub open spec fn with_plain_drive(path: PathView) -> PathView {
    if path.len() > 0 && (path[0] matches Component::Prefix(name) && verbatim_text(name)
        && name.len() == 6 && drive_at(name, 4)) {
        path.update(0, Component::Prefix(path[0]->Prefix_0.skip(4)))
    } else {
        path
    }
}

fn plain_drive_form(path: &RepoPath) -> (r: RepoPath)
    ensures
        r@ == with_plain_drive(path@),
{
    let mut r = path.clone();
    if r.components.len() > 0 && r.has_verbatim_prefix() {
        if let PathComponent::Prefix(name) = &r.components[0] {
            let chars = chars_of(name.as_str());
            if chars.len() == 6 && has_drive_at(&chars, 4) {
                let drive = text_between(&chars, 4, 6);
                assert(drive@ =~= chars@.skip(4));
                r.components.set(0, PathComponent::Prefix(drive));
                assert(r@ =~= with_plain_drive(path@));
            }
        }
    }
    r
}

/// Where a link leads. A relative one is read from the directory that holds it. If that leads into
/// `from` and stays there, it is so. Otherwise it goes by what the disk says: the target is
/// followed up to its last `..`, and the rest is appended. Where it cannot be followed, `.` and
/// `..` are resolved by the text, from the directory that really holds the link.
pub open spec fn link_destination(
    platform: Platform,
    link: PathView,
    resolved: ResolvedView,
    raw: PathView,
    from: PathView,
) -> PathView {
    if absolute(platform, raw) {
        raw
    } else {
        let dir: PathView = match parent_of(link) {
            Some(parent) => parent,
            None => seq![],
        };
        let seen = joined(platform, dir, raw);
        if path_starts_with(seen, from) && path_starts_with(lexical(seen), from) {
            seen
        } else {
            match resolved.dotted {
                Some(actual) => joined(
                    platform,
                    with_plain_drive(actual),
                    raw.skip(dotted_len(raw)),
                ),
                None => match resolved.dir {
                    Some(actual) => lexical(joined(platform, with_plain_drive(actual), raw)),
                    None => lexical(seen),
                },
            }
        }
    }
}

/// Where a link is to point now that `from` is `to`; none where it is to be left alone. Only a
/// link that leads into `from` is touched, and only if that changes it.
pub open spec fn repointed_target(
    platform: Platform,
    link: PathView,
    resolved: ResolvedView,
    raw: PathView,
    from: PathView,
    to: PathView,
) -> Option<PathView> {
    let destination = link_destination(platform, link, resolved, raw, from);
    if path_starts_with(destination, from) {
        let target = joined(platform, to, destination.skip(from.len() as int));
        if same_path(target, raw) {
            None
        } else {
            Some(target)
        }
    } else {
        None
    }
}

/// Where the link at `link`, which points to `raw`, is to point now that the library moved from
/// `from` to `to`; none where it is to be left alone.
pub fn repoint_link(
    env: &Environment,
    link: &RepoPath,
    resolved: &ResolvedLink,
    raw: &RepoPath,
    from: &RepoPath,
    to: &RepoPath,
) -> (r: Option<RepoPath>)
    ensures
        path_opt(r) == repointed_target(
            env@.platform,
            link@,
            resolved@,
            raw@,
            from@,
            to@,
        ),
{
    let destination = if raw.is_absolute(env.platform) {
        raw.clone()
    } else {
        let dir = match link.parent() {
            Some(parent) => parent,
            None => RepoPath::empty(),
        };
        let seen = dir.join(raw, env.platform);
        if seen.starts_with(from) && lexically_normalize(&seen).starts_with(from) {
            seen
        } else {
            match &resolved.dotted {
                Some(actual) => {
                    let dotted = dotted_part(raw);
                    proof {
                        lemma_dotted_len_bounds(raw@);
                        assert(dotted@.len() == dotted_len(raw@));
                    }
                    let rest = raw.behind(dotted.components.len());
                    plain_drive_form(actual).join(&rest, env.platform)
                },
                None => match &resolved.dir {
                    Some(actual) => lexically_normalize(
                        &plain_drive_form(actual).join(raw, env.platform),
                    ),
                    None => lexically_normalize(&seen),
                },
            }
        }
    };
    let relative = match destination.strip_prefix(from) {
        Some(relative) => relative,
        None => {
            return None;
        },
    };
    let target = to.join(&relative, env.platform);
    if target.same_as(raw) {
        None
    } else {
        Some(target)
    }
}

/// What one entry of a directory gives to visit. A link is visited and never descended
/// through; a directory is descended into down to the limit. Below the limit nothing is visited.
pub open spec fn entry_tasks(dir: PathView, depth: usize, entry: FoundEntry) -> Seq<TaskView> {
    if depth > MAX_DEPTH {
        seq![]
    } else {
        match entry.kind {
            Some(EntryKind::Symlink) => seq![TaskView::Link { path: entry_of(dir, entry.name@) }],
            Some(EntryKind::Dir) => if depth < MAX_DEPTH {
                seq![
                    TaskView::Dir {
                        path: entry_of(dir, entry.name@),
                        depth: (depth + 1) as usize,
                    },
                ]
            } else {
                seq![]
            },
            _ => seq![],
        }
    }
}

/// What a directory gives to visit, in the order of its entries.
pub open spec fn dir_tasks(dir: PathView, depth: usize, entries: Seq<FoundEntry>) -> Seq<TaskView>
    decreases entries.len(),
{
    if entries.len() == 0 {
        seq![]
    } else {
        entry_tasks(dir, depth, entries[0]) + dir_tasks(dir, depth, entries.skip(1))
    }
}

/// A directory below the limit gives nothing to visit.
pub proof fn lemma_nothing_below_the_limit(dir: PathView, depth: usize, entries: Seq<FoundEntry>)
    requires
        depth > MAX_DEPTH,
    ensures
        dir_tasks(dir, depth, entries) == Seq::<TaskView>::empty(),
    decreases entries.len(),
{
    if entries.len() > 0 {
        lemma_nothing_below_the_limit(dir, depth, entries.skip(1));
    }
}

/// The walk at its next visit.
pub open spec fn next_visit(walk: WalkView) -> WalkView {
    if walk.pending.len() == 0 {
        WalkView { stage: RepairStageView::Done, ..walk }
    } else {
        WalkView {
            stage: match walk.pending[0] {
                TaskView::Dir { path, depth } => RepairStageView::List { dir: path, depth },
                TaskView::Link { path } => RepairStageView::ReadLink { link: path },
            },
            pending: walk.pending.skip(1),
            ..walk
        }
    }
}

/// How the walk goes on after `event`.
pub open spec fn repair_step(platform: Platform, walk: WalkView, event: RepairEvent) -> WalkView {
    match (walk.stage, event) {
        (RepairStageView::List { dir, depth }, RepairEvent::Listed(entries)) => next_visit(
            WalkView { pending: dir_tasks(dir, depth, entries@) + walk.pending, ..walk },
        ),
        (RepairStageView::ReadLink { link }, RepairEvent::LinkRead { raw, resolved }) => match raw {
            Some(raw) => match repointed_target(
                platform,
                link,
                resolved@,
                raw@,
                walk.from,
                walk.to,
            ) {
                Some(target) => WalkView {
                    stage: RepairStageView::Probe { link, target },
                    ..walk
                },
                None => next_visit(walk),
            },
            None => next_visit(walk),
        },
        // The link keeps its kind; one that leads nowhere takes that of its new target.
        (
            RepairStageView::Probe { link, target },
            RepairEvent::Probed { resolves_to_dir, target_is_dir },
        ) => WalkView {
            stage: RepairStageView::Relink {
                link,
                target,
                dir_link: match resolves_to_dir {
                    Some(is_dir) => is_dir,
                    None => target_is_dir,
                },
            },
            ..walk
        },
        (RepairStageView::Relink { .. }, RepairEvent::Relinked(done)) => next_visit(
            WalkView {
                repointed: if done {
                    (walk.repointed + 1) as usize
                } else {
                    walk.repointed
                },
                ..walk
            },
        ),
        _ => walk,
    }
}

/// The roots of a walk, as things to visit.
pub open spec fn root_tasks(roots: Seq<PathView>) -> Seq<TaskView> {
    Seq::new(roots.len(), |i: int| TaskView::Dir { path: roots[i], depth: 0 })
}

/// The walk at its beginning.
pub open spec fn walk_start(from: PathView, to: PathView, roots: Seq<PathView>) -> WalkView {
    next_visit(
        WalkView {
            from,
            to,
            pending: root_tasks(roots),
            repointed: 0,
            stage: RepairStageView::Done,
        },
    )
}

fn visit_next(walk: RepairWalk) -> (r: RepairWalk)
    ensures
        r@ == next_visit(walk@),
{
    let mut pending = walk.pending;
    let ghost before = pending@;
    match pending.pop() {
        None => {
            assert(task_views(pending@) =~= task_views(before));
            RepairWalk { pending, stage: RepairStage::Done, ..walk }
        },
        Some(task) => {
            assert(task_views(before)[0] == task@);
            assert(task_views(pending@) =~= task_views(before).skip(1));
            let stage = match task {
                RepairTask::Dir { path, depth } => RepairStage::List { dir: path, depth },
                RepairTask::Link { path } => RepairStage::ReadLink { link: path },
            };
            RepairWalk { pending, stage, ..walk }
        },
    }
}

/// Begin to re-point every link below `roots` that leads into `from`, so that it leads to the
/// matching place below `to`.
pub fn repoint_agent_links(roots: &Vec<RepoPath>, from: &RepoPath, to: &RepoPath) -> (r: RepairWalk)
    ensures
        r@ == walk_start(from@, to@, path_views(roots@)),
{
    let ghost all = root_tasks(path_views(roots@));
    let mut pending: Vec<RepairTask> = Vec::new();
    let mut i: usize = roots.len();
    assert(task_views(pending@) =~= all.skip(i as int));
    while i > 0
        invariant
            i <= roots@.len(),
            all == root_tasks(path_views(roots@)),
            task_views(pending@) == all.skip(i as int),
        decreases i,
    {
        i = i - 1;
        let ghost before = task_views(pending@);
        pending.push(RepairTask::Dir { path: roots[i].clone(), depth: 0 });
        assert(task_views(pending@) =~= seq![all[i as int]] + before);
        assert(all.skip(i as int) =~= seq![all[i as int]] + all.skip(i + 1));
    }
    assert(all.skip(0) =~= all);
    visit_next(
        RepairWalk {
            from: from.clone(),
            to: to.clone(),
            pending,
            repointed: 0,
            stage: RepairStage::Done,
        },
    )
}

/// Put what a directory gives in front of what is still to be visited: nothing, if the directory
/// lies below the limit.
pub fn repoint_links_under(
    pending: &mut Vec<RepairTask>,
    dir: &RepoPath,
    depth: usize,
    entries: &Vec<FoundEntry>,
)
    ensures
        task_views(final(pending)@) == dir_tasks(dir@, depth, entries@) + task_views(
            old(pending)@,
        ),
{
    let ghost start = task_views(pending@);
    if depth > MAX_DEPTH {
        proof {
            lemma_nothing_below_the_limit(dir@, depth, entries@);
            assert(start =~= dir_tasks(dir@, depth, entries@) + start);
        }
        return ;
    }
    let mut i: usize = entries.len();
    assert(entries@.skip(i as int) =~= seq![]);
    assert(start =~= dir_tasks(dir@, depth, entries@.skip(i as int)) + start);
    while i > 0
        invariant
            i <= entries@.len(),
            depth <= MAX_DEPTH,
            task_views(pending@) == dir_tasks(dir@, depth, entries@.skip(i as int)) + start,
        decreases i,
    {
        i = i - 1;
        let ghost before = task_views(pending@);
        let entry = &entries[i];
        if let Some(kind) = entry.kind {
            if kind == EntryKind::Symlink {
                pending.push(RepairTask::Link { path: dir.entry(&entry.name) });
            } else if kind == EntryKind::Dir && depth < MAX_DEPTH {
                pending.push(
                    RepairTask::Dir { path: dir.entry(&entry.name), depth: depth + 1 },
                );
            }
        }
        proof {
            let rest = entries@.skip(i as int);
            assert(rest[0] == entries@[i as int]);
            assert(rest.skip(1) =~= entries@.skip(i + 1));
            assert(task_views(pending@) =~= entry_tasks(dir@, depth, entries@[i as int]) + before);
            assert(task_views(pending@) =~= dir_tasks(dir@, depth, rest) + start);
        }
    }
    assert(entries@.skip(0) =~= entries@);
}

/// Go on with the walk after the work of its stage was attempted. The count of re-pointed
/// links must not have reached the end of its range.
pub fn advance_repair(env: &Environment, walk: RepairWalk, event: RepairEvent) -> (r: RepairWalk)
    requires
        repair_answers(walk@.stage, event),
        walk.repointed < usize::MAX,
    ensures
        r@ == repair_step(env@.platform, walk@, event),
{
    match event {
        RepairEvent::Listed(entries) => {
            if let RepairStage::List { dir, depth } = &walk.stage {
                let mut pending = walk.pending;
                repoint_links_under(&mut pending, dir, *depth, &entries);
                return visit_next(RepairWalk { pending, ..walk });
            }
            walk
        },
        RepairEvent::LinkRead { raw, resolved } => {
            let target = match (&walk.stage, &raw) {
                (RepairStage::ReadLink { link }, Some(raw)) => match repoint_link(
                    env,
                    link,
                    &resolved,
                    raw,
                    &walk.from,
                    &walk.to,
                ) {
                    Some(target) => Some((link.clone(), target)),
                    None => None,
                },
                _ => None,
            };
            match target {
                Some((link, target)) => RepairWalk {
                    stage: RepairStage::Probe { link, target },
                    ..walk
                },
                None => visit_next(walk),
            }
        },
        RepairEvent::Probed { resolves_to_dir, target_is_dir } => {
            let dir_link = match resolves_to_dir {
                Some(is_dir) => is_dir,
                None => target_is_dir,
            };
            match walk.stage {
                RepairStage::Probe { link, target } => RepairWalk {
                    stage: RepairStage::Relink { link, target, dir_link },
                    ..walk
                },
                stage => RepairWalk { stage, ..walk },
            }
        },
        RepairEvent::Relinked(done) => {
            let repointed: usize = if done {
                walk.repointed + 1
            } else {
                walk.repointed
            };
            visit_next(RepairWalk { repointed, ..walk })
        },
    }
}

} // verus!
