//! What holds of the walk that re-points links: which links it touches, how far it goes, and what
//! its count says.

use vstd::prelude::*;

use crate::os_text::OsTextView;
use crate::path_laws::{
    all_names, law_joined_paths_lie_below, law_names_are_appended, law_same_path_reflexive,
    lemma_joined_absolute, lemma_joined_valid, lemma_lexical_placed, placed, plain_os_name,
    valid_path, well_placed,
};
use crate::paths::{
    absolute, entry_of, joined, name_component, parent_of, path_opt, path_starts_with,
    same_component, same_path, verbatim, with_implied_root, PathView, Platform,
};
use crate::relocation_repair::{
    dir_tasks, dotted_len, entry_tasks, lemma_dotted_len_bounds, lemma_nothing_below_the_limit,
    link_destination, next_visit, repair_answers, repair_step, repointed_target, root_tasks,
    walk_start, with_plain_drive, FoundEntry, RepairEvent, RepairStageView, ResolvedView, TaskView,
    WalkView, MAX_DEPTH,
};
use crate::target::EntryKind;

verus! {

// ---------------------------------------------------------------------------------------
// One link
// ---------------------------------------------------------------------------------------

/// Law: a link is touched only if it leads into the old library.
pub proof fn law_other_links_are_left_alone(
    platform: Platform,
    link: PathView,
    resolved: ResolvedView,
    raw: PathView,
    from: PathView,
    to: PathView,
)
    requires
        !path_starts_with(link_destination(platform, link, resolved, raw, from), from),
    ensures
        repointed_target(platform, link, resolved, raw, from, to) is None,
{
}

/// Law: a link that leads to an entry of the old library is pointed at the same entry of the new
/// one, unless it points there already.
pub proof fn law_links_follow_the_library(
    platform: Platform,
    link: PathView,
    resolved: ResolvedView,
    raw: PathView,
    names: PathView,
    from: PathView,
    to: PathView,
)
    requires
        all_names(names),
        link_destination(platform, link, resolved, raw, from) == from + names,
    ensures
        repointed_target(platform, link, resolved, raw, from, to) == (if same_path(
            with_implied_root(to + names),
            raw,
        ) {
            None
        } else {
            Some(with_implied_root(to + names))
        }),
{
    let destination = from + names;
    assert(destination.take(from.len() as int) =~= from);
    assert(destination.skip(from.len() as int) =~= names);
    law_same_path_reflexive(from);
    law_names_are_appended(platform, to, names);
}

/// Of two beginnings of one path, the shorter is a beginning of the longer.
proof fn lemma_beginnings_nest(path: PathView, a: PathView, b: PathView)
    requires
        path_starts_with(path, a),
        path_starts_with(path, b),
        a.len() <= b.len(),
    ensures
        path_starts_with(b, a),
{
    let head = b.take(a.len() as int);
    assert forall|i: int| 0 <= i < a.len() implies #[trigger] same_component(head[i], a[i]) by {
        let in_a = path.take(a.len() as int);
        let in_b = path.take(b.len() as int);
        assert(same_component(in_a[i], a[i]));
        assert(same_component(in_b[i], b[i]));
        assert(in_a[i] == in_b[i]);
        assert(head[i] == b[i]);
    }
}

/// Whether what the disk says of a link has the shape of paths.
pub open spec fn valid_resolved(platform: Platform, resolved: ResolvedView) -> bool {
    &&& resolved.dir matches Some(actual) ==> valid_path(platform, actual)
    &&& resolved.dotted matches Some(actual) ==> valid_path(platform, actual)
}

proof fn lemma_plain_drives_are_valid(platform: Platform, path: PathView)
    requires
        valid_path(platform, path),
    ensures
        valid_path(platform, with_plain_drive(path)),
{
    let plain = with_plain_drive(path);
    assert forall|i: int| 0 <= i < plain.len() implies #[trigger] well_placed(
        platform,
        plain,
        i,
    ) by {
        assert(well_placed(platform, path, i));
    }
}

/// Where a link leads has the shape of a path, if the link and what it holds have.
proof fn lemma_destination_placed(
    platform: Platform,
    link: PathView,
    resolved: ResolvedView,
    raw: PathView,
    from: PathView,
)
    requires
        valid_path(platform, link),
        valid_resolved(platform, resolved),
        valid_path(platform, raw),
    ensures
        placed(platform, link_destination(platform, link, resolved, raw, from)),
{
    if !absolute(platform, raw) {
        let dir: PathView = match parent_of(link) {
            Some(parent) => parent,
            None => seq![],
        };
        assert forall|i: int| 0 <= i < dir.len() implies #[trigger] well_placed(
            platform,
            dir,
            i,
        ) by {
            assert(well_placed(platform, link, i));
        }
        lemma_joined_valid(platform, dir, raw);
        lemma_lexical_placed(platform, joined(platform, dir, raw));
        if let Some(actual) = resolved.dir {
            lemma_plain_drives_are_valid(platform, actual);
            lemma_joined_valid(platform, with_plain_drive(actual), raw);
            lemma_lexical_placed(platform, joined(platform, with_plain_drive(actual), raw));
        }
        if let Some(actual) = resolved.dotted {
            let rest = raw.skip(dotted_len(raw));
            lemma_dotted_len_bounds(raw);
            assert forall|i: int| 0 <= i < rest.len() implies #[trigger] well_placed(
                platform,
                rest,
                i,
            ) by {
                assert(well_placed(platform, raw, i + dotted_len(raw)));
            }
            if dotted_len(raw) == 0 {
                assert(rest =~= raw);
            } else if rest.len() > 0 {
                assert(well_placed(platform, raw, dotted_len(raw)));
            }
            lemma_plain_drives_are_valid(platform, actual);
            lemma_joined_valid(platform, with_plain_drive(actual), rest);
        }
    }
}

/// Law: a link that was re-pointed needs no more repair, provided that its new target lies outside
/// the old library. A target can lie inside it only where one of the two libraries holds the other.
pub proof fn law_repair_is_done_once(
    platform: Platform,
    link: PathView,
    resolved: ResolvedView,
    raw: PathView,
    from: PathView,
    to: PathView,
    later: ResolvedView,
)
    requires
        valid_path(platform, link),
        valid_resolved(platform, resolved),
        valid_path(platform, raw),
        valid_path(platform, to),
        absolute(platform, to),
        repointed_target(platform, link, resolved, raw, from, to) is Some,
        !path_starts_with(repointed_target(platform, link, resolved, raw, from, to)->0, from),
    ensures
        repointed_target(
            platform,
            link,
            later,
            repointed_target(platform, link, resolved, raw, from, to)->0,
            from,
            to,
        ) is None,
{
    let destination = link_destination(platform, link, resolved, raw, from);
    let rest = destination.skip(from.len() as int);
    let target = joined(platform, to, rest);
    lemma_destination_placed(platform, link, resolved, raw, from);
    if from.len() == 0 {
        assert(path_starts_with(target, from));
    }
    assert forall|i: int| 0 <= i < rest.len() implies #[trigger] well_placed(
        platform,
        rest,
        i,
    ) by {
        assert(well_placed(platform, destination, i + from.len()));
    }
    if rest.len() > 0 {
        assert(well_placed(platform, rest, 0));
        assert(well_placed(platform, destination, from.len() as int));
    }
    lemma_joined_absolute(platform, to, rest);
}

/// Law: a re-pointed link lies outside the old library if neither library lies inside the other.
/// On Windows a new library with a verbatim prefix is left out where the link holds a `..`, which
/// is carried out there.
pub proof fn law_new_targets_leave_the_old_library(
    platform: Platform,
    link: PathView,
    resolved: ResolvedView,
    raw: PathView,
    from: PathView,
    to: PathView,
)
    requires
        valid_path(platform, link),
        valid_resolved(platform, resolved),
        valid_path(platform, raw),
        valid_path(platform, to),
        absolute(platform, to),
        !path_starts_with(from, to),
        !path_starts_with(to, from),
        platform == Platform::Windows && verbatim(to) ==> all_names(
            link_destination(platform, link, resolved, raw, from).skip(from.len() as int),
        ),
    ensures
        repointed_target(platform, link, resolved, raw, from, to) matches Some(target)
            ==> !path_starts_with(target, from),
{
    let destination = link_destination(platform, link, resolved, raw, from);
    let rest = destination.skip(from.len() as int);
    let head = destination.take(from.len() as int);
    let target = joined(platform, to, rest);
    lemma_destination_placed(platform, link, resolved, raw, from);
    assert(well_placed(platform, to, 0));
    if from.len() == 0 {
        assert(path_starts_with(to, from));
    }
    if path_starts_with(destination, from) {
        assert(same_component(head[0], from[0]));
        assert(well_placed(platform, destination, 0));
        if rest.len() > 0 {
            assert(rest[0] == destination[from.len() as int]);
            assert(well_placed(platform, destination, from.len() as int));
        }
        if rest.len() > 0 && rest[0] is RootDir {
            // The old library is a bare prefix, and the new one has another.
            assert(from.len() == 1 && from[0] is Prefix);
            if path_starts_with(target, from) {
                let begin = target.take(1);
                assert(same_component(begin[0], from[0]));
                assert(target[0] == to[0]);
                assert(to.take(1)[0] == to[0]);
                assert(path_starts_with(to, from));
            }
        } else {
            if platform == Platform::Windows && verbatim(to) {
                law_names_are_appended(platform, to, rest);
            } else {
                law_joined_paths_lie_below(platform, to, rest);
            }
            if path_starts_with(target, from) {
                if from.len() <= to.len() {
                    lemma_beginnings_nest(target, from, to);
                } else {
                    lemma_beginnings_nest(target, to, from);
                }
            }
        }
    }
}

// ---------------------------------------------------------------------------------------
// How far the walk goes
// ---------------------------------------------------------------------------------------

/// Whether a directory that is to be visited lies within the limit.
pub open spec fn shallow_task(task: TaskView) -> bool {
    task matches TaskView::Dir { depth, .. } ==> depth <= MAX_DEPTH
}

/// Whether everything that the walk visits, now and later, lies within the limit.
pub open spec fn shallow(walk: WalkView) -> bool {
    &&& walk.stage matches RepairStageView::List { depth, .. } ==> depth <= MAX_DEPTH
    &&& forall|i: int| 0 <= i < walk.pending.len() ==> shallow_task(#[trigger] walk.pending[i])
}

proof fn lemma_dir_tasks_shallow(dir: PathView, depth: usize, entries: Seq<FoundEntry>)
    requires
        depth <= MAX_DEPTH,
    ensures
        forall|i: int|
            0 <= i < dir_tasks(dir, depth, entries).len() ==> shallow_task(
                #[trigger] dir_tasks(dir, depth, entries)[i],
            ),
    decreases entries.len(),
{
    if entries.len() > 0 {
        let rest = dir_tasks(dir, depth, entries.skip(1));
        let first = entry_tasks(dir, depth, entries[0]);
        lemma_dir_tasks_shallow(dir, depth, entries.skip(1));
        let whole = dir_tasks(dir, depth, entries);
        assert forall|i: int| 0 <= i < whole.len() implies shallow_task(#[trigger] whole[i]) by {
            if i < first.len() {
                assert(whole[i] == first[i]);
            } else {
                assert(whole[i] == rest[i - first.len()]);
            }
        }
    }
}

/// Law: the walk starts within the limit.
pub proof fn law_walk_starts_shallow(from: PathView, to: PathView, roots: Seq<PathView>)
    ensures
        shallow(walk_start(from, to, roots)),
{
}

/// Law: the walk never leaves the limit.
pub proof fn law_walk_stays_shallow(platform: Platform, walk: WalkView, event: RepairEvent)
    requires
        shallow(walk),
        repair_answers(walk.stage, event),
    ensures
        shallow(repair_step(platform, walk, event)),
{
    if let RepairStageView::List { dir, depth } = walk.stage {
        if let RepairEvent::Listed(entries) = event {
            lemma_dir_tasks_shallow(dir, depth, entries@);
            let given = dir_tasks(dir, depth, entries@);
            let pending = given + walk.pending;
            assert forall|i: int| 0 <= i < pending.len() implies shallow_task(
                #[trigger] pending[i],
            ) by {
                if i < given.len() {
                    assert(pending[i] == given[i]);
                } else {
                    assert(pending[i] == walk.pending[i - given.len()]);
                }
            }
            if pending.len() > 0 {
                assert(shallow_task(pending[0]));
            }
        }
    } else if walk.pending.len() > 0 {
        assert(shallow_task(walk.pending[0]));
    }
}

// ---------------------------------------------------------------------------------------
// What the count says
// ---------------------------------------------------------------------------------------

/// A disk that does not change under the walk: what each directory lists, where each link points,
/// where it really lies and its dots lead, and whether it can be replaced.
pub struct Disk {
    pub entries: spec_fn(PathView) -> Seq<FoundEntry>,
    pub raw: spec_fn(PathView) -> Option<PathView>,
    pub resolved: spec_fn(PathView) -> ResolvedView,
    pub replaceable: spec_fn(PathView) -> bool,
}

/// Whether an event reports what is on `disk`.
pub open spec fn truthful(disk: Disk, stage: RepairStageView, event: RepairEvent) -> bool {
    match (stage, event) {
        (RepairStageView::List { dir, .. }, RepairEvent::Listed(entries)) => entries@ == (
        disk.entries)(dir),
        (RepairStageView::ReadLink { link }, RepairEvent::LinkRead { raw, resolved }) => {
            &&& path_opt(raw) == (disk.raw)(link)
            &&& resolved@ == (disk.resolved)(link)
        },
        (RepairStageView::Relink { link, .. }, RepairEvent::Relinked(done)) => done == (
        disk.replaceable)(link),
        _ => true,
    }
}

/// Whether the link at `link` is one that the walk re-points.
pub open spec fn repairable(
    platform: Platform,
    disk: Disk,
    from: PathView,
    to: PathView,
    link: PathView,
) -> bool {
    &&& target_on(platform, disk, from, to, link) is Some
    &&& (disk.replaceable)(link)
}

/// How many links below a directory are re-pointed, within the limit.
pub open spec fn links_below(
    platform: Platform,
    disk: Disk,
    from: PathView,
    to: PathView,
    dir: PathView,
    depth: usize,
) -> nat
    decreases MAX_DEPTH + 1 - depth, (disk.entries)(dir).len(), 1int,
{
    links_among(platform, disk, from, to, dir, depth, (disk.entries)(dir))
}

/// How many links among the entries of a directory, and below them, are re-pointed.
pub open spec fn links_among(
    platform: Platform,
    disk: Disk,
    from: PathView,
    to: PathView,
    dir: PathView,
    depth: usize,
    entries: Seq<FoundEntry>,
) -> nat
    decreases MAX_DEPTH + 1 - depth, entries.len(), 0int,
{
    if entries.len() == 0 || depth > MAX_DEPTH {
        0
    } else {
        let path = entry_of(dir, entries[0].name@);
        let first: nat = match entries[0].kind {
            Some(EntryKind::Symlink) => if repairable(platform, disk, from, to, path) {
                1
            } else {
                0
            },
            Some(EntryKind::Dir) => if depth < MAX_DEPTH {
                links_below(platform, disk, from, to, path, (depth + 1) as usize)
            } else {
                0
            },
            _ => 0,
        };
        first + links_among(platform, disk, from, to, dir, depth, entries.skip(1))
    }
}

/// How many links one visit re-points.
pub open spec fn links_in_task(
    platform: Platform,
    disk: Disk,
    from: PathView,
    to: PathView,
    task: TaskView,
) -> nat {
    match task {
        TaskView::Dir { path, depth } => links_below(platform, disk, from, to, path, depth),
        TaskView::Link { path } => if repairable(platform, disk, from, to, path) {
            1
        } else {
            0
        },
    }
}

/// How many links a list of visits re-points.
pub open spec fn links_in_tasks(
    platform: Platform,
    disk: Disk,
    from: PathView,
    to: PathView,
    tasks: Seq<TaskView>,
) -> nat
    decreases tasks.len(),
{
    if tasks.len() == 0 {
        0
    } else {
        links_in_task(platform, disk, from, to, tasks[0]) + links_in_tasks(
            platform,
            disk,
            from,
            to,
            tasks.skip(1),
        )
    }
}

/// How many links the visit under way still re-points.
pub open spec fn links_in_stage(platform: Platform, disk: Disk, walk: WalkView) -> nat {
    match walk.stage {
        RepairStageView::List { dir, depth } => links_below(
            platform,
            disk,
            walk.from,
            walk.to,
            dir,
            depth,
        ),
        RepairStageView::ReadLink { link } => if repairable(
            platform,
            disk,
            walk.from,
            walk.to,
            link,
        ) {
            1
        } else {
            0
        },
        RepairStageView::Probe { link, .. } => if (disk.replaceable)(link) {
            1
        } else {
            0
        },
        RepairStageView::Relink { link, .. } => if (disk.replaceable)(link) {
            1
        } else {
            0
        },
        RepairStageView::Done => 0,
    }
}

/// The links that were re-pointed and those that still are to be.
pub open spec fn links_in_all(platform: Platform, disk: Disk, walk: WalkView) -> nat {
    walk.repointed as nat + links_in_stage(platform, disk, walk) + links_in_tasks(
        platform,
        disk,
        walk.from,
        walk.to,
        walk.pending,
    )
}

proof fn lemma_tasks_append(
    platform: Platform,
    disk: Disk,
    from: PathView,
    to: PathView,
    a: Seq<TaskView>,
    b: Seq<TaskView>,
)
    ensures
        links_in_tasks(platform, disk, from, to, a + b) == links_in_tasks(
            platform,
            disk,
            from,
            to,
            a,
        ) + links_in_tasks(platform, disk, from, to, b),
    decreases a.len(),
{
    if a.len() == 0 {
        assert(a + b =~= b);
    } else {
        assert((a + b).skip(1) =~= a.skip(1) + b);
        lemma_tasks_append(platform, disk, from, to, a.skip(1), b);
    }
}

proof fn lemma_dir_tasks_count(
    platform: Platform,
    disk: Disk,
    from: PathView,
    to: PathView,
    dir: PathView,
    depth: usize,
    entries: Seq<FoundEntry>,
)
    requires
        depth <= MAX_DEPTH,
    ensures
        links_in_tasks(platform, disk, from, to, dir_tasks(dir, depth, entries)) == links_among(
            platform,
            disk,
            from,
            to,
            dir,
            depth,
            entries,
        ),
    decreases entries.len(),
{
    if entries.len() > 0 {
        let first = entry_tasks(dir, depth, entries[0]);
        let rest = dir_tasks(dir, depth, entries.skip(1));
        lemma_dir_tasks_count(platform, disk, from, to, dir, depth, entries.skip(1));
        lemma_tasks_append(platform, disk, from, to, first, rest);
        if first.len() > 0 {
            assert(first.skip(1) =~= Seq::<TaskView>::empty());
            assert(links_in_tasks(platform, disk, from, to, first.skip(1)) == 0);
        }
        assert(links_in_tasks(platform, disk, from, to, dir_tasks(dir, depth, entries))
            == links_in_tasks(platform, disk, from, to, first) + links_in_tasks(
            platform,
            disk,
            from,
            to,
            rest,
        ));
    }
}

proof fn lemma_next_visit_count(platform: Platform, disk: Disk, walk: WalkView)
    ensures
        links_in_all(platform, disk, next_visit(walk)) == walk.repointed as nat + links_in_tasks(
            platform,
            disk,
            walk.from,
            walk.to,
            walk.pending,
        ),
{
}

/// Law: whatever the walk is told, as long as it is true of the disk, the links that it has
/// re-pointed and those that it still will make up the same number.
pub proof fn law_walk_keeps_its_count(
    platform: Platform,
    disk: Disk,
    walk: WalkView,
    event: RepairEvent,
)
    requires
        shallow(walk),
        repair_answers(walk.stage, event),
        truthful(disk, walk.stage, event),
        walk.repointed < usize::MAX,
    ensures
        links_in_all(platform, disk, repair_step(platform, walk, event)) == links_in_all(
            platform,
            disk,
            walk,
        ),
{
    match (walk.stage, event) {
        (RepairStageView::List { dir, depth }, RepairEvent::Listed(entries)) => {
            lemma_dir_tasks_count(platform, disk, walk.from, walk.to, dir, depth, entries@);
            let given = dir_tasks(dir, depth, entries@);
            lemma_tasks_append(platform, disk, walk.from, walk.to, given, walk.pending);
            lemma_next_visit_count(
                platform,
                disk,
                WalkView { pending: given + walk.pending, ..walk },
            );
        },
        (RepairStageView::ReadLink { link }, RepairEvent::LinkRead { raw, resolved }) => {
            lemma_next_visit_count(platform, disk, walk);
        },
        (RepairStageView::Relink { link, .. }, RepairEvent::Relinked(done)) => {
            lemma_next_visit_count(
                platform,
                disk,
                WalkView {
                    repointed: if done {
                        (walk.repointed + 1) as usize
                    } else {
                        walk.repointed
                    },
                    ..walk
                },
            );
        },
        _ => {},
    }
}

/// Where the walk stands after `events`.
pub open spec fn repair_run(
    platform: Platform,
    walk: WalkView,
    events: Seq<RepairEvent>,
) -> WalkView
    decreases events.len(),
{
    if events.len() == 0 {
        walk
    } else {
        repair_step(platform, repair_run(platform, walk, events.drop_last()), events.last())
    }
}

/// Whether each event answers the stage that is due, and tells what is on `disk`.
pub open spec fn truthful_run(
    platform: Platform,
    disk: Disk,
    walk: WalkView,
    events: Seq<RepairEvent>,
) -> bool
    decreases events.len(),
{
    events.len() > 0 ==> {
        let before = repair_run(platform, walk, events.drop_last());
        &&& truthful_run(platform, disk, walk, events.drop_last())
        &&& repair_answers(before.stage, events.last())
        &&& truthful(disk, before.stage, events.last())
        &&& before.repointed < usize::MAX
    }
}

/// Whether a walk that is over has nothing left to visit.
pub open spec fn over(walk: WalkView) -> bool {
    walk.stage is Done ==> walk.pending.len() == 0
}

proof fn lemma_run(
    platform: Platform,
    disk: Disk,
    from: PathView,
    to: PathView,
    roots: Seq<PathView>,
    events: Seq<RepairEvent>,
)
    requires
        truthful_run(platform, disk, walk_start(from, to, roots), events),
    ensures
        ({
            let walk = repair_run(platform, walk_start(from, to, roots), events);
            &&& shallow(walk)
            &&& over(walk)
            &&& walk.from == from && walk.to == to
            &&& links_in_all(platform, disk, walk) == links_in_tasks(
                platform,
                disk,
                from,
                to,
                root_tasks(roots),
            )
        }),
    decreases events.len(),
{
    let start = walk_start(from, to, roots);
    if events.len() == 0 {
        law_walk_starts_shallow(from, to, roots);
        lemma_next_visit_count(
            platform,
            disk,
            WalkView {
                from,
                to,
                pending: root_tasks(roots),
                repointed: 0,
                stage: RepairStageView::Done,
            },
        );
    } else {
        let init = events.drop_last();
        lemma_run(platform, disk, from, to, roots, init);
        let before = repair_run(platform, start, init);
        law_walk_stays_shallow(platform, before, events.last());
        law_walk_keeps_its_count(platform, disk, before, events.last());
    }
}

/// Law: when the walk is over, the number that it reports is that of all the links below its
/// roots, within the limit, that led into the old library and could be replaced.
pub proof fn law_repair_reports_every_link(
    platform: Platform,
    disk: Disk,
    from: PathView,
    to: PathView,
    roots: Seq<PathView>,
    events: Seq<RepairEvent>,
)
    requires
        truthful_run(platform, disk, walk_start(from, to, roots), events),
        repair_run(platform, walk_start(from, to, roots), events).stage is Done,
    ensures
        repair_run(platform, walk_start(from, to, roots), events).repointed == links_in_tasks(
            platform,
            disk,
            from,
            to,
            root_tasks(roots),
        ),
{
    lemma_run(platform, disk, from, to, roots, events);
}

// ---------------------------------------------------------------------------------------
// That a second walk finds nothing
// ---------------------------------------------------------------------------------------

/// Where the link at `link` is to point; none where it is to be left alone.
pub open spec fn target_on(
    platform: Platform,
    disk: Disk,
    from: PathView,
    to: PathView,
    link: PathView,
) -> Option<PathView> {
    match (disk.raw)(link) {
        Some(raw) => repointed_target(platform, link, (disk.resolved)(link), raw, from, to),
        None => None,
    }
}

/// The links that were replaced, each with where it points since.
pub open spec fn replaced(
    platform: Platform,
    walk: WalkView,
    events: Seq<RepairEvent>,
) -> Map<PathView, PathView>
    decreases events.len(),
{
    if events.len() == 0 {
        Map::empty()
    } else {
        let before = replaced(platform, walk, events.drop_last());
        match (repair_run(platform, walk, events.drop_last()).stage, events.last()) {
            (
                RepairStageView::Relink { link, target, .. },
                RepairEvent::Relinked(done),
            ) => if done {
                before.insert(link, target)
            } else {
                before
            },
            _ => before,
        }
    }
}

/// Whether no link failed to be replaced.
pub open spec fn nothing_failed(events: Seq<RepairEvent>) -> bool {
    forall|i: int| 0 <= i < events.len() ==> #[trigger] events[i] != RepairEvent::Relinked(false)
}

/// Whether `later` is `disk` with the links of `log` replaced and nothing else changed. Whether a
/// link can be replaced may differ.
pub open spec fn left_behind(disk: Disk, log: Map<PathView, PathView>, later: Disk) -> bool {
    &&& later.entries == disk.entries
    &&& forall|link: PathView|
        !log.contains_key(link) ==> #[trigger] (later.resolved)(link) == (disk.resolved)(link)
    &&& forall|link: PathView|
        #![trigger (later.raw)(link)]
        (later.raw)(link) == (if log.contains_key(link) {
            Some(log[link])
        } else {
            (disk.raw)(link)
        })
}

/// Whether the walk comes to `link` below a directory.
pub open spec fn reached_below(disk: Disk, dir: PathView, depth: usize, link: PathView) -> bool
    decreases MAX_DEPTH + 1 - depth, (disk.entries)(dir).len(), 1int,
{
    reached_among(disk, dir, depth, (disk.entries)(dir), link)
}

/// Whether the walk comes to `link` among the entries of a directory, or below them.
pub open spec fn reached_among(
    disk: Disk,
    dir: PathView,
    depth: usize,
    entries: Seq<FoundEntry>,
    link: PathView,
) -> bool
    decreases MAX_DEPTH + 1 - depth, entries.len(), 0int,
{
    if entries.len() == 0 || depth > MAX_DEPTH {
        false
    } else {
        let path = entry_of(dir, entries[0].name@);
        ||| entries[0].kind == Some(EntryKind::Symlink) && path == link
        ||| entries[0].kind == Some(EntryKind::Dir) && depth < MAX_DEPTH && reached_below(
            disk,
            path,
            (depth + 1) as usize,
            link,
        )
        ||| reached_among(disk, dir, depth, entries.skip(1), link)
    }
}

/// Whether the walk comes to `link` in a list of visits.
pub open spec fn reached_in_tasks(disk: Disk, tasks: Seq<TaskView>, link: PathView) -> bool
    decreases tasks.len(),
{
    if tasks.len() == 0 {
        false
    } else {
        (match tasks[0] {
            TaskView::Dir { path, depth } => reached_below(disk, path, depth, link),
            TaskView::Link { path } => path == link,
        }) || reached_in_tasks(disk, tasks.skip(1), link)
    }
}

/// Whether the visit under way comes to `link`.
pub open spec fn reached_in_stage(disk: Disk, walk: WalkView, link: PathView) -> bool {
    match walk.stage {
        RepairStageView::List { dir, depth } => reached_below(disk, dir, depth, link),
        RepairStageView::ReadLink { link: path } => path == link,
        RepairStageView::Probe { link: path, .. } => path == link,
        RepairStageView::Relink { link: path, .. } => path == link,
        RepairStageView::Done => false,
    }
}

/// Whether nothing is left to do for `link`: it is to be left alone, or it was replaced.
pub open spec fn handled(
    platform: Platform,
    disk: Disk,
    walk: WalkView,
    log: Map<PathView, PathView>,
    link: PathView,
) -> bool {
    target_on(platform, disk, walk.from, walk.to, link) matches Some(target) ==> log.contains_key(
        link,
    ) && log[link] == target
}

/// Whether what the walk is about to do, and what it did, is what the disk asks for.
pub open spec fn faithful(
    platform: Platform,
    disk: Disk,
    walk: WalkView,
    log: Map<PathView, PathView>,
) -> bool {
    &&& (match walk.stage {
        RepairStageView::Probe { link, target } => target_on(
            platform,
            disk,
            walk.from,
            walk.to,
            link,
        ) == Some(target),
        RepairStageView::Relink { link, target, .. } => target_on(
            platform,
            disk,
            walk.from,
            walk.to,
            link,
        ) == Some(target),
        _ => true,
    })
    &&& forall|link: PathView| #[trigger]
        log.contains_key(link) ==> target_on(platform, disk, walk.from, walk.to, link) == Some(
            log[link],
        )
}

proof fn lemma_reached_append(disk: Disk, a: Seq<TaskView>, b: Seq<TaskView>, link: PathView)
    ensures
        reached_in_tasks(disk, a + b, link) == (reached_in_tasks(disk, a, link)
            || reached_in_tasks(disk, b, link)),
    decreases a.len(),
{
    if a.len() == 0 {
        assert(a + b =~= b);
    } else {
        assert((a + b).skip(1) =~= a.skip(1) + b);
        lemma_reached_append(disk, a.skip(1), b, link);
    }
}

proof fn lemma_dir_tasks_reach(
    disk: Disk,
    dir: PathView,
    depth: usize,
    entries: Seq<FoundEntry>,
    link: PathView,
)
    ensures
        reached_in_tasks(disk, dir_tasks(dir, depth, entries), link) == reached_among(
            disk,
            dir,
            depth,
            entries,
            link,
        ),
    decreases entries.len(),
{
    if depth > MAX_DEPTH {
        lemma_nothing_below_the_limit(dir, depth, entries);
    } else if entries.len() > 0 {
        let first = entry_tasks(dir, depth, entries[0]);
        let rest = dir_tasks(dir, depth, entries.skip(1));
        lemma_dir_tasks_reach(disk, dir, depth, entries.skip(1), link);
        lemma_reached_append(disk, first, rest, link);
        if first.len() > 0 {
            assert(first.skip(1) =~= Seq::<TaskView>::empty());
            assert(!reached_in_tasks(disk, first.skip(1), link));
        }
        assert(reached_in_tasks(disk, first + rest, link) == (reached_in_tasks(disk, first, link)
            || reached_in_tasks(disk, rest, link)));
    }
}

/// One answer loses sight of no link.
proof fn lemma_step_covers(
    platform: Platform,
    disk: Disk,
    walk: WalkView,
    event: RepairEvent,
    log: Map<PathView, PathView>,
    link: PathView,
)
    requires
        repair_answers(walk.stage, event),
        truthful(disk, walk.stage, event),
        event != RepairEvent::Relinked(false),
        faithful(platform, disk, walk, log),
        handled(platform, disk, walk, log, link) || reached_in_stage(disk, walk, link)
            || reached_in_tasks(disk, walk.pending, link),
    ensures
        ({
            let next = repair_step(platform, walk, event);
            let after = match walk.stage {
                RepairStageView::Relink { link: path, target, .. } => log.insert(path, target),
                _ => log,
            };
            &&& faithful(platform, disk, next, after)
            &&& handled(platform, disk, next, after, link) || reached_in_stage(disk, next, link)
                || reached_in_tasks(disk, next.pending, link)
        }),
{
    let next = repair_step(platform, walk, event);
    let after = match walk.stage {
        RepairStageView::Relink { link: path, target, .. } => log.insert(path, target),
        _ => log,
    };
    assert(next.from == walk.from && next.to == walk.to);
    assert forall|l: PathView| #[trigger] after.contains_key(l) implies target_on(
        platform,
        disk,
        next.from,
        next.to,
        l,
    ) == Some(after[l]) by {
        assert(log.contains_key(l) || walk.stage is Relink);
    }
    if handled(platform, disk, walk, log, link) {
        assert(handled(platform, disk, next, after, link));
    }
    match (walk.stage, event) {
        (RepairStageView::List { dir, depth }, RepairEvent::Listed(entries)) => {
            lemma_dir_tasks_reach(disk, dir, depth, entries@, link);
            lemma_reached_append(disk, dir_tasks(dir, depth, entries@), walk.pending, link);
        },
        (RepairStageView::Relink { .. }, RepairEvent::Relinked(done)) => {
            assert(done);
        },
        _ => {},
    }
}

proof fn lemma_run_covers(
    platform: Platform,
    disk: Disk,
    from: PathView,
    to: PathView,
    roots: Seq<PathView>,
    events: Seq<RepairEvent>,
    link: PathView,
)
    requires
        truthful_run(platform, disk, walk_start(from, to, roots), events),
        nothing_failed(events),
        reached_in_tasks(disk, root_tasks(roots), link),
    ensures
        ({
            let walk = repair_run(platform, walk_start(from, to, roots), events);
            let log = replaced(platform, walk_start(from, to, roots), events);
            &&& walk.from == from && walk.to == to
            &&& faithful(platform, disk, walk, log)
            &&& handled(platform, disk, walk, log, link) || reached_in_stage(disk, walk, link)
                || reached_in_tasks(disk, walk.pending, link)
        }),
    decreases events.len(),
{
    let start = walk_start(from, to, roots);
    if events.len() > 0 {
        let init = events.drop_last();
        assert forall|i: int| 0 <= i < init.len() implies #[trigger] init[i]
            != RepairEvent::Relinked(false) by {
            assert(init[i] == events[i]);
        }
        assert(events.last() == events[events.len() - 1]);
        lemma_run_covers(platform, disk, from, to, roots, init, link);
        lemma_step_covers(
            platform,
            disk,
            repair_run(platform, start, init),
            events.last(),
            replaced(platform, start, init),
            link,
        );
    }
}

/// Where the walk comes to no link that is to be re-pointed, it re-points none.
proof fn lemma_nothing_below(
    platform: Platform,
    disk: Disk,
    from: PathView,
    to: PathView,
    dir: PathView,
    depth: usize,
    entries: Seq<FoundEntry>,
)
    requires
        forall|link: PathView| #[trigger]
            reached_among(disk, dir, depth, entries, link) ==> !repairable(
                platform,
                disk,
                from,
                to,
                link,
            ),
    ensures
        links_among(platform, disk, from, to, dir, depth, entries) == 0,
    decreases MAX_DEPTH + 1 - depth, entries.len(),
{
    if entries.len() > 0 && depth <= MAX_DEPTH {
        let path = entry_of(dir, entries[0].name@);
        let rest = entries.skip(1);
        assert forall|link: PathView| #[trigger]
            reached_among(disk, dir, depth, rest, link) implies !repairable(
            platform,
            disk,
            from,
            to,
            link,
        ) by {
            assert(reached_among(disk, dir, depth, entries, link));
        }
        lemma_nothing_below(platform, disk, from, to, dir, depth, rest);
        if entries[0].kind == Some(EntryKind::Symlink) {
            assert(reached_among(disk, dir, depth, entries, path));
        }
        if entries[0].kind == Some(EntryKind::Dir) && depth < MAX_DEPTH {
            let deeper = (depth + 1) as usize;
            let inner = (disk.entries)(path);
            assert forall|link: PathView| #[trigger]
                reached_among(disk, path, deeper, inner, link) implies !repairable(
                platform,
                disk,
                from,
                to,
                link,
            ) by {
                assert(reached_below(disk, path, deeper, link));
                assert(reached_among(disk, dir, depth, entries, link));
            }
            lemma_nothing_below(platform, disk, from, to, path, deeper, inner);
            assert(links_below(platform, disk, from, to, path, deeper) == 0);
        }
    }
}

proof fn lemma_nothing_in_tasks(
    platform: Platform,
    disk: Disk,
    from: PathView,
    to: PathView,
    tasks: Seq<TaskView>,
)
    requires
        forall|link: PathView| #[trigger]
            reached_in_tasks(disk, tasks, link) ==> !repairable(platform, disk, from, to, link),
    ensures
        links_in_tasks(platform, disk, from, to, tasks) == 0,
    decreases tasks.len(),
{
    if tasks.len() > 0 {
        assert forall|link: PathView| #[trigger]
            reached_in_tasks(disk, tasks.skip(1), link) implies !repairable(
            platform,
            disk,
            from,
            to,
            link,
        ) by {
            assert(reached_in_tasks(disk, tasks, link));
        }
        lemma_nothing_in_tasks(platform, disk, from, to, tasks.skip(1));
        match tasks[0] {
            TaskView::Dir { path, depth } => {
                let inner = (disk.entries)(path);
                assert forall|link: PathView| #[trigger]
                    reached_among(disk, path, depth, inner, link) implies !repairable(
                    platform,
                    disk,
                    from,
                    to,
                    link,
                ) by {
                    assert(reached_below(disk, path, depth, link));
                    assert(reached_in_tasks(disk, tasks, link));
                }
                lemma_nothing_below(platform, disk, from, to, path, depth, inner);
            },
            TaskView::Link { path } => {
                assert(reached_in_tasks(disk, tasks, path));
            },
        }
    }
}

/// Whether the names and the links on `disk` are such as text can hold.
pub open spec fn readable_disk(platform: Platform, disk: Disk) -> bool {
    &&& forall|dir: PathView, i: int|
        0 <= i < (disk.entries)(dir).len() ==> plain_os_name(
            platform,
            (#[trigger] (disk.entries)(dir)[i]).name@,
        )
    &&& forall|link: PathView| (#[trigger] (disk.raw)(link)) matches Some(raw) ==> valid_path(
        platform,
        raw,
    )
    &&& forall|link: PathView| valid_resolved(platform, #[trigger] (disk.resolved)(link))
}

proof fn lemma_entry_valid(platform: Platform, dir: PathView, name: OsTextView)
    requires
        valid_path(platform, dir),
        plain_os_name(platform, name),
    ensures
        valid_path(platform, entry_of(dir, name)),
{
    let names: PathView = seq![name_component(name)];
    assert forall|i: int| 0 <= i < names.len() implies #[trigger] well_placed(
        platform,
        names,
        i,
    ) by {}
    lemma_joined_valid(platform, dir, names);
    law_names_are_appended(platform, dir, names);
    assert(dir + names =~= dir.push(name_component(name)));
}

/// Every link that the walk comes to below a directory has the shape of a path.
proof fn lemma_reached_valid(
    platform: Platform,
    disk: Disk,
    dir: PathView,
    depth: usize,
    entries: Seq<FoundEntry>,
    link: PathView,
)
    requires
        readable_disk(platform, disk),
        valid_path(platform, dir),
        forall|i: int|
            0 <= i < entries.len() ==> plain_os_name(platform, (#[trigger] entries[i]).name@),
        reached_among(disk, dir, depth, entries, link),
    ensures
        valid_path(platform, link),
    decreases MAX_DEPTH + 1 - depth, entries.len(),
{
    let path = entry_of(dir, entries[0].name@);
    assert(plain_os_name(platform, entries[0].name@));
    lemma_entry_valid(platform, dir, entries[0].name@);
    if reached_among(disk, dir, depth, entries.skip(1), link) {
        assert forall|i: int| 0 <= i < entries.skip(1).len() implies plain_os_name(
            platform,
            (#[trigger] entries.skip(1)[i]).name@,
        ) by {
            assert(entries.skip(1)[i] == entries[i + 1]);
        }
        lemma_reached_valid(platform, disk, dir, depth, entries.skip(1), link);
    } else if !(entries[0].kind == Some(EntryKind::Symlink) && path == link) {
        let deeper = (depth + 1) as usize;
        assert(reached_below(disk, path, deeper, link));
        lemma_reached_valid(platform, disk, path, deeper, (disk.entries)(path), link);
    }
}

proof fn lemma_root_links_valid(
    platform: Platform,
    disk: Disk,
    tasks: Seq<TaskView>,
    link: PathView,
)
    requires
        readable_disk(platform, disk),
        forall|i: int|
            0 <= i < tasks.len() ==> (#[trigger] tasks[i] matches TaskView::Dir { path, .. }
                && valid_path(platform, path)),
        reached_in_tasks(disk, tasks, link),
    ensures
        valid_path(platform, link),
    decreases tasks.len(),
{
    assert(tasks[0] is Dir);
    if let TaskView::Dir { path, depth } = tasks[0] {
        if reached_below(disk, path, depth, link) {
            lemma_reached_valid(platform, disk, path, depth, (disk.entries)(path), link);
        } else {
            assert forall|i: int| 0 <= i < tasks.skip(1).len() implies (
            #[trigger] tasks.skip(1)[i] matches TaskView::Dir { path, .. } && valid_path(
                platform,
                path,
            )) by {
                assert(tasks.skip(1)[i] == tasks[i + 1]);
            }
            lemma_root_links_valid(platform, disk, tasks.skip(1), link);
        }
    }
}

/// The links that a disk shows to the walk are those of any disk with the same entries.
proof fn lemma_reached_by_entries(
    disk: Disk,
    later: Disk,
    dir: PathView,
    depth: usize,
    entries: Seq<FoundEntry>,
    link: PathView,
)
    requires
        later.entries == disk.entries,
    ensures
        reached_among(later, dir, depth, entries, link) == reached_among(
            disk,
            dir,
            depth,
            entries,
            link,
        ),
    decreases MAX_DEPTH + 1 - depth, entries.len(),
{
    if entries.len() > 0 && depth <= MAX_DEPTH {
        lemma_reached_by_entries(disk, later, dir, depth, entries.skip(1), link);
        if depth < MAX_DEPTH {
            let path = entry_of(dir, entries[0].name@);
            let deeper = (depth + 1) as usize;
            lemma_reached_by_entries(disk, later, path, deeper, (disk.entries)(path), link);
            assert(reached_below(later, path, deeper, link) == reached_below(
                disk,
                path,
                deeper,
                link,
            ));
        }
    }
}

proof fn lemma_tasks_by_entries(
    disk: Disk,
    later: Disk,
    tasks: Seq<TaskView>,
    link: PathView,
)
    requires
        later.entries == disk.entries,
    ensures
        reached_in_tasks(later, tasks, link) == reached_in_tasks(disk, tasks, link),
    decreases tasks.len(),
{
    if tasks.len() > 0 {
        lemma_tasks_by_entries(disk, later, tasks.skip(1), link);
        if let TaskView::Dir { path, depth } = tasks[0] {
            lemma_reached_by_entries(disk, later, path, depth, (disk.entries)(path), link);
        }
    }
}

/// Law: repairing twice changes nothing more. After a walk in which no link failed to be replaced,
/// another walk over the disk that it left behind re-points no link, provided that no link was
/// pointed at a place inside the old library.
pub proof fn law_second_repair_finds_nothing(
    platform: Platform,
    disk: Disk,
    later: Disk,
    from: PathView,
    to: PathView,
    roots: Seq<PathView>,
    first: Seq<RepairEvent>,
    second: Seq<RepairEvent>,
)
    requires
        readable_disk(platform, disk),
        forall|i: int| 0 <= i < roots.len() ==> valid_path(platform, #[trigger] roots[i]),
        valid_path(platform, to),
        absolute(platform, to),
        forall|link: PathView| #[trigger]
            reached_in_tasks(disk, root_tasks(roots), link) ==> (target_on(
                platform,
                disk,
                from,
                to,
                link,
            ) matches Some(target) ==> !path_starts_with(target, from)),
        truthful_run(platform, disk, walk_start(from, to, roots), first),
        repair_run(platform, walk_start(from, to, roots), first).stage is Done,
        nothing_failed(first),
        left_behind(disk, replaced(platform, walk_start(from, to, roots), first), later),
        truthful_run(platform, later, walk_start(from, to, roots), second),
        repair_run(platform, walk_start(from, to, roots), second).stage is Done,
    ensures
        repair_run(platform, walk_start(from, to, roots), second).repointed == 0,
{
    let log = replaced(platform, walk_start(from, to, roots), first);
    let tasks = root_tasks(roots);
    lemma_run(platform, disk, from, to, roots, first);
    assert forall|link: PathView| #[trigger]
        reached_in_tasks(later, tasks, link) implies !repairable(
        platform,
        later,
        from,
        to,
        link,
    ) by {
        lemma_tasks_by_entries(disk, later, tasks, link);
        lemma_run_covers(platform, disk, from, to, roots, first, link);
        assert forall|i: int| 0 <= i < tasks.len() implies (#[trigger] tasks[i] matches
            TaskView::Dir { path, .. } && valid_path(platform, path)) by {
            assert(valid_path(platform, roots[i]));
        }
        lemma_root_links_valid(platform, disk, tasks, link);
        if let Some(target) = target_on(platform, disk, from, to, link) {
            let raw = (disk.raw)(link)->0;
            assert(log.contains_key(link));
            let resolved = (disk.resolved)(link);
            law_repair_is_done_once(
                platform,
                link,
                resolved,
                raw,
                from,
                to,
                (later.resolved)(link),
            );
            assert((later.raw)(link) == Some(target));
        } else {
            assert(!log.contains_key(link));
            assert((later.raw)(link) == (disk.raw)(link));
            assert((later.resolved)(link) == (disk.resolved)(link));
        }
    }
    lemma_nothing_in_tasks(platform, later, from, to, tasks);
    law_repair_reports_every_link(platform, later, from, to, roots, second);
}

// ---------------------------------------------------------------------------------------
// That the walk ends
// ---------------------------------------------------------------------------------------

/// How many answers it takes at most to visit a directory and everything below it.
pub open spec fn work_below(disk: Disk, dir: PathView, depth: usize) -> nat
    decreases MAX_DEPTH + 1 - depth, (disk.entries)(dir).len(), 1int,
{
    1 + work_among(disk, dir, depth, (disk.entries)(dir))
}

/// How many answers it takes at most to visit the entries of a directory.
pub open spec fn work_among(
    disk: Disk,
    dir: PathView,
    depth: usize,
    entries: Seq<FoundEntry>,
) -> nat
    decreases MAX_DEPTH + 1 - depth, entries.len(), 0int,
{
    if entries.len() == 0 || depth > MAX_DEPTH {
        0
    } else {
        let first: nat = match entries[0].kind {
            Some(EntryKind::Symlink) => 3,
            Some(EntryKind::Dir) => if depth < MAX_DEPTH {
                work_below(disk, entry_of(dir, entries[0].name@), (depth + 1) as usize)
            } else {
                0
            },
            _ => 0,
        };
        first + work_among(disk, dir, depth, entries.skip(1))
    }
}

/// How many answers a list of visits takes at most.
pub open spec fn work_in_tasks(disk: Disk, tasks: Seq<TaskView>) -> nat
    decreases tasks.len(),
{
    if tasks.len() == 0 {
        0
    } else {
        (match tasks[0] {
            TaskView::Dir { path, depth } => work_below(disk, path, depth),
            TaskView::Link { .. } => 3,
        }) + work_in_tasks(disk, tasks.skip(1))
    }
}

/// How many answers the walk takes at most until it is over.
pub open spec fn work_left(disk: Disk, walk: WalkView) -> nat {
    (match walk.stage {
        RepairStageView::List { dir, depth } => work_below(disk, dir, depth),
        RepairStageView::ReadLink { .. } => 3nat,
        RepairStageView::Probe { .. } => 2nat,
        RepairStageView::Relink { .. } => 1nat,
        RepairStageView::Done => 0nat,
    }) + work_in_tasks(disk, walk.pending)
}

proof fn lemma_work_append(disk: Disk, a: Seq<TaskView>, b: Seq<TaskView>)
    ensures
        work_in_tasks(disk, a + b) == work_in_tasks(disk, a) + work_in_tasks(disk, b),
    decreases a.len(),
{
    if a.len() == 0 {
        assert(a + b =~= b);
    } else {
        assert((a + b).skip(1) =~= a.skip(1) + b);
        lemma_work_append(disk, a.skip(1), b);
    }
}

proof fn lemma_dir_tasks_work(
    disk: Disk,
    dir: PathView,
    depth: usize,
    entries: Seq<FoundEntry>,
)
    requires
        depth <= MAX_DEPTH,
    ensures
        work_in_tasks(disk, dir_tasks(dir, depth, entries)) == work_among(
            disk,
            dir,
            depth,
            entries,
        ),
    decreases entries.len(),
{
    if entries.len() > 0 {
        let first = entry_tasks(dir, depth, entries[0]);
        let rest = dir_tasks(dir, depth, entries.skip(1));
        lemma_dir_tasks_work(disk, dir, depth, entries.skip(1));
        lemma_work_append(disk, first, rest);
        if first.len() > 0 {
            assert(first.skip(1) =~= Seq::<TaskView>::empty());
            assert(work_in_tasks(disk, first.skip(1)) == 0);
        }
    }
}

/// Law: on a disk that does not change, every answer leaves less to do, so that the walk ends:
/// after as many answers, at most, as the work that its beginning holds.
pub proof fn law_walk_ends(platform: Platform, disk: Disk, walk: WalkView, event: RepairEvent)
    requires
        shallow(walk),
        repair_answers(walk.stage, event),
        truthful(disk, walk.stage, event),
    ensures
        work_left(disk, repair_step(platform, walk, event)) < work_left(disk, walk),
{
    match (walk.stage, event) {
        (RepairStageView::List { dir, depth }, RepairEvent::Listed(entries)) => {
            let given = dir_tasks(dir, depth, entries@);
            lemma_dir_tasks_work(disk, dir, depth, entries@);
            lemma_work_append(disk, given, walk.pending);
        },
        _ => {},
    }
}

} // verus!
