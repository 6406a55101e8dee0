//! Where links lead, and what each answer leads to in the walk that re-points them.

use vstd::prelude::*;

use crate::path_laws::{
    law_lexical_normal_form, law_lexical_of_rooted_paths, lemma_lexical_append, valid_path,
    well_placed,
};
use crate::paths::{
    absolute, drive_at, entry_of, joined, lexical, parent_of, path_starts_with, same_path,
    verbatim_text, Component, PathView, Platform, RepoPath,
};
use crate::relocation_repair::{
    dir_tasks, dotted_len, entry_tasks, lemma_dotted_len_bounds, link_destination, repair_answers,
    repair_step, repointed_target, walk_start, with_plain_drive, FoundEntry,
    RepairEvent, RepairStageView, ResolvedLink, ResolvedView, TaskView, WalkView,
};
use crate::target::EntryKind;

verus! {

// ---------------------------------------------------------------------------------------
// Where a link leads
// ---------------------------------------------------------------------------------------

/// Law: what is left of a target behind its last `..` holds none, and what comes before ends with
/// one.
pub proof fn law_targets_are_cut_behind_their_last_dots(raw: PathView)
    ensures
        0 <= dotted_len(raw) <= raw.len(),
        dotted_len(raw) > 0 ==> raw[dotted_len(raw) - 1] is ParentDir,
        forall|i: int| dotted_len(raw) <= i < raw.len() ==> !(#[trigger] raw[i] is ParentDir),
    decreases raw.len(),
{
    lemma_dotted_len_bounds(raw);
    if raw.len() > 0 && !(raw.last() is ParentDir) {
        let init = raw.drop_last();
        law_targets_are_cut_behind_their_last_dots(init);
        assert forall|i: int| dotted_len(raw) <= i < raw.len() implies !(
        #[trigger] raw[i] is ParentDir) by {
            if i < init.len() {
                assert(init[i] == raw[i]);
            }
        }
    }
}

/// Law: only a verbatim drive is written in another way, as the plain drive that it is; everything
/// behind it stays.
pub proof fn law_verbatim_drives_are_plain_drives(path: PathView)
    ensures
        with_plain_drive(path).len() == path.len(),
        forall|i: int| 0 < i < path.len() ==> #[trigger] with_plain_drive(path)[i] == path[i],
        path.len() > 0 && path[0] is Prefix && !verbatim_text(path[0]->Prefix_0)
            ==> with_plain_drive(path) == path,
        path.len() > 0 && !(path[0] is Prefix) ==> with_plain_drive(path) == path,
        path.len() > 0 ==> (path[0] matches Component::Prefix(name) ==> (verbatim_text(name)
            && name.len() == 6 && drive_at(name, 4) ==> with_plain_drive(path)[0]
            == Component::Prefix(seq![name[4], name[5]]))),
{
    if path.len() > 0 {
        if let Component::Prefix(name) = path[0] {
            if name.len() == 6 {
                assert(name.skip(4) =~= seq![name[4], name[5]]);
            }
        }
    }
}

/// Law: a link with an absolute target leads to that target, wherever the link itself lies and
/// whatever the disk says of it.
pub proof fn law_absolute_links_lead_to_their_targets(
    platform: Platform,
    link: PathView,
    resolved: ResolvedView,
    raw: PathView,
    from: PathView,
)
    requires
        absolute(platform, raw),
    ensures
        link_destination(platform, link, resolved, raw, from) == raw,
{
}

/// Law: a link with a relative target that stays below the old library, as read from the directory
/// that holds the link, leads there whatever the disk says. Any other goes by the disk: to where
/// the target leads up to its last `..`, and on from there by the rest.
pub proof fn law_relative_links_are_followed(
    platform: Platform,
    link: PathView,
    resolved: ResolvedView,
    raw: PathView,
    from: PathView,
)
    requires
        !absolute(platform, raw),
        parent_of(link) is Some,
    ensures
        ({
            let seen = joined(platform, parent_of(link)->0, raw);
            let destination = link_destination(platform, link, resolved, raw, from);
            let stays = path_starts_with(seen, from) && path_starts_with(lexical(seen), from);
            &&& stays ==> destination == seen
            &&& !stays ==> (resolved.dotted matches Some(dir) ==> destination == joined(
                platform,
                with_plain_drive(dir),
                raw.skip(dotted_len(raw)),
            ))
            &&& !stays && resolved.dotted is None ==> (resolved.dir matches Some(dir)
                ==> destination == lexical(joined(platform, with_plain_drive(dir), raw)))
            &&& !stays && resolved.dotted is None && resolved.dir is None ==> destination
                == lexical(seen)
        }),
{
}

/// Law: on a disk without links on the way, on every platform but Windows, a relative link leads
/// to where its text says: with `.` and `..` carried out from the directory that holds the link.
pub proof fn law_without_links_the_text_says_where_a_link_leads(
    platform: Platform,
    link: PathView,
    resolved: ResolvedView,
    raw: PathView,
    from: PathView,
)
    requires
        platform != Platform::Windows,
        valid_path(platform, link),
        valid_path(platform, raw),
        parent_of(link) matches Some(dir) && absolute(platform, dir),
        !absolute(platform, raw),
        resolved.dir matches Some(dir) ==> dir == lexical(parent_of(link)->0),
        resolved.dotted matches Some(dir) ==> dir == lexical(
            joined(platform, parent_of(link)->0, raw.take(dotted_len(raw))),
        ),
    ensures
        lexical(link_destination(platform, link, resolved, raw, from)) == lexical(
            joined(platform, parent_of(link)->0, raw),
        ),
{
    let dir = parent_of(link)->0;
    let seen = joined(platform, dir, raw);
    let k = dotted_len(raw);
    let front = raw.take(k);
    let rest = raw.skip(k);
    law_lexical_normal_form(seen);
    law_targets_are_cut_behind_their_last_dots(raw);
    assert(well_placed(platform, link, 0));
    assert(link[0] == dir[0]);
    if raw.len() > 0 {
        assert(well_placed(platform, raw, 0));
    }
    if let Some(actual) = resolved.dir {
        lemma_read_from_normal_form(platform, dir, raw);
        law_lexical_normal_form(joined(platform, actual, raw));
    }
    if let Some(actual) = resolved.dotted {
        let head = joined(platform, dir, front);
        if k > 0 {
            assert(front[0] == raw[0]);
            if rest.len() > 0 {
                assert(well_placed(platform, raw, k));
                assert(rest[0] == raw[k]);
            }
            assert(!(rest.len() > 0 && rest[0] is CurDir));
            assert(!(rest.len() > 0 && rest[0] is RootDir));
            if raw[0] is CurDir {
                assert(raw.skip(1) =~= front.skip(1) + rest);
            } else {
                assert(raw =~= front + rest);
            }
            assert(seen =~= head + rest);
            assert(head[0] == dir[0]);
            lemma_read_from_normal_form(platform, head, rest);
            assert(joined(platform, head, rest) =~= head + rest);
        } else {
            assert(front =~= PathView::empty());
            assert(rest =~= raw);
            assert(head =~= dir);
            lemma_read_from_normal_form(platform, dir, raw);
        }
    }
}

/// A tail that is read from an absolute path, or from its normal form, comes to the same.
proof fn lemma_read_from_normal_form(platform: Platform, path: PathView, tail: PathView)
    requires
        platform != Platform::Windows,
        path.len() > 0,
        path[0] is RootDir,
        !(tail.len() > 0 && tail[0] is RootDir),
        !(tail.len() > 0 && tail[0] is Prefix),
    ensures
        lexical(joined(platform, lexical(path), tail)) == lexical(joined(platform, path, tail)),
        lexical(path).len() > 0,
        lexical(path)[0] is RootDir,
        with_plain_drive(lexical(path)) == lexical(path),
{
    law_lexical_of_rooted_paths(path);
    law_lexical_normal_form(path);
    let bare = if tail.len() > 0 && tail[0] is CurDir {
        tail.skip(1)
    } else {
        tail
    };
    lemma_lexical_append(lexical(path), path, bare);
}

/// Law: a link is re-pointed if and only if it leads into the old library and does not point to the
/// new place already. Its new target is the place of the old one, seen from the new library.
pub proof fn law_links_are_re_pointed_to_the_matching_place(
    platform: Platform,
    link: PathView,
    resolved: ResolvedView,
    raw: PathView,
    from: PathView,
    to: PathView,
)
    ensures
        ({
            let destination = link_destination(platform, link, resolved, raw, from);
            let place = joined(platform, to, destination.skip(from.len() as int));
            let target = repointed_target(platform, link, resolved, raw, from, to);
            &&& target is Some <==> path_starts_with(destination, from) && !same_path(place, raw)
            &&& target is Some ==> target == Some(place)
        }),
{
}

// ---------------------------------------------------------------------------------------
// The walk
// ---------------------------------------------------------------------------------------

/// Law: every stage of the walk waits for the one kind of answer that reports on its work, and
/// nothing answers once the walk is over.
pub proof fn law_every_stage_of_the_walk_has_its_answer(stage: RepairStageView, event: RepairEvent)
    ensures
        repair_answers(stage, event) <==> (match event {
            RepairEvent::Listed(_) => stage is List,
            RepairEvent::LinkRead { .. } => stage is ReadLink,
            RepairEvent::Probed { .. } => stage is Probe,
            RepairEvent::Relinked(_) => stage is Relink,
        }),
{
}

/// Whether `after` is at the first of `visits`, with the others before it and `repointed` links
/// done; the walk is over where there is none.
pub open spec fn at_first_visit(
    walk: WalkView,
    visits: Seq<TaskView>,
    repointed: int,
    after: WalkView,
) -> bool {
    &&& after.from == walk.from
    &&& after.to == walk.to
    &&& after.repointed == repointed
    &&& visits.len() == 0 ==> after.stage is Done && after.pending.len() == 0
    &&& visits.len() > 0 ==> {
        &&& after.pending == visits.skip(1)
        &&& visits[0] matches TaskView::Dir { path, depth } ==> after.stage == (
        RepairStageView::List { dir: path, depth })
        &&& visits[0] matches TaskView::Link { path } ==> after.stage == (
        RepairStageView::ReadLink { link: path })
    }
}

/// Law: the walk begins with the first root, at no depth, with all other roots behind it in order
/// and nothing done.
pub proof fn law_the_walk_begins_with_the_roots(
    from: PathView,
    to: PathView,
    roots: Seq<PathView>,
)
    ensures
        ({
            let start = walk_start(from, to, roots);
            &&& start.from == from
            &&& start.to == to
            &&& start.repointed == 0
            &&& roots.len() == 0 ==> start.stage is Done && start.pending.len() == 0
            &&& roots.len() > 0 ==> {
                &&& start.stage == (RepairStageView::List { dir: roots[0], depth: 0 })
                &&& start.pending.len() == roots.len() - 1
                &&& forall|i: int|
                    0 <= i < start.pending.len() ==> #[trigger] start.pending[i] == (
                    TaskView::Dir { path: roots[i + 1], depth: 0 })
            }
        }),
{
}

/// Law: of the entries of a directory the links are visited, and the directories are gone into as
/// long as that leads no more than four levels below the root; everything else is passed over. A
/// directory further down gives nothing.
pub proof fn law_what_an_entry_gives(dir: PathView, depth: usize, entry: FoundEntry)
    ensures
        ({
            let given = dir_tasks(dir, depth, seq![entry]);
            let path = entry_of(dir, entry.name@);
            &&& depth <= 4 && entry.kind == Some(EntryKind::Symlink) ==> given == seq![
                TaskView::Link { path },
            ]
            &&& depth < 4 && entry.kind == Some(EntryKind::Dir) ==> given == seq![
                TaskView::Dir { path, depth: (depth + 1) as usize },
            ]
            &&& depth >= 4 && entry.kind == Some(EntryKind::Dir) ==> given.len() == 0
            &&& entry.kind == Some(EntryKind::File) || entry.kind == Some(EntryKind::Other)
                || entry.kind is None ==> given.len() == 0
            &&& depth > 4 ==> given.len() == 0
        }),
{
    let one = seq![entry];
    assert(one.skip(1) =~= Seq::<FoundEntry>::empty());
    assert(dir_tasks(dir, depth, one.skip(1)) =~= Seq::<TaskView>::empty());
    assert(dir_tasks(dir, depth, one) =~= entry_tasks(dir, depth, entry));
}

/// Law: the entries of a directory are visited in order: those of one list come before those of the
/// list behind it, and none gets lost.
pub proof fn law_entries_are_visited_in_order(
    dir: PathView,
    depth: usize,
    a: Seq<FoundEntry>,
    b: Seq<FoundEntry>,
)
    ensures
        dir_tasks(dir, depth, a + b) == dir_tasks(dir, depth, a) + dir_tasks(dir, depth, b),
    decreases a.len(),
{
    if a.len() == 0 {
        assert(a + b =~= b);
        assert(dir_tasks(dir, depth, a) + dir_tasks(dir, depth, b) =~= dir_tasks(dir, depth, b));
    } else {
        assert((a + b).skip(1) =~= a.skip(1) + b);
        law_entries_are_visited_in_order(dir, depth, a.skip(1), b);
        assert(dir_tasks(dir, depth, a + b) =~= dir_tasks(dir, depth, a) + dir_tasks(
            dir,
            depth,
            b,
        ));
    }
}

/// Law: what a directory gives is visited before everything that was waiting.
pub proof fn law_listing_puts_its_entries_first(
    platform: Platform,
    walk: WalkView,
    dir: PathView,
    depth: usize,
    entries: Vec<FoundEntry>,
)
    requires
        walk.stage == (RepairStageView::List { dir, depth }),
    ensures
        at_first_visit(
            walk,
            dir_tasks(dir, depth, entries@) + walk.pending,
            walk.repointed as int,
            repair_step(platform, walk, RepairEvent::Listed(entries)),
        ),
{
}

/// Law: a link that was read is looked at further if and only if it is to be re-pointed; one that
/// is not, or that cannot be read, is passed over, and the walk goes on.
pub proof fn law_links_are_looked_at_only_where_they_change(
    platform: Platform,
    walk: WalkView,
    link: PathView,
    raw: Option<RepoPath>,
    resolved: ResolvedLink,
)
    requires
        walk.stage == (RepairStageView::ReadLink { link }),
    ensures
        ({
            let event = RepairEvent::LinkRead { raw, resolved };
            let after = repair_step(platform, walk, event);
            let target = if raw is Some {
                repointed_target(platform, link, resolved@, raw->0@, walk.from, walk.to)
            } else {
                None
            };
            &&& target matches Some(place) ==> after == (WalkView {
                stage: RepairStageView::Probe { link, target: place },
                ..walk
            })
            &&& target is None ==> at_first_visit(
                walk,
                walk.pending,
                walk.repointed as int,
                after,
            )
        }),
{
}

/// Law: a link keeps its kind. One that still leads somewhere becomes a link to a directory if and
/// only if it leads to a directory, whatever its new target is; one that leads nowhere takes the
/// kind of its new target. Link and target stay what they were.
pub proof fn law_links_keep_their_kind(
    platform: Platform,
    walk: WalkView,
    link: PathView,
    target: PathView,
    resolves_to_dir: Option<bool>,
    target_is_dir: bool,
)
    requires
        walk.stage == (RepairStageView::Probe { link, target }),
    ensures
        ({
            let event = RepairEvent::Probed { resolves_to_dir, target_is_dir };
            let after = repair_step(platform, walk, event);
            &&& after.stage matches RepairStageView::Relink { link: l, target: t, dir_link } && {
                &&& l == link
                &&& t == target
                &&& resolves_to_dir is Some ==> dir_link == resolves_to_dir->0
                &&& resolves_to_dir is None ==> dir_link == target_is_dir
            }
            &&& after == (WalkView { stage: after.stage, ..walk })
        }),
{
}

/// Law: for a link that leads somewhere the new target has no say in its kind.
pub proof fn law_the_new_target_decides_only_for_dead_links(
    platform: Platform,
    walk: WalkView,
    resolves_to_dir: Option<bool>,
    target_is_dir: bool,
)
    requires
        walk.stage is Probe,
        resolves_to_dir is Some,
    ensures
        repair_step(platform, walk, RepairEvent::Probed { resolves_to_dir, target_is_dir })
            == repair_step(
            platform,
            walk,
            RepairEvent::Probed { resolves_to_dir, target_is_dir: !target_is_dir },
        ),
{
}

/// Law: a link is counted if and only if it was replaced, and the walk goes on either way.
pub proof fn law_links_are_counted_when_they_are_replaced(
    platform: Platform,
    walk: WalkView,
    done: bool,
)
    requires
        walk.stage is Relink,
        walk.repointed < usize::MAX,
    ensures
        at_first_visit(
            walk,
            walk.pending,
            if done {
                walk.repointed + 1
            } else {
                walk.repointed as int
            },
            repair_step(platform, walk, RepairEvent::Relinked(done)),
        ),
{
}

} // verus!
