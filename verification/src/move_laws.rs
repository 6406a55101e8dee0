//! What each answer leads to in a move: when it is settled, when it goes on, and when the session
//! falls back to the source.

use vstd::prelude::*;

use crate::central_repo::{normalized, same_dir, ConfigView, PathError};
use crate::environment::EnvironmentView;
use crate::migration::{
    answers, copy_plan, copy_step, debug_text, migration_start, migration_step, rebased_link,
    CopyFailure, CopyStepView, MigrationEvent, MigrationStage, MigrationView, OutcomeView,
    PlanView, StepView, TurnView, WalkItem,
};
use crate::path_laws::law_same_path_reflexive;
use crate::paths::{
    absolute, components_of, joined, parent_of, path_starts_with, same_path, text_of, PathView,
    Platform, RepoPath,
};
use crate::places::{parent_text, PlaceView};
use crate::state::StateView;
use crate::target::{user_data_in, EntryKind, TargetContents};
use crate::text_laws::law_codes_are_noted_once;

verus! {

/// Law: every stage of a move waits for the one kind of answer that reports on its work.
pub proof fn law_every_stage_of_a_move_has_its_answer(stage: MigrationStage, event: MigrationEvent)
    ensures
        answers(stage, event) <==> stage == (match event {
            MigrationEvent::Compared { .. } => MigrationStage::Compare,
            MigrationEvent::Inspected(_) => MigrationStage::Inspect,
            MigrationEvent::ParentCreated(_) => MigrationStage::CreateParent,
            MigrationEvent::Renamed(_) => MigrationStage::Rename,
            MigrationEvent::Copied(_) => MigrationStage::Copy,
        }),
{
}

/// Whether `after` is `before` with one more note for the log, and with the user told that a move
/// is still to be done.
pub open spec fn told_of_failure(before: StateView, after: StateView, note: Seq<char>) -> bool {
    &&& after == (StateView {
        startup_errors: after.startup_errors,
        startup_warnings: after.startup_warnings,
        ..before
    })
    &&& after.startup_errors == before.startup_errors.push(note)
    &&& after.startup_warnings.contains("migration_incomplete"@)
    &&& before.startup_warnings.contains("migration_incomplete"@) ==> after.startup_warnings
        == before.startup_warnings
    &&& !before.startup_warnings.contains("migration_incomplete"@) ==> after.startup_warnings
        == before.startup_warnings.push("migration_incomplete"@)
}

/// Whether a step gives the move up for this launch, with `note` for the log: the session is to
/// run at the source, and the settings keep the move.
pub open spec fn falls_back(
    migration: MigrationView,
    state: StateView,
    config: ConfigView,
    step: StepView,
    note: Seq<char>,
) -> bool {
    &&& step.turn == TurnView::Finished(OutcomeView::UseSource(migration.source))
    &&& step.config == config
    &&& told_of_failure(state, step.state, note)
}

/// Whether a step goes on with `stage` and changes nothing else.
pub open spec fn moves_on(
    migration: MigrationView,
    stage: MigrationStage,
    state: StateView,
    config: ConfigView,
    step: StepView,
) -> bool {
    &&& step.turn == TurnView::Continue(
        MigrationView { stage, source: migration.source, target: migration.target },
    )
    &&& step.state == state
    &&& step.config == config
}

/// Whether a step ends the move for good: nothing is pending any more, and the requested path is
/// what it was.
pub open spec fn ends_for_good(config: ConfigView, step: StepView) -> bool {
    &&& step.turn == TurnView::Finished(OutcomeView::Proceed)
    &&& step.config.pending_migration_from is None
    &&& step.config.repo_path == config.repo_path
}

/// Law: looking at both ends settles a move if and only if there is nothing to move: the source is
/// gone, or source and target are one directory, by path or by canonical form. A target inside the
/// source is refused. In all other cases the target is looked at next, whatever is there already,
/// and nothing has changed.
pub proof fn law_comparing_settles_only_what_needs_no_move(
    platform: Platform,
    lock_file_name: Seq<char>,
    migration: MigrationView,
    source_exists: bool,
    canonical_source: Option<RepoPath>,
    canonical_target: Option<RepoPath>,
    state: StateView,
    config: ConfigView,
)
    ensures
        ({
            let event = MigrationEvent::Compared {
                source_exists,
                canonical_source,
                canonical_target,
            };
            let step = migration_step(platform, lock_file_name, migration, event, state, config);
            let one_path = same_path(migration.source, migration.target.path);
            let one_directory = canonical_source is Some && canonical_target is Some && same_path(
                canonical_source->0@,
                canonical_target->0@,
            );
            let idle = !source_exists || one_path || one_directory;
            let nested = path_starts_with(migration.target.path, migration.source);
            &&& idle <==> ends_for_good(config, step)
            &&& idle ==> step.state == state
            &&& !idle && nested <==> falls_back(
                migration,
                state,
                config,
                step,
                "central repo: migration target "@ + migration.target.text + " is inside source "@
                    + text_of(platform, migration.source) + "; keeping data at the source"@,
            )
            &&& !idle && !nested <==> moves_on(
                migration,
                MigrationStage::Inspect,
                state,
                config,
                step,
            )
        }),
{
    law_codes_are_noted_once(state.startup_warnings, "migration_incomplete"@);
}

/// Law: of two paths neither of which resolves, or of which only one does, the canonical forms say
/// nothing, and equal paths are one directory whatever they say.
pub proof fn law_directories_are_one_by_path_or_canonical_form(
    a: PathView,
    b: PathView,
    canonical_a: Option<PathView>,
    canonical_b: Option<PathView>,
)
    ensures
        same_dir(a, a, canonical_a, canonical_b),
        canonical_a is None || canonical_b is None ==> (same_dir(a, b, canonical_a, canonical_b)
            <==> same_path(a, b)),
        canonical_a is Some && canonical_b is Some ==> (same_dir(a, b, canonical_a, canonical_b)
            <==> same_path(a, b) || same_path(canonical_a->0, canonical_b->0)),
{
    law_same_path_reflexive(a);
}

/// Law: a move goes into a target if and only if the target was seen to hold nothing that the user
/// would miss; the parent of the target is seen to first, where it has one. A target that holds
/// data, or that cannot be looked at, leaves the session at the source.
pub proof fn law_only_empty_targets_are_moved_into(
    platform: Platform,
    lock_file_name: Seq<char>,
    migration: MigrationView,
    contents: TargetContents,
    state: StateView,
    config: ConfigView,
)
    ensures
        ({
            let event = MigrationEvent::Inspected(contents);
            let step = migration_step(platform, lock_file_name, migration, event, state, config);
            let source = text_of(platform, migration.source);
            let target = migration.target.text;
            match user_data_in(lock_file_name, contents) {
                Ok(true) => falls_back(
                    migration,
                    state,
                    config,
                    step,
                    "central repo: migration target "@ + target
                        + " is not empty; keeping data at source "@ + source,
                ),
                Ok(false) => {
                    &&& parent_of(migration.target.path) is Some ==> moves_on(
                        migration,
                        MigrationStage::CreateParent,
                        state,
                        config,
                        step,
                    )
                    &&& parent_of(migration.target.path) is None ==> moves_on(
                        migration,
                        MigrationStage::Rename,
                        state,
                        config,
                        step,
                    )
                },
                Err(err) => falls_back(
                    migration,
                    state,
                    config,
                    step,
                    "central repo: cannot inspect migration target "@ + target + " ("@ + err@
                        + "); keeping data at source "@ + source,
                ),
            }
        }),
{
    law_codes_are_noted_once(state.startup_warnings, "migration_incomplete"@);
}

/// Law: a parent that could be created leads to the rename; one that could not leaves the session
/// at the source.
pub proof fn law_the_parent_comes_before_the_rename(
    platform: Platform,
    lock_file_name: Seq<char>,
    migration: MigrationView,
    result: Result<(), String>,
    state: StateView,
    config: ConfigView,
)
    ensures
        ({
            let event = MigrationEvent::ParentCreated(result);
            let step = migration_step(platform, lock_file_name, migration, event, state, config);
            &&& result is Ok <==> moves_on(
                migration,
                MigrationStage::Rename,
                state,
                config,
                step,
            )
            &&& result matches Err(err) ==> falls_back(
                migration,
                state,
                config,
                step,
                "central repo: cannot create migration target parent "@ + parent_text(
                    platform,
                    migration.target,
                ) + " ("@ + err@ + "); keeping data at source "@ + text_of(
                    platform,
                    migration.source,
                ),
            )
        }),
{
    law_codes_are_noted_once(state.startup_warnings, "migration_incomplete"@);
}

/// Law: a move is recorded, and ends for good, if and only if the data arrived: by a rename, or,
/// where that was refused, by a copy. A rename that was refused leads to the copy and changes
/// nothing; a copy that failed leaves the session at the source.
pub proof fn law_moves_end_when_the_data_arrived(
    platform: Platform,
    lock_file_name: Seq<char>,
    migration: MigrationView,
    renamed: bool,
    copied: Result<(), String>,
    state: StateView,
    config: ConfigView,
)
    ensures
        ({
            let rename = migration_step(
                platform,
                lock_file_name,
                migration,
                MigrationEvent::Renamed(renamed),
                state,
                config,
            );
            let arrived = StateView {
                last_migration: Some((migration.source, migration.target.path)),
                ..state
            };
            &&& renamed <==> ends_for_good(config, rename)
            &&& renamed ==> rename.state == arrived
            &&& !renamed <==> moves_on(migration, MigrationStage::Copy, state, config, rename)
        }),
        ({
            let copy = migration_step(
                platform,
                lock_file_name,
                migration,
                MigrationEvent::Copied(copied),
                state,
                config,
            );
            let arrived = StateView {
                last_migration: Some((migration.source, migration.target.path)),
                ..state
            };
            &&& copied is Ok <==> ends_for_good(config, copy)
            &&& copied is Ok ==> copy.state == arrived
            &&& copied matches Err(err) ==> falls_back(
                migration,
                state,
                config,
                copy,
                "central repo: migration copy from "@ + text_of(platform, migration.source)
                    + " to "@ + migration.target.text + " failed ("@ + err@
                    + "); keeping data at source"@,
            )
        }),
{
    law_codes_are_noted_once(state.startup_warnings, "migration_incomplete"@);
}

/// Law: a move begins if and only if the settings have one pending whose source can be read as a
/// path; it goes from there to the requested path. A source that cannot be read is dropped with a
/// note, and the user is told nothing. Without a pending move nothing happens.
pub proof fn law_moves_begin_where_one_is_pending(
    env: EnvironmentView,
    target: PlaceView,
    state: StateView,
    config: ConfigView,
)
    ensures
        ({
            let step = migration_start(env, target, state, config);
            match config.pending_migration_from {
                None => step == (StepView {
                    turn: TurnView::Finished(OutcomeView::Proceed),
                    state,
                    config,
                }),
                Some(raw) => match normalized(env, raw) {
                    Ok(source) => step == (StepView {
                        turn: TurnView::Continue(
                            MigrationView { stage: MigrationStage::Compare, source, target },
                        ),
                        state,
                        config,
                    }),
                    Err(err) => {
                        &&& ends_for_good(config, step)
                        &&& step.state == (StateView {
                            startup_errors: state.startup_errors.push(
                                "central repo: pending migration source "@ + debug_text(raw)
                                    + " is invalid ("@ + (match err {
                                    PathError::Empty => "Path cannot be empty"@,
                                    PathError::NoHome => "Cannot determine home directory"@,
                                    PathError::NotAbsolute =>
                                    "Central repository path must be absolute"@,
                                }) + "); dropping it"@,
                            ),
                            ..state
                        })
                    },
                },
            }
        }),
{
}

// ---------------------------------------------------------------------------------------
// Copying
// ---------------------------------------------------------------------------------------

/// Law: an entry has a step if and only if it lies below the source or is the source itself. Only
/// the lock directly below the source is skipped. Everything else lands where it lay, seen from the
/// target: a link as a link, a directory as a directory, and anything else as a file whose parent
/// is seen to first.
pub proof fn law_every_entry_has_its_place(
    platform: Platform,
    path: PathView,
    kind: EntryKind,
    source: PathView,
    target: PathView,
    lock_file_name: Seq<char>,
)
    ensures
        ({
            let step = copy_step(platform, path, kind, source, target, lock_file_name);
            let relative = path.skip(source.len() as int);
            let place = joined(platform, target, relative);
            let is_lock = same_path(relative, components_of(platform, lock_file_name));
            &&& step is None <==> !path_starts_with(path, source)
            &&& step matches Some(done) ==> {
                &&& done is Skip <==> is_lock
                &&& !is_lock && kind == EntryKind::Symlink ==> done == (CopyStepView::Link {
                    destination: place,
                })
                &&& !is_lock && kind == EntryKind::Dir ==> done == (CopyStepView::Directory {
                    destination: place,
                })
                &&& !is_lock && (kind == EntryKind::File || kind == EntryKind::Other) ==> done == (
                CopyStepView::File { destination: place, parent: parent_of(place) })
            }
        }),
{
}

/// Law: a plan that stops does so at the first item of the walk that has no step, and says why:
/// the walk failed there, or it left the tree.
pub proof fn law_plans_stop_at_the_first_obstacle(
    platform: Platform,
    walk: Seq<WalkItem>,
    source: PathView,
    target: PathView,
    lock_file_name: Seq<char>,
    plan: PlanView,
)
    requires
        plan == copy_plan(platform, walk, source, target, lock_file_name),
    ensures
        plan.failure is Some <==> exists|i: int|
            0 <= i < walk.len() && obstacle(#[trigger] walk[i], source) is Some,
        plan.failure is Some ==> plan.steps.len() < walk.len() && plan.failure == obstacle(
            walk[plan.steps.len() as int],
            source,
        ),
        plan.failure is None ==> plan.steps.len() == walk.len(),
        forall|i: int|
            0 <= i < plan.steps.len() ==> obstacle(#[trigger] walk[i], source) is None,
    decreases walk.len(),
{
    if walk.len() > 0 {
        let init = walk.drop_last();
        let before = copy_plan(platform, init, source, target, lock_file_name);
        law_plans_stop_at_the_first_obstacle(
            platform,
            init,
            source,
            target,
            lock_file_name,
            before,
        );
        assert forall|i: int| 0 <= i < plan.steps.len() implies obstacle(
            #[trigger] walk[i],
            source,
        ) is None by {
            if i < before.steps.len() {
                assert(init[i] == walk[i]);
            }
        }
        if before.failure is Some {
            let i = choose|i: int|
                0 <= i < init.len() && obstacle(#[trigger] init[i], source) is Some;
            assert(init[i] == walk[i]);
            assert(init[before.steps.len() as int] == walk[before.steps.len() as int]);
        } else {
            if obstacle(walk.last(), source) is Some {
                assert(walk[walk.len() - 1] == walk.last());
            }
            if exists|i: int| 0 <= i < walk.len() && obstacle(#[trigger] walk[i], source) is Some {
                let i = choose|i: int|
                    0 <= i < walk.len() && obstacle(#[trigger] walk[i], source) is Some;
                if i < init.len() {
                    assert(init[i] == walk[i]);
                }
            }
        }
    }
}

/// What stands in the way of copying an item of the walk, if anything does.
pub open spec fn obstacle(item: WalkItem, source: PathView) -> Option<CopyFailure> {
    match item {
        WalkItem::Failed(err) => Some(CopyFailure::Walk(err)),
        WalkItem::Entry { path, .. } => if path_starts_with(path@, source) {
            None
        } else {
            Some(CopyFailure::OutsideSource)
        },
    }
}

/// Law: a copied link leads elsewhere than before only if it led into the old tree by an absolute
/// path, and then to the same place seen from the new one.
pub proof fn law_copied_links_lead_to_the_same_place(
    platform: Platform,
    link_target: PathView,
    source: PathView,
    target: PathView,
)
    ensures
        ({
            let copied = rebased_link(platform, link_target, source, target);
            let inside = absolute(platform, link_target) && path_starts_with(link_target, source);
            &&& inside ==> copied == joined(
                platform,
                target,
                link_target.skip(source.len() as int),
            )
            &&& !inside ==> copied == link_target
        }),
{
}

} // verus!
