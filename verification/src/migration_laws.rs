//! What holds of a move as a whole: from the settings that have it pending to the session that
//! follows it.

use vstd::prelude::*;

use crate::central_repo::{
    data_location_of, home_base, normalized, pending_source, requested_base, requested_next,
    requested_place,
    same_dir, session_base, ConfigStateView, ConfigView, RepoPathIntent,
};
use crate::environment::EnvironmentView;
use crate::location_laws::{law_saved_move_is_pending, requested_change, restarted};
use crate::migration::{
    answers, copy_plan, copy_step, migration_start, migration_step, rebased_link, CopyStepView,
    MigrationEvent, MigrationStage, MigrationView, OutcomeView, PlanView, StepView, TurnView,
    WalkItem, MIGRATION_INCOMPLETE,
};
use crate::path_laws::{all_names, law_names_are_appended, reads_back, stands_for};
use crate::paths::{
    absolute, components_of, entry_of, implies_root, parent_of, path_opt, path_starts_with,
    same_path, with_implied_root, PathView, Platform,
};
use crate::places::PlaceView;
use crate::startup::{
    judged, startup_answers, startup_begin, startup_step, StartupEvent, StartupView,
    CONFIG_UNREADABLE, REPO_PATH_INVALID,
};
use crate::state::{with_code, StateView};
use crate::target::{user_data_in, EntryKind, TargetContents};

verus! {

// ---------------------------------------------------------------------------------------
// One move, from beginning to end
// ---------------------------------------------------------------------------------------

/// How far a move is. Each stage leads to a later one or to the end.
pub open spec fn rank(stage: MigrationStage) -> int {
    match stage {
        MigrationStage::Compare => 0,
        MigrationStage::Inspect => 1,
        MigrationStage::CreateParent => 2,
        MigrationStage::Rename => 3,
        MigrationStage::Copy => 4,
    }
}

/// Where a move stands after `events`. What is not an answer to the stage that is due, and what
/// comes after the end, is passed over.
pub open spec fn migration_run(
    env: EnvironmentView,
    lock_file_name: Seq<char>,
    target: PlaceView,
    state: StateView,
    config: ConfigView,
    events: Seq<MigrationEvent>,
) -> StepView
    decreases events.len(),
{
    if events.len() == 0 {
        migration_start(env, target, state, config)
    } else {
        let before = migration_run(env, lock_file_name, target, state, config, events.drop_last());
        match before.turn {
            TurnView::Continue(migration) => if answers(migration.stage, events.last()) {
                migration_step(
                    env.platform,
                    lock_file_name,
                    migration,
                    events.last(),
                    before.state,
                    before.config,
                )
            } else {
                before
            },
            TurnView::Finished(_) => before,
        }
    }
}

/// Whether an event shows that the source is there, apart from the target and around it.
pub open spec fn source_found(
    source: PathView,
    target: PathView,
    event: MigrationEvent,
) -> bool {
    &&& event matches MigrationEvent::Compared { source_exists, canonical_source, canonical_target }
    &&& source_exists
    &&& !same_dir(source, target, path_opt(canonical_source), path_opt(canonical_target))
    &&& !path_starts_with(target, source)
}

/// Whether an event shows that the target holds nothing that the user would miss.
pub open spec fn target_empty(lock_file_name: Seq<char>, event: MigrationEvent) -> bool {
    event matches MigrationEvent::Inspected(contents) && user_data_in(lock_file_name, contents)
        == Ok::<bool, String>(false)
}

/// Whether an event reports that the data arrived.
pub open spec fn data_arrived(event: MigrationEvent) -> bool {
    event == MigrationEvent::Renamed(true) || (event matches MigrationEvent::Copied(result)
        && result is Ok)
}

/// Whether some event has the property of [`source_found`].
pub open spec fn any_source_found(
    source: PathView,
    target: PathView,
    events: Seq<MigrationEvent>,
) -> bool {
    exists|i: int| 0 <= i < events.len() && source_found(source, target, #[trigger] events[i])
}

/// Whether some event has the property of [`target_empty`].
pub open spec fn any_target_empty(lock_file_name: Seq<char>, events: Seq<MigrationEvent>) -> bool {
    exists|i: int| 0 <= i < events.len() && target_empty(lock_file_name, #[trigger] events[i])
}

/// Whether some event has the property of [`data_arrived`].
pub open spec fn any_data_arrived(events: Seq<MigrationEvent>) -> bool {
    exists|i: int| 0 <= i < events.len() && data_arrived(#[trigger] events[i])
}

/// What holds wherever a move stands.
pub open spec fn sound_step(
    env: EnvironmentView,
    lock_file_name: Seq<char>,
    target: PlaceView,
    state: StateView,
    config: ConfigView,
    events: Seq<MigrationEvent>,
    step: StepView,
) -> bool {
    let source = pending_source(env, config);
    &&& step.config.repo_path == config.repo_path
    &&& step.state.base_dir_override == state.base_dir_override
    &&& step.state.skills_dir_override == state.skills_dir_override
    &&& step.state.home_dir_override == state.home_dir_override
    &&& step.state.config_path_override == state.config_path_override
    &&& (match step.turn {
        TurnView::Continue(migration) => {
            &&& source == Some(migration.source)
            &&& migration.target == target
            &&& step.state == state
            &&& step.config == config
            &&& rank(migration.stage) >= 1 ==> any_source_found(
                migration.source,
                target.path,
                events,
            )
            &&& rank(migration.stage) >= 2 ==> any_target_empty(lock_file_name, events)
        },
        TurnView::Finished(OutcomeView::UseSource(path)) => {
            &&& source == Some(path)
            &&& step.config == config
            &&& step.state.last_migration == state.last_migration
            &&& step.state.startup_warnings == with_code(
                state.startup_warnings,
                MIGRATION_INCOMPLETE@,
            )
            &&& step.state.startup_errors.len() == state.startup_errors.len() + 1
        },
        TurnView::Finished(OutcomeView::Proceed) => {
            &&& step.config.pending_migration_from is None
            &&& step.state.startup_warnings == state.startup_warnings
            &&& step.state.last_migration != state.last_migration ==> {
                &&& source is Some
                &&& step.state.last_migration == Some((source->0, target.path))
                &&& any_source_found(source->0, target.path, events)
                &&& any_target_empty(lock_file_name, events)
                &&& any_data_arrived(events)
            }
        },
    })
}

proof fn lemma_run_is_sound(
    env: EnvironmentView,
    lock_file_name: Seq<char>,
    target: PlaceView,
    state: StateView,
    config: ConfigView,
    events: Seq<MigrationEvent>,
)
    ensures
        sound_step(
            env,
            lock_file_name,
            target,
            state,
            config,
            events,
            migration_run(env, lock_file_name, target, state, config, events),
        ),
    decreases events.len(),
{
    if events.len() > 0 {
        let init = events.drop_last();
        lemma_run_is_sound(env, lock_file_name, target, state, config, init);
        let before = migration_run(env, lock_file_name, target, state, config, init);
        if let Some(source) = pending_source(env, config) {
            if any_source_found(source, target.path, init) {
                let i = choose|i: int|
                    0 <= i < init.len() && source_found(source, target.path, #[trigger] init[i]);
                assert(source_found(source, target.path, events[i]));
            }
            if source_found(source, target.path, events.last()) {
                assert(source_found(source, target.path, events[events.len() - 1]));
            }
        }
        if any_target_empty(lock_file_name, init) {
            let i = choose|i: int|
                0 <= i < init.len() && target_empty(lock_file_name, #[trigger] init[i]);
            assert(target_empty(lock_file_name, events[i]));
        }
        if target_empty(lock_file_name, events.last()) {
            assert(target_empty(lock_file_name, events[events.len() - 1]));
        }
        if any_data_arrived(init) {
            let i = choose|i: int| 0 <= i < init.len() && data_arrived(#[trigger] init[i]);
            assert(data_arrived(events[i]));
        }
        if data_arrived(events.last()) {
            assert(data_arrived(events[events.len() - 1]));
        }
    }
}

/// Law: a move never gets as far as touching the disk, nor is it recorded, unless the source was
/// found, apart from the target and not around it, and the target was seen to hold nothing that
/// the user would miss.
pub proof fn law_nothing_is_ever_overwritten(
    env: EnvironmentView,
    lock_file_name: Seq<char>,
    target: PlaceView,
    state: StateView,
    config: ConfigView,
    events: Seq<MigrationEvent>,
)
    ensures
        ({
            let step = migration_run(env, lock_file_name, target, state, config, events);
            let touched = step.state.last_migration != state.last_migration || (step.turn matches
                TurnView::Continue(migration) && rank(migration.stage) >= 2);
            touched ==> {
                &&& pending_source(env, config) is Some
                &&& any_source_found(pending_source(env, config)->0, target.path, events)
                &&& any_target_empty(lock_file_name, events)
            }
        }),
{
    lemma_run_is_sound(env, lock_file_name, target, state, config, events);
}

/// Law: a move that cannot be done leaves everything as it was, for the next launch to try again:
/// the settings keep it pending, nothing is recorded as moved, and the user is told.
pub proof fn law_failed_move_stays_pending(
    env: EnvironmentView,
    lock_file_name: Seq<char>,
    target: PlaceView,
    state: StateView,
    config: ConfigView,
    events: Seq<MigrationEvent>,
)
    ensures
        ({
            let step = migration_run(env, lock_file_name, target, state, config, events);
            step.turn matches TurnView::Finished(OutcomeView::UseSource(source)) ==> {
                &&& pending_source(env, config) == Some(source)
                &&& step.config == config
                &&& step.state.last_migration == state.last_migration
                &&& step.state.startup_warnings.contains(MIGRATION_INCOMPLETE@)
                &&& step.state.startup_errors.len() == state.startup_errors.len() + 1
            }
        }),
{
    lemma_run_is_sound(env, lock_file_name, target, state, config, events);
    let step = migration_run(env, lock_file_name, target, state, config, events);
    if step.turn is Finished && step.turn->Finished_0 is UseSource {
        if !state.startup_warnings.contains(MIGRATION_INCOMPLETE@) {
            assert(step.state.startup_warnings.last() == MIGRATION_INCOMPLETE@);
        }
    }
}

/// Law: once a move is over for good nothing is pending any more, and it is recorded only if the
/// data arrived.
pub proof fn law_finished_move_is_settled(
    env: EnvironmentView,
    lock_file_name: Seq<char>,
    target: PlaceView,
    state: StateView,
    config: ConfigView,
    events: Seq<MigrationEvent>,
)
    ensures
        ({
            let step = migration_run(env, lock_file_name, target, state, config, events);
            step.turn == TurnView::Finished(OutcomeView::Proceed) ==> {
                &&& step.config == (ConfigView { pending_migration_from: None, ..config })
                &&& step.state.last_migration != state.last_migration ==> any_data_arrived(events)
                    && step.state.last_migration == Some(
                    (pending_source(env, config)->0, target.path),
                )
            }
        }),
{
    lemma_run_is_sound(env, lock_file_name, target, state, config, events);
}

/// Law: every answer brings a move to a later stage or to its end, so that it is over after five
/// answers at most.
pub proof fn law_moves_make_progress(
    platform: Platform,
    lock_file_name: Seq<char>,
    migration: MigrationView,
    event: MigrationEvent,
    state: StateView,
    config: ConfigView,
)
    requires
        answers(migration.stage, event),
    ensures
        ({
            let step = migration_step(platform, lock_file_name, migration, event, state, config);
            step.turn matches TurnView::Continue(next) ==> {
                &&& rank(migration.stage) < rank(next.stage) <= 4
                &&& next.source == migration.source
                &&& next.target == migration.target
            }
        }),
{
}

/// Law: a target that holds nothing but debris never stands in the way: once it was looked at, a
/// rename that succeeds, or a copy that does, completes the move.
pub proof fn law_debris_does_not_block_a_move(
    platform: Platform,
    lock_file_name: Seq<char>,
    migration: MigrationView,
    contents: TargetContents,
    state: StateView,
    config: ConfigView,
)
    requires
        user_data_in(lock_file_name, contents) == Ok::<bool, String>(false),
    ensures
        ({
            let looked = migration_step(
                platform,
                lock_file_name,
                migration,
                MigrationEvent::Inspected(contents),
                state,
                config,
            );
            &&& looked.turn is Continue
            &&& looked.turn->Continue_0.stage == MigrationStage::CreateParent
                || looked.turn->Continue_0.stage == MigrationStage::Rename
            &&& looked.state == state
            &&& looked.config == config
        }),
        ({
            let renamed = migration_step(
                platform,
                lock_file_name,
                migration,
                MigrationEvent::Renamed(true),
                state,
                config,
            );
            &&& renamed.turn == TurnView::Finished(OutcomeView::Proceed)
            &&& renamed.config.pending_migration_from is None
            &&& renamed.state.last_migration == Some((migration.source, migration.target.path))
        }),
        ({
            let copied = migration_step(
                platform,
                lock_file_name,
                migration,
                MigrationEvent::Copied(Ok(())),
                state,
                config,
            );
            &&& copied.turn == TurnView::Finished(OutcomeView::Proceed)
            &&& copied.config.pending_migration_from is None
            &&& copied.state.last_migration == Some((migration.source, migration.target.path))
        }),
{
}

/// Law: a move that meets no obstacle is carried out: the source is there, apart from the target
/// and not around it; the target holds nothing that the user would miss; and the rename succeeds,
/// or else the copy does. Then the move is recorded, nothing is pending any more, and nothing else
/// of the session changed.
pub proof fn law_unhindered_moves_are_carried_out(
    env: EnvironmentView,
    lock_file_name: Seq<char>,
    target: PlaceView,
    state: StateView,
    config: ConfigView,
    compared: MigrationEvent,
    contents: TargetContents,
    renamed: bool,
)
    requires
        pending_source(env, config) is Some,
        compared matches MigrationEvent::Compared {
            source_exists,
            canonical_source,
            canonical_target,
        } && source_exists && (canonical_source is Some && canonical_target is Some ==> !same_path(
            canonical_source->0@,
            canonical_target->0@,
        )),
        !same_path(pending_source(env, config)->0, target.path),
        !path_starts_with(target.path, pending_source(env, config)->0),
        parent_of(target.path) is Some,
        user_data_in(lock_file_name, contents) == Ok::<bool, String>(false),
    ensures
        ({
            let seen = seq![
                compared,
                MigrationEvent::Inspected(contents),
                MigrationEvent::ParentCreated(Ok(())),
                MigrationEvent::Renamed(renamed),
            ];
            let events = if renamed {
                seen
            } else {
                seen.push(MigrationEvent::Copied(Ok(())))
            };
            let step = migration_run(env, lock_file_name, target, state, config, events);
            &&& step.turn == TurnView::Finished(OutcomeView::Proceed)
            &&& step.config == (ConfigView { pending_migration_from: None, ..config })
            &&& step.state == (StateView {
                last_migration: Some((pending_source(env, config)->0, target.path)),
                ..state
            })
        }),
{
    let one = seq![compared];
    let two = one.push(MigrationEvent::Inspected(contents));
    let three = two.push(MigrationEvent::ParentCreated(Ok(())));
    let four = three.push(MigrationEvent::Renamed(renamed));
    let five = four.push(MigrationEvent::Copied(Ok(())));
    let none = Seq::<MigrationEvent>::empty();
    assert(four =~= seq![
        compared,
        MigrationEvent::Inspected(contents),
        MigrationEvent::ParentCreated(Ok(())),
        MigrationEvent::Renamed(renamed),
    ]);
    assert(one.drop_last() =~= none);
    assert(two.drop_last() =~= one);
    assert(three.drop_last() =~= two);
    assert(four.drop_last() =~= three);
    assert(five.drop_last() =~= four);
    let start = migration_run(env, lock_file_name, target, state, config, none);
    assert(start == migration_start(env, target, state, config));
    let first = migration_run(env, lock_file_name, target, state, config, one);
    assert(first.turn is Continue && first.turn->Continue_0.stage == MigrationStage::Inspect);
    let second = migration_run(env, lock_file_name, target, state, config, two);
    assert(second.turn is Continue && second.turn->Continue_0.stage
        == MigrationStage::CreateParent);
    let third = migration_run(env, lock_file_name, target, state, config, three);
    assert(third.turn is Continue && third.turn->Continue_0.stage == MigrationStage::Rename);
    let fourth = migration_run(env, lock_file_name, target, state, config, four);
    if !renamed {
        assert(fourth.turn is Continue && fourth.turn->Continue_0.stage == MigrationStage::Copy);
        let fifth = migration_run(env, lock_file_name, target, state, config, five);
        assert(fifth.turn is Finished);
    }
}

// ---------------------------------------------------------------------------------------
// The session that follows
// ---------------------------------------------------------------------------------------

/// Law: a session that is pinned to a library never begins a move, and stays pinned to it.
pub proof fn law_pinned_sessions_move_nothing(
    env: EnvironmentView,
    loaded: ConfigStateView,
    state: StateView,
)
    requires
        state.base_dir_override is Some,
    ensures
        ({
            let step = startup_begin(env, loaded, state);
            &&& step.stage is Resolve
            &&& step.state.base_dir_override == state.base_dir_override
            &&& step.state.last_migration == state.last_migration
        }),
{
}

/// Law: settings that cannot be used, and a path in them that cannot, never pass in silence.
pub proof fn law_unusable_settings_are_reported(
    env: EnvironmentView,
    loaded: ConfigStateView,
    state: StateView,
)
    ensures
        ({
            let warnings = startup_begin(env, loaded, state).state.startup_warnings;
            &&& loaded is Invalid ==> warnings.contains(CONFIG_UNREADABLE@)
            &&& loaded matches ConfigStateView::Valid(config) ==> (config.repo_path matches Some(
                raw,
            ) ==> (normalized(env, raw) is Err ==> warnings.contains(REPO_PATH_INVALID@)))
        }),
{
    let warned = judged(env, loaded, state);
    assert(warned.startup_warnings != state.startup_warnings ==> warned.startup_warnings
        =~= state.startup_warnings.push(warned.startup_warnings.last()));
    if loaded is Invalid && !state.startup_warnings.contains(CONFIG_UNREADABLE@) {
        assert(warned.startup_warnings.last() == CONFIG_UNREADABLE@);
    }
    if loaded is Valid && !state.startup_warnings.contains(REPO_PATH_INVALID@) {
        if warned.startup_warnings != state.startup_warnings {
            assert(warned.startup_warnings.last() == REPO_PATH_INVALID@);
        }
    }
}

/// Law: settings with a usable move pending lead a session that is not pinned into that move: from
/// the pending source to the requested path.
pub proof fn law_pending_move_begins_at_startup(
    env: EnvironmentView,
    config: ConfigView,
    state: StateView,
)
    requires
        state.base_dir_override is None,
        pending_source(env, config) is Some,
        requested_base(state, env, config) is Some,
    ensures
        startup_begin(env, ConfigStateView::Valid(config), state).stage == (StartupView::Migrate {
            migration: MigrationView {
                stage: MigrationStage::Compare,
                source: pending_source(env, config)->0,
                target: requested_place(state, env, config)->0,
            },
            config,
        }),
{
}

/// Law: when a move fails, the session runs against the source, whatever the settings say.
pub proof fn law_failed_move_runs_at_the_source(
    env: EnvironmentView,
    lock_file_name: Seq<char>,
    migration: MigrationView,
    event: MigrationEvent,
    state: StateView,
    config: ConfigView,
    any_config: ConfigView,
    any_flag: bool,
)
    requires
        answers(migration.stage, event),
        migration_step(env.platform, lock_file_name, migration, event, state, config).turn
            matches TurnView::Finished(outcome) && outcome is UseSource,
    ensures
        ({
            let step = startup_step(
                env,
                lock_file_name,
                StartupView::Migrate { migration, config },
                StartupEvent::Migration(event),
                state,
            );
            &&& step.stage is Resolve
            &&& session_base(step.state, env, any_config, any_flag) == Some(migration.source)
        }),
{
}

/// Law: when a move is over for good, the settings are saved without it, and the session that is
/// not pinned then runs against the requested path.
pub proof fn law_finished_move_runs_at_the_target(
    env: EnvironmentView,
    lock_file_name: Seq<char>,
    migration: MigrationView,
    event: MigrationEvent,
    state: StateView,
    config: ConfigView,
    any_flag: bool,
)
    requires
        answers(migration.stage, event),
        config.pending_migration_from is Some,
        state.base_dir_override is None,
        migration_step(env.platform, lock_file_name, migration, event, state, config).turn
            == TurnView::Finished(OutcomeView::Proceed),
    ensures
        ({
            let step = startup_step(
                env,
                lock_file_name,
                StartupView::Migrate { migration, config },
                StartupEvent::Migration(event),
                state,
            );
            let saved = ConfigView { pending_migration_from: None, ..config };
            let next = startup_step(
                env,
                lock_file_name,
                step.stage,
                StartupEvent::Saved(Ok(())),
                step.state,
            );
            &&& step.stage == (StartupView::Save { config: saved, outcome: OutcomeView::Proceed })
            &&& next.stage is Resolve
            &&& session_base(next.state, env, saved, any_flag) == requested_base(
                state,
                env,
                config,
            )
        }),
{
}

// ---------------------------------------------------------------------------------------
// Copying
// ---------------------------------------------------------------------------------------

/// Where a step puts what it copies.
pub open spec fn step_destination(step: CopyStepView) -> Option<PathView> {
    match step {
        CopyStepView::Skip => None,
        CopyStepView::Link { destination } => Some(destination),
        CopyStepView::Directory { destination } => Some(destination),
        CopyStepView::File { destination, .. } => Some(destination),
    }
}

/// Whether `step` is what is to be done with an item of the walk.
pub open spec fn carries_out(
    platform: Platform,
    item: WalkItem,
    source: PathView,
    target: PathView,
    lock_file_name: Seq<char>,
    step: CopyStepView,
) -> bool {
    item matches WalkItem::Entry { path, kind } && copy_step(
        platform,
        path@,
        kind,
        source,
        target,
        lock_file_name,
    ) == Some(step)
}

/// Law: a plan has one step for each entry of the walk, in order, up to the first thing that goes
/// wrong; without a failure it covers the whole walk.
pub proof fn law_plans_follow_the_walk(
    platform: Platform,
    walk: Seq<WalkItem>,
    source: PathView,
    target: PathView,
    lock_file_name: Seq<char>,
    plan: PlanView,
)
    requires
        plan == copy_plan(platform, walk, source, target, lock_file_name),
    ensures
        plan.steps.len() <= walk.len(),
        plan.failure is None ==> plan.steps.len() == walk.len(),
        forall|i: int|
            0 <= i < plan.steps.len() ==> carries_out(
                platform,
                walk[i],
                source,
                target,
                lock_file_name,
                #[trigger] plan.steps[i],
            ),
    decreases walk.len(),
{
    if walk.len() > 0 {
        let init = walk.drop_last();
        let before = copy_plan(platform, init, source, target, lock_file_name);
        law_plans_follow_the_walk(platform, init, source, target, lock_file_name, before);
        assert forall|i: int| 0 <= i < plan.steps.len() implies carries_out(
            platform,
            walk[i],
            source,
            target,
            lock_file_name,
            #[trigger] plan.steps[i],
        ) by {
            if i < before.steps.len() {
                assert(plan.steps[i] == before.steps[i]);
                assert(init[i] == walk[i]);
            }
        }
    }
}

/// Law: what is copied lands below the target, at the place that it had below the source.
pub proof fn law_copies_land_below_the_target(
    platform: Platform,
    names: PathView,
    kind: EntryKind,
    source: PathView,
    target: PathView,
    lock_file_name: Seq<char>,
)
    requires
        all_names(names),
        !implies_root(target),
    ensures
        ({
            let step = copy_step(platform, source + names, kind, source, target, lock_file_name);
            &&& step is Some
            &&& step_destination(step->0) matches Some(destination) ==> destination
                == with_implied_root(target + names) && path_starts_with(destination, target)
        }),
{
    assert((source + names).take(source.len() as int) =~= source);
    assert((source + names).skip(source.len() as int) =~= names);
    law_names_are_appended(platform, target, names);
}

/// Paths that begin alike are different with the roots that they imply if they are without.
proof fn lemma_implied_root_is_injective(a: PathView, b: PathView)
    requires
        a != b,
        a.len() > 1 && a[0] is Prefix && a[1] is RootDir ==> !implies_root(b),
        b.len() > 1 && b[0] is Prefix && b[1] is RootDir ==> !implies_root(a),
    ensures
        with_implied_root(a) != with_implied_root(b),
{
    let x = with_implied_root(a);
    let y = with_implied_root(b);
    if x == y {
        if implies_root(a) && implies_root(b) {
            assert(x.skip(2) =~= a.skip(1));
            assert(y.skip(2) =~= b.skip(1));
            assert(a =~= seq![x[0]] + x.skip(2));
            assert(b =~= seq![y[0]] + y.skip(2));
        } else if implies_root(a) {
            assert(y[1] is RootDir);
        } else if implies_root(b) {
            assert(x[1] is RootDir);
        }
    }
}

/// Law: two different entries of a tree never land at one place, so that a copy overwrites nothing
/// that it made itself.
pub proof fn law_copies_do_not_collide(
    platform: Platform,
    a: PathView,
    b: PathView,
    kind_a: EntryKind,
    kind_b: EntryKind,
    source: PathView,
    target: PathView,
    lock_file_name: Seq<char>,
)
    requires
        all_names(a),
        all_names(b),
        a != b,
        !implies_root(target),
    ensures
        ({
            let step_a = copy_step(platform, source + a, kind_a, source, target, lock_file_name);
            let step_b = copy_step(platform, source + b, kind_b, source, target, lock_file_name);
            &&& step_a is Some && step_b is Some
            &&& step_destination(step_a->0) is Some ==> step_destination(step_a->0)
                != step_destination(step_b->0)
        }),
{
    law_copies_land_below_the_target(platform, a, kind_a, source, target, lock_file_name);
    law_copies_land_below_the_target(platform, b, kind_b, source, target, lock_file_name);
    assert((target + a).skip(target.len() as int) =~= a);
    assert((target + b).skip(target.len() as int) =~= b);
    lemma_implied_root_is_injective(target + a, target + b);
}

/// Law: the lock directly below the source is the one thing that is left behind; links are copied
/// as links, and directories as directories.
pub proof fn law_only_the_lock_is_left_behind(
    platform: Platform,
    path: PathView,
    kind: EntryKind,
    source: PathView,
    target: PathView,
    lock_file_name: Seq<char>,
)
    requires
        path_starts_with(path, source),
    ensures
        ({
            let step = copy_step(platform, path, kind, source, target, lock_file_name);
            let is_lock = same_path(
                path.skip(source.len() as int),
                components_of(platform, lock_file_name),
            );
            &&& step is Some
            &&& step->0 is Skip <==> is_lock
            &&& !is_lock ==> (step->0 is Link <==> kind == EntryKind::Symlink)
            &&& !is_lock ==> (step->0 is Directory <==> kind == EntryKind::Dir)
        }),
{
}

/// Law: an absolute link to an entry of the old tree leads to the same entry of the new one; a link
/// that leads elsewhere, or that is relative, leads where it led before.
pub proof fn law_links_follow_the_tree(
    platform: Platform,
    link_target: PathView,
    names: PathView,
    source: PathView,
    target: PathView,
)
    requires
        all_names(names),
    ensures
        absolute(platform, source + names) ==> rebased_link(
            platform,
            source + names,
            source,
            target,
        ) == with_implied_root(target + names),
        !absolute(platform, link_target) || !path_starts_with(link_target, source) ==> rebased_link(
            platform,
            link_target,
            source,
            target,
        ) == link_target,
{
    assert((source + names).take(source.len() as int) =~= source);
    assert((source + names).skip(source.len() as int) =~= names);
    law_names_are_appended(platform, target, names);
}

// ---------------------------------------------------------------------------------------
// Startup as a whole
// ---------------------------------------------------------------------------------------

/// How far startup is. Each stage leads to a later one, and the take-over of an entry to that of
/// the next.
pub open spec fn startup_rank(stage: StartupView) -> int {
    match stage {
        StartupView::Migrate { migration, .. } => rank(migration.stage),
        StartupView::Save { .. } => 5,
        StartupView::Resolve => 6,
        StartupView::ProbeLegacy { .. } => 7,
        StartupView::CreateBase { .. } => 8,
        StartupView::ListLegacy { .. } => 9,
        StartupView::ProbeEntry { .. } => 10,
        StartupView::MoveEntry { .. } => 10,
        StartupView::Locate => 11,
        StartupView::CreateDirs { .. } => 12,
        StartupView::Done(_) => 13,
    }
}

/// How many answers it takes at most to take over the entries that are left.
pub open spec fn entries_left(stage: StartupView) -> int {
    match stage {
        StartupView::ProbeEntry { take_over, .. } => 2 * (take_over.names.len() - take_over.next),
        StartupView::MoveEntry { take_over, .. } => 2 * (take_over.names.len() - take_over.next)
            - 1,
        _ => 0,
    }
}

/// Law: every answer brings startup to a later stage, or leaves fewer entries to take over, so that
/// it comes to its end; what an earlier version left behind is taken over before any directory of
/// the library is created.
pub proof fn law_startup_makes_progress(
    env: EnvironmentView,
    lock_file_name: Seq<char>,
    stage: StartupView,
    event: StartupEvent,
    state: StateView,
)
    requires
        startup_answers(stage, event),
    ensures
        ({
            let next = startup_step(env, lock_file_name, stage, event, state).stage;
            &&& startup_rank(stage) < startup_rank(next) <= 13 || (startup_rank(stage)
                == startup_rank(next) && 0 <= entries_left(next) < entries_left(stage))
        }),
{
}

/// Law: what lies in the library already stays there: an entry of the legacy directory is moved
/// only to its own place, and only where nothing was found there just before.
pub proof fn law_take_over_overwrites_nothing(
    env: EnvironmentView,
    lock_file_name: Seq<char>,
    stage: StartupView,
    event: StartupEvent,
    state: StateView,
)
    requires
        startup_answers(stage, event),
    ensures
        ({
            let next = startup_step(env, lock_file_name, stage, event, state).stage;
            next matches StartupView::MoveEntry { take_over, entry, place } ==> {
                &&& stage == (StartupView::ProbeEntry { take_over, place })
                &&& event == (StartupEvent::EntryProbed { taken: false })
                &&& take_over.next < take_over.names.len()
                &&& entry == entry_of(take_over.legacy, take_over.names[take_over.next])
            }
        }),
{
}

/// Law: settings with nothing pending lead straight to the library.
pub proof fn law_settled_settings_move_nothing(
    env: EnvironmentView,
    config: ConfigView,
    state: StateView,
)
    requires
        state.base_dir_override is None,
        config.pending_migration_from is None,
    ensures
        ({
            let step = startup_begin(env, ConfigStateView::Valid(config), state);
            &&& step.stage is Resolve
            &&& step.state.base_dir_override is None
            &&& step.state.last_migration == state.last_migration
        }),
{
}

/// Law: saving is a promise, and the next launch acts on it. A request for a move leaves the
/// settings in a form in which startup begins to move the data to the requested path, if both are
/// stored as texts that stand for them.
pub proof fn law_saved_move_begins_on_the_next_launch(
    state: StateView,
    env: EnvironmentView,
    config: ConfigView,
    source_is_dir: bool,
    path: Option<Seq<char>>,
)
    requires
        session_base(state, env, config, source_is_dir) is Some,
        requested_next(state, env, path) is Ok,
        path is None ==> home_base(state, env) is Some,
        path is Some ==> reads_back(env, requested_next(state, env, path)->Ok_0),
        stands_for(
            env,
            data_location_of(state, env, config, source_is_dir)->0.text,
            data_location_of(state, env, config, source_is_dir)->0.path,
        ),
        !same_path(
            requested_next(state, env, path)->Ok_0,
            data_location_of(state, env, config, source_is_dir)->0.path,
        ),
    ensures
        ({
            let change = requested_change(
                state,
                env,
                config,
                source_is_dir,
                path,
                RepoPathIntent::Migrate,
            );
            let stage = startup_begin(
                env,
                ConfigStateView::Valid(change.config),
                restarted(state),
            ).stage;
            stage matches StartupView::Migrate { migration, config: settings } && {
                &&& migration.stage == MigrationStage::Compare
                &&& migration.source == change.data_location.path
                &&& migration.target.path == change.next
                &&& settings == change.config
            }
        }),
{
    law_saved_move_is_pending(state, env, config, source_is_dir, path);
    let change = requested_change(
        state,
        env,
        config,
        source_is_dir,
        path,
        RepoPathIntent::Migrate,
    );
    law_pending_move_begins_at_startup(env, change.config, restarted(state));
}

} // verus!
