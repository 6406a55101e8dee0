//! What each answer leads to at startup.

use vstd::prelude::*;

use crate::central_repo::{
    normalized, requested_place, session_base, settings_of, ConfigStateView, ConfigView,
    RepoPathConfig,
};
use crate::environment::EnvironmentView;
use crate::migration::{
    answers, migration_start, migration_step, MigrationEvent, MigrationView, OutcomeView, StepView,
    TurnView,
};
use crate::os_text::{os_texts, OsText};
use crate::paths::{child_of, entry_of, text_of, PathView};
use crate::startup::{
    judged, startup_answers, startup_begin, startup_step, StartupEvent, StartupStep, StartupView,
    TakeOverView,
};
use crate::state::StateView;
use crate::text_laws::law_codes_are_noted_once;

verus! {

/// Whether `after` is `before` with one more warning, unless it was there already.
pub open spec fn warned_of(before: StateView, after: StateView, code: Seq<char>) -> bool {
    &&& after == (StateView { startup_warnings: after.startup_warnings, ..before })
    &&& before.startup_warnings.contains(code) ==> after.startup_warnings
        == before.startup_warnings
    &&& !before.startup_warnings.contains(code) ==> after.startup_warnings
        == before.startup_warnings.push(code)
}

/// Law: every stage waits for the one kind of answer that reports on its work, and nothing answers
/// once startup is over.
pub proof fn law_every_stage_has_its_answer(stage: StartupView, event: StartupEvent)
    ensures
        startup_answers(stage, event) <==> (match event {
            StartupEvent::Migration(e) => stage matches StartupView::Migrate { migration, .. }
                && answers(migration.stage, e),
            StartupEvent::Saved(_) => stage is Save,
            StartupEvent::Resolved { .. } => stage is Resolve || stage is Locate,
            StartupEvent::LegacyProbed { .. } => stage is ProbeLegacy,
            StartupEvent::BaseCreated(_) => stage is CreateBase,
            StartupEvent::LegacyListed(_) => stage is ListLegacy,
            StartupEvent::EntryProbed { .. } => stage is ProbeEntry,
            StartupEvent::EntryMoved => stage is MoveEntry,
            StartupEvent::DirsCreated(_) => stage is CreateDirs,
        }),
{
}

/// Law: the user is warned if and only if there are settings that cannot be used, or a stored path
/// that cannot be; judging the settings changes nothing else.
pub proof fn law_settings_are_judged_by_what_they_hold(
    env: EnvironmentView,
    loaded: ConfigStateView,
    state: StateView,
)
    ensures
        ({
            let after = judged(env, loaded, state);
            match loaded {
                ConfigStateView::Missing => after == state,
                ConfigStateView::Invalid(_) => warned_of(state, after, "config_unreadable"@),
                ConfigStateView::Valid(config) => {
                    &&& config.repo_path is None ==> after == state
                    &&& config.repo_path matches Some(raw) ==> {
                        &&& normalized(env, raw) is Ok ==> after == state
                        &&& normalized(env, raw) is Err ==> warned_of(
                            state,
                            after,
                            "repo_path_invalid"@,
                        )
                    }
                },
            }
        }),
{
    law_codes_are_noted_once(state.startup_warnings, "config_unreadable"@);
    law_codes_are_noted_once(state.startup_warnings, "repo_path_invalid"@);
}

/// Whether `next` is what follows a step of the move, given what was pending before it: a move that
/// goes on is carried on; one that is over is saved if that changed what is pending; and a session
/// that is to run at the source is pinned to it once that is done.
pub open spec fn follows_move(
    env: EnvironmentView,
    pending_before: Option<Seq<char>>,
    step: StepView,
    next: StartupStep,
) -> bool {
    match step.turn {
        TurnView::Continue(migration) => {
            &&& next.stage == (StartupView::Migrate { migration, config: step.config })
            &&& next.state == step.state
        },
        TurnView::Finished(outcome) => {
            &&& step.config.pending_migration_from != pending_before ==> {
                &&& next.stage == (StartupView::Save { config: step.config, outcome })
                &&& next.state == step.state
            }
            &&& step.config.pending_migration_from == pending_before ==> goes_to_library(
                env,
                outcome,
                step.state,
                next,
            )
        },
    }
}

/// Whether `next` goes on to find the library, with the session pinned if and only if it is to run
/// at the source of a move.
pub open spec fn goes_to_library(
    env: EnvironmentView,
    outcome: OutcomeView,
    state: StateView,
    next: StartupStep,
) -> bool {
    &&& next.stage is Resolve
    &&& outcome is Proceed ==> next.state == state
    &&& outcome matches OutcomeView::UseSource(source) ==> {
        &&& next.state.base_dir_override matches Some(place) && place.path == source && place.text
            == text_of(env.platform, source)
        &&& next.state == (StateView {
            base_dir_override: next.state.base_dir_override,
            ..state
        })
    }
}

/// Law: startup begins with the move that the settings have pending, towards the requested path,
/// unless the session is pinned: then it goes straight to its library.
pub proof fn law_startup_begins_with_the_pending_move(
    env: EnvironmentView,
    loaded: ConfigStateView,
    state: StateView,
)
    ensures
        ({
            let begun = startup_begin(env, loaded, state);
            let config = settings_of(loaded);
            &&& state.base_dir_override is Some ==> begun.stage is Resolve && begun.state
                == judged(env, loaded, state)
            &&& state.base_dir_override is None ==> follows_move(
                env,
                config.pending_migration_from,
                migration_start(
                    env,
                    requested_place(state, env, config)->0,
                    judged(env, loaded, state),
                    config,
                ),
                begun,
            )
        }),
{
}

/// Law: an answer that the move waits for is handed to the move, and what that leads to decides how
/// startup goes on.
pub proof fn law_answers_reach_the_move(
    env: EnvironmentView,
    lock_file_name: Seq<char>,
    migration: MigrationView,
    config: ConfigView,
    event: MigrationEvent,
    state: StateView,
)
    requires
        answers(migration.stage, event),
    ensures
        follows_move(
            env,
            config.pending_migration_from,
            migration_step(env.platform, lock_file_name, migration, event, state, config),
            startup_step(
                env,
                lock_file_name,
                StartupView::Migrate { migration, config },
                StartupEvent::Migration(event),
                state,
            ),
        ),
{
}

/// Law: settings that were saved leave nothing to report; settings that could not be are noted with
/// the reason. Either way the session goes on as the move left it.
pub proof fn law_saving_is_noted_only_where_it_fails(
    env: EnvironmentView,
    lock_file_name: Seq<char>,
    config: ConfigView,
    outcome: OutcomeView,
    result: Result<(), String>,
    state: StateView,
)
    ensures
        ({
            let next = startup_step(
                env,
                lock_file_name,
                StartupView::Save { config, outcome },
                StartupEvent::Saved(result),
                state,
            );
            match result {
                Ok(_) => goes_to_library(env, outcome, state, next),
                Err(err) => goes_to_library(
                    env,
                    outcome,
                    StateView {
                        startup_errors: state.startup_errors.push(
                            "central repo: failed to persist migration state ("@ + err@
                                + "); it may retry next launch"@,
                        ),
                        ..state
                    },
                    next,
                ),
            }
        }),
{
}

/// Law: what an early version left behind is looked for below home, before anything is created in
/// the library that the session runs against; without a home there is nothing to look for.
pub proof fn law_leftovers_are_looked_for_first(
    env: EnvironmentView,
    lock_file_name: Seq<char>,
    config: RepoPathConfig,
    source_is_dir: bool,
    state: StateView,
)
    ensures
        ({
            let event = StartupEvent::Resolved { config, source_is_dir };
            let next = startup_step(env, lock_file_name, StartupView::Resolve, event, state);
            let base = session_base(state, env, config@, source_is_dir)->0;
            &&& next.state == state
            &&& env.home is None ==> next.stage is Locate
            &&& env.home matches Some(home) ==> next.stage == (StartupView::ProbeLegacy {
                base,
                skills: child_of(base, "skills"@),
                legacy: child_of(home.path, ".agent-skills"@),
            })
        }),
{
}

/// Law: what an early version left behind is taken over if and only if it is there and the library
/// has no skills yet; the library is created first, and a library that cannot be created ends
/// startup with the reason.
pub proof fn law_leftovers_are_taken_over_once(
    env: EnvironmentView,
    lock_file_name: Seq<char>,
    base: PathView,
    skills: PathView,
    legacy: PathView,
    legacy_exists: bool,
    skills_exist: bool,
    created: Result<(), String>,
    state: StateView,
)
    ensures
        ({
            let probed = startup_step(
                env,
                lock_file_name,
                StartupView::ProbeLegacy { base, skills, legacy },
                StartupEvent::LegacyProbed { legacy_exists, skills_exist },
                state,
            );
            &&& probed.state == state
            &&& legacy_exists && !skills_exist <==> probed.stage == (StartupView::CreateBase {
                base,
                legacy,
            })
            &&& !legacy_exists || skills_exist <==> probed.stage is Locate
        }),
        ({
            let next = startup_step(
                env,
                lock_file_name,
                StartupView::CreateBase { base, legacy },
                StartupEvent::BaseCreated(created),
                state,
            );
            &&& next.state == state
            &&& created is Ok <==> next.stage == (StartupView::ListLegacy { base, legacy })
            &&& created matches Err(err) ==> next.stage == StartupView::Done(Err(err))
        }),
{
}

/// Whether `stage` is where a take-over stands that has `names[next..]` still before it: at the
/// place of the next entry, or past the take-over where there is none.
pub open spec fn at_entry(
    base: PathView,
    legacy: PathView,
    names: Seq<OsText>,
    next: int,
    stage: StartupView,
) -> bool {
    &&& next < names.len() ==> stage == (StartupView::ProbeEntry {
        take_over: TakeOverView { base, legacy, names: os_texts(names), next },
        place: entry_of(base, names[next]@),
    })
    &&& next >= names.len() ==> stage is Locate
}

/// Law: the entries are taken over one by one, in the order in which they were listed, each from
/// the legacy directory to the same name in the library. One whose place is taken is passed over;
/// one that was attempted is not tried again.
pub proof fn law_entries_are_taken_over_in_order(
    env: EnvironmentView,
    lock_file_name: Seq<char>,
    base: PathView,
    legacy: PathView,
    names: Vec<OsText>,
    next: int,
    taken: bool,
    state: StateView,
)
    requires
        0 <= next < names@.len(),
    ensures
        ({
            let listed = startup_step(
                env,
                lock_file_name,
                StartupView::ListLegacy { base, legacy },
                StartupEvent::LegacyListed(names),
                state,
            );
            at_entry(base, legacy, names@, 0, listed.stage) && listed.state == state
        }),
        ({
            let take_over = TakeOverView { base, legacy, names: os_texts(names@), next };
            let place = entry_of(base, names@[next]@);
            let entry = entry_of(legacy, names@[next]@);
            let probed = startup_step(
                env,
                lock_file_name,
                StartupView::ProbeEntry { take_over, place },
                StartupEvent::EntryProbed { taken },
                state,
            );
            let moved = startup_step(
                env,
                lock_file_name,
                StartupView::MoveEntry { take_over, entry, place },
                StartupEvent::EntryMoved,
                state,
            );
            &&& probed.state == state
            &&& taken ==> at_entry(base, legacy, names@, next + 1, probed.stage)
            &&& !taken ==> probed.stage == (StartupView::MoveEntry { take_over, entry, place })
            &&& moved.state == state
            &&& at_entry(base, legacy, names@, next + 1, moved.stage)
        }),
{
}

/// Law: a legacy directory that holds nothing, or that cannot be listed, is done with at once.
pub proof fn law_an_empty_leftover_is_passed_over(
    env: EnvironmentView,
    lock_file_name: Seq<char>,
    base: PathView,
    legacy: PathView,
    names: Vec<OsText>,
    state: StateView,
)
    requires
        names@.len() == 0,
    ensures
        ({
            let next = startup_step(
                env,
                lock_file_name,
                StartupView::ListLegacy { base, legacy },
                StartupEvent::LegacyListed(names),
                state,
            );
            next.stage is Locate && next.state == state
        }),
{
}

/// Law: in the end the directories of the library are created: those of the skills, the scenarios,
/// the cache and the logs, below the library that the session runs against, but for skills that
/// were pinned elsewhere. Whether that succeeded is what startup reports.
pub proof fn law_startup_ends_with_the_directories(
    env: EnvironmentView,
    lock_file_name: Seq<char>,
    config: RepoPathConfig,
    source_is_dir: bool,
    dirs: Seq<PathView>,
    created: Result<(), String>,
    state: StateView,
)
    ensures
        ({
            let event = StartupEvent::Resolved { config, source_is_dir };
            let located = startup_step(env, lock_file_name, StartupView::Locate, event, state);
            let base = session_base(state, env, config@, source_is_dir)->0;
            &&& located.state == state
            &&& located.stage matches StartupView::CreateDirs { dirs } && {
                &&& dirs.len() == 4
                &&& state.skills_dir_override is None ==> dirs[0] == child_of(base, "skills"@)
                &&& state.skills_dir_override matches Some(pinned) ==> dirs[0] == pinned
                &&& dirs[1] == child_of(base, "scenarios"@)
                &&& dirs[2] == child_of(base, "cache"@)
                &&& dirs[3] == child_of(base, "logs"@)
            }
        }),
        ({
            let done = startup_step(
                env,
                lock_file_name,
                StartupView::CreateDirs { dirs },
                StartupEvent::DirsCreated(created),
                state,
            );
            done.stage == StartupView::Done(created) && done.state == state
        }),
{
}

} // verus!
