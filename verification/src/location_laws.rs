//! What holds of the library's location: while a session runs, when a change is saved, when it is
//! abandoned, and when the app starts again.

use vstd::prelude::*;

use crate::central_repo::{
    config_state, data_location_of, home_base, kept_session, live_base, no_settings,
    pending_source, requested_base, requested_config, requested_next, same_dir, session_base,
    session_place, settings_of, settled_config, switch_target, ChangeView, ConfigFile, ConfigView,
    RepoPathIntent,
};
use crate::environment::EnvironmentView;
use crate::path_laws::{
    law_same_path_equivalence, law_same_path_reflexive, reads_back, stands_for,
};
use crate::paths::{same_path, text_of, PathView};
use crate::state::StateView;

verus! {

/// The change of settings that a request leads to, where it is accepted.
pub open spec fn requested_change(
    state: StateView,
    env: EnvironmentView,
    config: ConfigView,
    source_is_dir: bool,
    path: Option<Seq<char>>,
    intent: RepoPathIntent,
) -> ChangeView {
    let next = requested_next(state, env, path)->Ok_0;
    let data_location = data_location_of(state, env, config, source_is_dir)->0;
    ChangeView {
        next,
        data_location,
        config: requested_config(env, path, next, data_location, intent),
    }
}

/// Whether a session is pinned to one library while the settings have a move of another one
/// pending.
pub open spec fn pinned_elsewhere(
    state: StateView,
    env: EnvironmentView,
    config: ConfigView,
    source_is_dir: bool,
) -> bool {
    &&& state.base_dir_override matches Some(pinned)
    &&& pending_source(env, config) matches Some(source)
    &&& source_is_dir
    &&& !same_path(pinned.path, source)
}

/// The state in which the app starts again: whatever the session was pinned to is forgotten.
pub open spec fn restarted(state: StateView) -> StateView {
    StateView { base_dir_override: None, ..state }
}

/// Law: while a move is pending and its source is there, a session that is not pinned runs
/// against the source; once the source is gone, or if nothing is pending, it runs against the
/// requested path.
pub proof fn law_pending_move_keeps_session_on_source(
    state: StateView,
    env: EnvironmentView,
    config: ConfigView,
    source_is_dir: bool,
)
    requires
        state.base_dir_override is None,
    ensures
        pending_source(env, config) is Some && source_is_dir ==> session_base(
            state,
            env,
            config,
            source_is_dir,
        ) == pending_source(env, config),
        pending_source(env, config) is None || !source_is_dir ==> session_base(
            state,
            env,
            config,
            source_is_dir,
        ) == requested_base(state, env, config),
{
}

/// Law: saving a change never moves the running session: it goes on with the library that it had
/// open before. Left out is a session that is pinned to one library while a move of another one
/// is pending, if the saved settings no longer lead to the source of that move.
pub proof fn law_saving_keeps_the_session(
    state: StateView,
    env: EnvironmentView,
    config: ConfigView,
    source_is_dir: bool,
    path: Option<Seq<char>>,
    intent: RepoPathIntent,
    marker_is_dir: bool,
    change: ChangeView,
)
    requires
        session_base(state, env, config, source_is_dir) is Some,
        requested_next(state, env, path) is Ok,
        change == requested_change(state, env, config, source_is_dir, path, intent),
        live_base(state, env, change.config, marker_is_dir) is Some,
        pinned_elsewhere(state, env, config, source_is_dir) ==> same_path(
            live_base(state, env, change.config, marker_is_dir)->0,
            change.data_location.path,
        ),
    ensures
        ({
            let after = kept_session(state, env, change, marker_is_dir);
            &&& session_base(after, env, change.config, marker_is_dir) is Some
            &&& same_path(
                session_base(after, env, change.config, marker_is_dir)->0,
                session_base(state, env, config, source_is_dir)->0,
            )
        }),
{
    law_same_path_reflexive(session_base(state, env, config, source_is_dir)->0);
    if let Some(pinned) = state.base_dir_override {
        law_same_path_reflexive(pinned.path);
        if let Some(source) = pending_source(env, config) {
            if source_is_dir && same_path(pinned.path, source) {
                law_same_path_equivalence(pinned.path, source, pinned.path);
            }
        }
    }
}

/// Law: a change that asks for a move is acted on when the app starts again, if both locations
/// are stored as texts that stand for them: the settings then name the data as the source and the
/// requested path as the target.
pub proof fn law_saved_move_is_pending(
    state: StateView,
    env: EnvironmentView,
    config: ConfigView,
    source_is_dir: bool,
    path: Option<Seq<char>>,
)
    requires
        session_base(state, env, config, source_is_dir) is Some,
        requested_next(state, env, path) is Ok,
        path is None ==> home_base(state, env) is Some,
        path is Some ==> reads_back(env, requested_next(state, env, path)->Ok_0),
        stands_for(
            env,
            data_location_of(state, env, config, source_is_dir)->0.text,
            data_location_of(state, env, config, source_is_dir)->0.path,
        ),
        !same_path(
            requested_next(state, env, path)->Ok_0,
            data_location_of(state, env, config, source_is_dir)->0.path,
        ),
    ensures
        ({
            let change = requested_change(
                state,
                env,
                config,
                source_is_dir,
                path,
                RepoPathIntent::Migrate,
            );
            &&& pending_source(env, change.config) == Some(change.data_location.path)
            &&& requested_base(restarted(state), env, change.config) == Some(change.next)
            &&& session_base(restarted(state), env, change.config, true) == Some(
                change.data_location.path,
            )
        }),
{
}

/// Law: a change that adopts a library, or that asks for the location where the data is already,
/// leaves nothing to move: when the app starts again it runs against the requested path, if that
/// is stored as a text that stands for it.
pub proof fn law_adoption_switches_without_a_move(
    state: StateView,
    env: EnvironmentView,
    config: ConfigView,
    source_is_dir: bool,
    path: Option<Seq<char>>,
    intent: RepoPathIntent,
    marker_is_dir: bool,
)
    requires
        session_base(state, env, config, source_is_dir) is Some,
        requested_next(state, env, path) is Ok,
        path is None ==> home_base(state, env) is Some,
        path is Some ==> reads_back(env, requested_next(state, env, path)->Ok_0),
        intent == RepoPathIntent::Adopt || same_path(
            requested_next(state, env, path)->Ok_0,
            data_location_of(state, env, config, source_is_dir)->0.path,
        ),
    ensures
        ({
            let change = requested_change(state, env, config, source_is_dir, path, intent);
            &&& change.config.pending_migration_from is None
            &&& session_base(restarted(state), env, change.config, marker_is_dir) == Some(
                change.next,
            )
        }),
{
}

/// Law: a request for the default location is stored as no path at all, so that the library keeps
/// following home.
pub proof fn law_default_location_is_stored_as_no_path(
    state: StateView,
    env: EnvironmentView,
    config: ConfigView,
    source_is_dir: bool,
    intent: RepoPathIntent,
)
    requires
        home_base(state, env) is Some,
    ensures
        ({
            let change = requested_change(state, env, config, source_is_dir, None, intent);
            &&& change.config.repo_path is None
            &&& requested_base(restarted(state), env, change.config) == home_base(state, env)
        }),
{
}

/// Law: abandoning a switch leaves nothing pending, and when the app starts again it runs against
/// the library that the session had open, if that is stored as a text that stands for it, or
/// against the default location, if the two are one directory.
pub proof fn law_cancelling_stays_with_the_library(
    state: StateView,
    env: EnvironmentView,
    config: ConfigView,
    source_is_dir: bool,
    canonical_live: Option<PathView>,
    canonical_default: Option<PathView>,
    marker_is_dir: bool,
)
    requires
        session_base(state, env, config, source_is_dir) is Some,
        home_base(state, env) is Some,
        same_dir(
            session_base(state, env, config, source_is_dir)->0,
            home_base(state, env)->0,
            canonical_live,
            canonical_default,
        ) || stands_for(
            env,
            session_place(state, env, config, source_is_dir)->0.text,
            session_base(state, env, config, source_is_dir)->0,
        ),
    ensures
        ({
            let location = session_base(state, env, config, source_is_dir)->0;
            let is_default = same_dir(
                location,
                home_base(state, env)->0,
                canonical_live,
                canonical_default,
            );
            let kept = settled_config(
                session_place(state, env, config, source_is_dir)->0,
                is_default,
            );
            let next = session_base(restarted(state), env, kept, marker_is_dir);
            &&& kept.pending_migration_from is None
            &&& is_default ==> kept.repo_path is None && next == home_base(state, env)
            &&& !is_default ==> next == Some(location)
            &&& next == requested_base(restarted(state), env, kept)
        }),
{
}

/// The settings that abandoning a switch leaves.
pub open spec fn cancelled(
    state: StateView,
    env: EnvironmentView,
    config: ConfigView,
    source_is_dir: bool,
    canonical_live: Option<PathView>,
    canonical_default: Option<PathView>,
) -> ConfigView {
    settled_config(
        session_place(state, env, config, source_is_dir)->0,
        same_dir(
            session_base(state, env, config, source_is_dir)->0,
            home_base(state, env)->0,
            canonical_live,
            canonical_default,
        ),
    )
}

/// Law: of two moves that are requested before the app starts again, the second replaces the first
/// one's target and keeps its source. The data is never looked for at a path to which it did not
/// move yet. Where the second request leads back to the source, nothing is pending any more. The
/// session stays where it was all along. The source is a directory, and what is stored stands for
/// what was meant.
pub proof fn law_second_change_keeps_the_first_source(
    state: StateView,
    env: EnvironmentView,
    config: ConfigView,
    source_is_dir: bool,
    first: Option<Seq<char>>,
    second: Option<Seq<char>>,
    marker_is_dir: bool,
    change: ChangeView,
    after: StateView,
    again: ChangeView,
)
    requires
        state.base_dir_override is None,
        config.pending_migration_from is None,
        session_base(state, env, config, source_is_dir) is Some,
        requested_next(state, env, first) is Ok,
        requested_next(state, env, second) is Ok,
        second is None ==> home_base(state, env) is Some,
        second is Some ==> reads_back(env, requested_next(state, env, second)->Ok_0),
        stands_for(
            env,
            session_place(state, env, config, source_is_dir)->0.text,
            session_base(state, env, config, source_is_dir)->0,
        ),
        reads_back(env, session_base(state, env, config, source_is_dir)->0),
        change == requested_change(
            state,
            env,
            config,
            source_is_dir,
            first,
            RepoPathIntent::Migrate,
        ),
        !same_path(change.next, session_base(state, env, config, source_is_dir)->0),
        after == kept_session(state, env, change, true),
        again == requested_change(
            after,
            env,
            change.config,
            true,
            second,
            RepoPathIntent::Migrate,
        ),
    ensures
        ({
            let source = session_base(state, env, config, source_is_dir)->0;
            let back = same_path(again.next, source);
            let last = kept_session(after, env, again, marker_is_dir);
            &&& pending_source(env, change.config) == Some(source)
            &&& again.data_location.path == source
            &&& again.config.repo_path == (if second is Some {
                Some(text_of(env.platform, again.next))
            } else {
                None
            })
            &&& requested_base(after, env, again.config) == Some(again.next)
            &&& back ==> {
                &&& again.config.pending_migration_from is None
                &&& switch_target(last, env, again.config, marker_is_dir) is None
                &&& same_path(
                    session_base(last, env, again.config, marker_is_dir)->0,
                    source,
                )
            }
            &&& !back ==> {
                &&& again.config.pending_migration_from == Some(text_of(env.platform, source))
                &&& pending_source(env, again.config) == Some(source)
                &&& marker_is_dir ==> session_base(last, env, again.config, true) == Some(source)
                    && switch_target(last, env, again.config, true) == Some(again.next)
            }
        }),
{
    let source = session_base(state, env, config, source_is_dir)->0;
    law_same_path_reflexive(source);
    law_same_path_reflexive(again.next);
}

/// Law: a change that is abandoned before the app starts again leaves the library where it was,
/// while the session runs and when the app starts again; nothing is pending any more, and no switch
/// is announced. The library is a directory, and what is stored stands for what was meant. A
/// library that is the default one under another path is left out: it is stored as no path.
pub proof fn law_abandoned_changes_leave_the_library_in_place(
    state: StateView,
    env: EnvironmentView,
    config: ConfigView,
    source_is_dir: bool,
    path: Option<Seq<char>>,
    intent: RepoPathIntent,
    canonical_live: Option<PathView>,
    canonical_default: Option<PathView>,
    marker_is_dir: bool,
    change: ChangeView,
    after: StateView,
    kept: ConfigView,
)
    requires
        state.base_dir_override is None,
        session_base(state, env, config, source_is_dir) is Some,
        home_base(state, env) is Some,
        requested_next(state, env, path) is Ok,
        path is Some ==> reads_back(env, requested_next(state, env, path)->Ok_0),
        stands_for(
            env,
            session_place(state, env, config, source_is_dir)->0.text,
            session_base(state, env, config, source_is_dir)->0,
        ),
        reads_back(env, session_base(state, env, config, source_is_dir)->0),
        change == requested_change(state, env, config, source_is_dir, path, intent),
        after == kept_session(state, env, change, true),
        ({
            let location = session_base(after, env, change.config, true)->0;
            same_path(location, home_base(state, env)->0) || !same_dir(
                location,
                home_base(state, env)->0,
                canonical_live,
                canonical_default,
            )
        }),
        kept == cancelled(after, env, change.config, true, canonical_live, canonical_default),
    ensures
        ({
            let location = session_base(state, env, config, source_is_dir)->0;
            let now = session_base(after, env, kept, marker_is_dir);
            let next = session_base(restarted(after), env, kept, marker_is_dir);
            &&& kept.pending_migration_from is None
            &&& now is Some && same_path(now->0, location)
            &&& next is Some && same_path(next->0, location)
            &&& switch_target(after, env, kept, marker_is_dir) is None
        }),
{
    let location = session_base(state, env, config, source_is_dir)->0;
    let default_location = home_base(state, env)->0;
    let held = session_base(after, env, change.config, true)->0;
    law_same_path_reflexive(location);
    law_same_path_reflexive(default_location);
    law_same_path_reflexive(held);
    assert(change.data_location == session_place(state, env, config, source_is_dir)->0);
    assert(same_path(held, location));
    if same_path(held, default_location) {
        law_same_path_equivalence(held, default_location, held);
        law_same_path_equivalence(default_location, held, location);
        law_same_path_equivalence(default_location, location, location);
        assert(kept.repo_path is None);
    } else {
        assert(requested_base(after, env, kept) == Some(held));
    }
}

/// Law: settings pass for those of a fresh installation only where there is no file.
pub proof fn law_unusable_settings_are_not_missing(path: Seq<char>, file: ConfigFile)
    ensures
        config_state(path, file) is Missing <==> file is NotFound,
        config_state(path, file) is Valid <==> file is Parsed,
        file matches ConfigFile::Parsed(config) ==> settings_of(config_state(path, file))
            == config@,
        !(file is Parsed) ==> settings_of(config_state(path, file)) == no_settings(),
{
}

} // verus!
