//! What a request for another location comes to, and what the session reports of it.

use vstd::prelude::*;

use crate::central_repo::{
    config_file, config_place, config_state, data_location_of, home_base, home_place, in_library,
    kept_session, live_base, normalized, path_error_text, pending_source, requested_base,
    requested_config, requested_next, requested_place, session_base, session_place, settings_of,
    settled_config, switch_target, usable, ChangeView, ConfigFile, ConfigStateView, ConfigView,
    PathError, RepoPathIntent, CACHE_DIR_NAME, DATABASE_FILE_NAME, LOGS_DIR_NAME,
    SCENARIOS_DIR_NAME, SKILLS_DIR_NAME,
};
use crate::environment::EnvironmentView;
use crate::location_laws::{cancelled, requested_change};
use crate::path_laws::{begins_at_home, dot_free, law_which_paths_are_accepted, valid_path};
use crate::paths::{
    absolute, child_of, collapse, components_of, joined, prefix_len, same_path, text_of, PathView,
    Platform,
};
use crate::places::{child_place, PlaceView};
use crate::state::StateView;
use crate::text::trimmed;
use crate::text_laws::{all_white, law_surrounding_white_space_makes_no_difference};

verus! {

// ---------------------------------------------------------------------------------------
// What a written path stands for
// ---------------------------------------------------------------------------------------

/// Law: an absolute path that the user wrote stands for itself with `.` and `..` carried out; a `~`
/// alone stands for home; and a `~` with a separator behind it stands for the rest as seen from
/// home. What begins at home is refused for want of a home if and only if there is none.
pub proof fn law_written_paths_stand_for_places(env: EnvironmentView, raw: Seq<char>)
    ensures
        ({
            let text = trimmed(raw);
            let result = normalized(env, raw);
            &&& text.len() == 0 ==> result == Err::<PathView, PathError>(PathError::Empty)
            &&& text.len() > 0 && !begins_at_home(text) ==> {
                let path = components_of(env.platform, text);
                &&& absolute(env.platform, path) ==> result == Ok::<PathView, PathError>(
                    collapse(path),
                )
                &&& !absolute(env.platform, path) ==> result == Err::<PathView, PathError>(
                    PathError::NotAbsolute,
                )
            }
            &&& begins_at_home(text) && env.home is None ==> result == Err::<PathView, PathError>(
                PathError::NoHome,
            )
            &&& text == seq!['~'] && env.home is Some && absolute(
                env.platform,
                env.home->0.path,
            ) ==> result == Ok::<PathView, PathError>(collapse(env.home->0.path))
            &&& text.len() >= 2 && begins_at_home(text) && env.home is Some ==> {
                let path = joined(
                    env.platform,
                    env.home->0.path,
                    components_of(env.platform, text.skip(2)),
                );
                &&& absolute(env.platform, path) ==> result == Ok::<PathView, PathError>(
                    collapse(path),
                )
                &&& !absolute(env.platform, path) ==> result == Err::<PathView, PathError>(
                    PathError::NotAbsolute,
                )
            }
            &&& result == Err::<PathView, PathError>(PathError::NoHome) ==> env.home is None
                && begins_at_home(text)
            &&& result == Err::<PathView, PathError>(PathError::Empty) ==> text.len() == 0
        }),
{
    let text = trimmed(raw);
    if text == seq!['~'] {
        assert(text.len() == 1);
    }
}

/// Law: white space around a written path makes no difference.
pub proof fn law_written_paths_may_be_padded(
    env: EnvironmentView,
    head: Seq<char>,
    raw: Seq<char>,
    tail: Seq<char>,
)
    requires
        all_white(head),
        all_white(tail),
    ensures
        normalized(env, head + raw + tail) == normalized(env, raw),
{
    law_surrounding_white_space_makes_no_difference(head, raw, tail);
}

/// Law: a stored path is usable if and only if it is there and stands for a place, and then it is
/// that place.
pub proof fn law_usable_paths_are_those_that_stand_for_a_place(
    env: EnvironmentView,
    raw: Option<Seq<char>>,
)
    ensures
        usable(env, raw) is Some <==> raw is Some && normalized(env, raw->0) is Ok,
        usable(env, raw) is Some ==> normalized(env, raw->0) == Ok::<PathView, PathError>(
            usable(env, raw)->0,
        ),
{
}

// ---------------------------------------------------------------------------------------
// Where things are
// ---------------------------------------------------------------------------------------

/// Law: the default library lies directly below home, or below what stands in for it; it is unknown
/// if and only if both are.
pub proof fn law_the_default_library_lies_below_home(state: StateView, env: EnvironmentView)
    ensures
        state.home_dir_override matches Some(home) ==> home_place(state, env) == Some(
            child_place(env.platform, home, ".skills-manager"@),
        ) && home_base(state, env) == Some(child_of(home.path, ".skills-manager"@)),
        state.home_dir_override is None ==> (env.home matches Some(home) ==> home_place(state, env)
            == Some(child_place(env.platform, home, ".skills-manager"@)) && home_base(state, env)
            == Some(child_of(home.path, ".skills-manager"@))),
        home_base(state, env) is None <==> state.home_dir_override is None && env.home is None,
{
}

/// Law: the settings file is the one that stands in for it, or else lies below the settings
/// directory, or else below the default library; it is unknown if and only if none of these is
/// known.
pub proof fn law_the_settings_file_has_one_place(state: StateView, env: EnvironmentView)
    ensures
        state.config_path_override is Some ==> config_place(state, env)
            == state.config_path_override,
        state.config_path_override is None ==> (env.config_dir matches Some(dir) ==> config_file(
            state,
            env,
        ) == Some(child_of(child_of(dir.path, "skills-manager"@), "repo-config.json"@))),
        state.config_path_override is None && env.config_dir is None ==> (home_base(state, env)
            matches Some(base) ==> config_file(state, env) == Some(
            child_of(child_of(base, "skills-manager"@), "repo-config.json"@),
        )),
        config_file(state, env) is None <==> state.config_path_override is None && env.config_dir
            is None && home_base(state, env) is None,
        config_place(state, env) is Some <==> config_file(state, env) is Some,
        config_place(state, env) matches Some(place) ==> config_file(state, env) == Some(
            place.path,
        ),
{
}

/// Law: a settings file that cannot be used is reported with its path and the reason; one that
/// holds settings gives exactly those, and anything else those of a fresh installation.
pub proof fn law_settings_files_are_judged_by_their_contents(path: Seq<char>, file: ConfigFile)
    ensures
        match file {
            ConfigFile::NotFound => config_state(path, file) is Missing,
            ConfigFile::Unreadable(err) => config_state(path, file) == ConfigStateView::Invalid(
                "cannot read "@ + path + ": "@ + err@,
            ),
            ConfigFile::Malformed(err) => config_state(path, file) == ConfigStateView::Invalid(
                "corrupt JSON in "@ + path + ": "@ + err@,
            ),
            ConfigFile::Parsed(config) => config_state(path, file) == ConfigStateView::Valid(
                config@,
            ) && settings_of(config_state(path, file)) == config@,
        },
        !(file is Parsed) ==> settings_of(config_state(path, file)).repo_path is None
            && settings_of(config_state(path, file)).pending_migration_from is None,
{
}

/// Law: a session that is pinned runs where it is pinned, whatever the settings say and whatever is
/// on disk. One that is not runs at the source of a pending move while that is a directory, and at
/// the requested path otherwise; and that is the stored path if it is usable, or else the default.
pub proof fn law_sessions_run_where_their_data_is(
    state: StateView,
    env: EnvironmentView,
    config: ConfigView,
    source_is_dir: bool,
)
    ensures
        state.base_dir_override is Some ==> session_place(state, env, config, source_is_dir)
            == state.base_dir_override,
        state.base_dir_override is None ==> session_place(state, env, config, source_is_dir) == (
        match usable(env, config.pending_migration_from) {
            Some(source) => if source_is_dir {
                Some(PlaceView { path: source, text: text_of(env.platform, source) })
            } else {
                requested_place(state, env, config)
            },
            None => requested_place(state, env, config),
        }),
        requested_place(state, env, config) == (match usable(env, config.repo_path) {
            Some(path) => Some(PlaceView { path, text: text_of(env.platform, path) }),
            None => home_place(state, env),
        }),
        pending_source(env, config) == usable(env, config.pending_migration_from),
        session_base(state, env, config, source_is_dir) == (match session_place(
            state,
            env,
            config,
            source_is_dir,
        ) {
            Some(place) => Some(place.path),
            None => None,
        }),
        requested_base(state, env, config) == (match requested_place(state, env, config) {
            Some(place) => Some(place.path),
            None => None,
        }),
        live_base(state, env, config, source_is_dir) == session_base(
            StateView { base_dir_override: None, ..state },
            env,
            config,
            source_is_dir,
        ),
{
}

/// Law: everything that belongs to the library lies directly in the library that the session runs
/// against: where it is pinned to, at the source of a pending move while that is a directory, and
/// at the requested path otherwise. So it never lies where the data has yet to be moved to.
pub proof fn law_everything_lies_in_the_sessions_library(
    state: StateView,
    env: EnvironmentView,
    config: ConfigView,
    source_is_dir: bool,
    name: Seq<char>,
)
    requires
        session_base(state, env, config, source_is_dir) is Some,
    ensures
        in_library(state, env, config, source_is_dir, name) == child_of(
            session_base(state, env, config, source_is_dir)->0,
            name,
        ),
        state.base_dir_override matches Some(place) ==> in_library(
            state,
            env,
            config,
            source_is_dir,
            name,
        ) == child_of(place.path, name),
        state.base_dir_override is None && source_is_dir ==> (usable(
            env,
            config.pending_migration_from,
        ) matches Some(source) ==> in_library(state, env, config, source_is_dir, name) == child_of(
            source,
            name,
        )),
{
}

/// Law: the parts of a library bear fixed names: those of its directories and of its database.
pub proof fn law_the_parts_of_a_library_have_fixed_names(
    state: StateView,
    env: EnvironmentView,
    config: ConfigView,
    source_is_dir: bool,
)
    requires
        session_base(state, env, config, source_is_dir) is Some,
    ensures
        ({
            let base = session_base(state, env, config, source_is_dir)->0;
            &&& in_library(state, env, config, source_is_dir, SKILLS_DIR_NAME@) == child_of(
                base,
                "skills"@,
            )
            &&& in_library(state, env, config, source_is_dir, SCENARIOS_DIR_NAME@) == child_of(
                base,
                "scenarios"@,
            )
            &&& in_library(state, env, config, source_is_dir, CACHE_DIR_NAME@) == child_of(
                base,
                "cache"@,
            )
            &&& in_library(state, env, config, source_is_dir, LOGS_DIR_NAME@) == child_of(
                base,
                "logs"@,
            )
            &&& in_library(state, env, config, source_is_dir, DATABASE_FILE_NAME@) == child_of(
                base,
                "skills-manager.db"@,
            )
        }),
{
}

/// Law: a switch is announced if and only if the requested path is another one than that of the
/// library that the session runs against, and what is announced is the requested path. Whether the
/// session is pinned, and whether a move is pending, makes no difference beyond that.
pub proof fn law_switches_are_announced_while_they_are_due(
    state: StateView,
    env: EnvironmentView,
    config: ConfigView,
    source_is_dir: bool,
)
    requires
        session_base(state, env, config, source_is_dir) is Some,
        requested_base(state, env, config) is Some,
    ensures
        ({
            let requested = requested_base(state, env, config)->0;
            let running = session_base(state, env, config, source_is_dir)->0;
            let announced = switch_target(state, env, config, source_is_dir);
            &&& announced is None <==> same_path(requested, running)
            &&& announced is Some ==> announced == Some(requested)
        }),
        // A pinned session announces what it would without the pin, if it is pinned to the library
        // that it would run against.
        ({
            let free = StateView { base_dir_override: None, ..state };
            live_base(state, env, config, source_is_dir) == session_base(
                state,
                env,
                config,
                source_is_dir,
            ) ==> switch_target(state, env, config, source_is_dir) == switch_target(
                free,
                env,
                config,
                source_is_dir,
            )
        }),
{
}

/// Law: after a move that could not be done, the session runs at the source, pinned, and still
/// announces the switch to the requested path, since the settings keep the move.
pub proof fn law_failed_moves_are_still_announced(
    state: StateView,
    env: EnvironmentView,
    config: ConfigView,
    source: PlaceView,
    source_is_dir: bool,
)
    requires
        state.base_dir_override == Some(source),
        requested_base(state, env, config) is Some,
        !same_path(requested_base(state, env, config)->0, source.path),
    ensures
        switch_target(state, env, config, source_is_dir) == requested_base(state, env, config),
{
}

// ---------------------------------------------------------------------------------------
// What a request comes to
// ---------------------------------------------------------------------------------------

/// Law: a request that names a path comes to exactly what that text stands for, and is refused for
/// the same reason as the text is; one that names none asks for the default library.
pub proof fn law_requests_come_to_what_they_name(
    state: StateView,
    env: EnvironmentView,
    raw: Seq<char>,
)
    ensures
        requested_next(state, env, Some(raw)) == normalized(env, raw),
        home_base(state, env) matches Some(base) ==> requested_next(state, env, None) == Ok::<
            PathView,
            PathError,
        >(base),
{
}

/// Law: with home known, a request that names a path is accepted if and only if the path is
/// absolute or begins at home, and what it then asks for is absolute and free of dots. On Windows a
/// drive behind the `~` is left out: it stands for a place of its own.
pub proof fn law_requests_that_are_accepted(state: StateView, env: EnvironmentView, raw: Seq<char>)
    requires
        env.home matches Some(home) && valid_path(env.platform, home.path) && absolute(
            env.platform,
            home.path,
        ),
        env.platform == Platform::Windows && trimmed(raw).len() >= 2 && begins_at_home(trimmed(raw))
            ==> prefix_len(env.platform, trimmed(raw).skip(2)) == 0,
    ensures
        ({
            let text = trimmed(raw);
            let result = requested_next(state, env, Some(raw));
            &&& result is Ok <==> text.len() > 0 && (begins_at_home(text) || absolute(
                env.platform,
                components_of(env.platform, text),
            ))
            &&& result == Err::<PathView, PathError>(PathError::Empty) <==> text.len() == 0
            &&& result matches Ok(path) ==> absolute(env.platform, path) && dot_free(path)
        }),
{
    law_which_paths_are_accepted(env, raw);
}

/// Law: a request stores the path that it comes to, and none where it asks for the default. A move
/// is stored if and only if one was asked for and the data lies elsewhere, with the place of the
/// data as its source. An adoption never stores one.
pub proof fn law_requests_store_what_was_asked_for(
    env: EnvironmentView,
    path: Option<Seq<char>>,
    next: PathView,
    data_location: PlaceView,
    intent: RepoPathIntent,
)
    ensures
        ({
            let stored = requested_config(env, path, next, data_location, intent);
            &&& path is None <==> stored.repo_path is None
            &&& path is Some ==> stored.repo_path == Some(text_of(env.platform, next))
            &&& stored.pending_migration_from is Some <==> intent == RepoPathIntent::Migrate
                && !same_path(next, data_location.path)
            &&& stored.pending_migration_from is Some ==> stored.pending_migration_from == Some(
                data_location.text,
            )
        }),
{
}

/// Law: the data lies at the source of a pending move while that is a directory, whatever the
/// session is pinned to, and where the session runs otherwise.
pub proof fn law_the_data_lies_at_the_pending_source(
    state: StateView,
    env: EnvironmentView,
    config: ConfigView,
    source_is_dir: bool,
)
    ensures
        ({
            let data = data_location_of(state, env, config, source_is_dir);
            &&& usable(env, config.pending_migration_from) matches Some(source) ==> (source_is_dir
                ==> data == Some(PlaceView { path: source, text: text_of(env.platform, source) }))
            &&& usable(env, config.pending_migration_from) is None || !source_is_dir ==> data
                == session_place(state, env, config, source_is_dir)
        }),
{
}

/// Law: once a change is saved, the session is pinned if and only if the saved settings would lead
/// it away from its data, and then to the data; nothing else about it changes.
pub proof fn law_sessions_are_pinned_only_where_they_must_be(
    state: StateView,
    env: EnvironmentView,
    change: ChangeView,
    marker_is_dir: bool,
)
    requires
        live_base(state, env, change.config, marker_is_dir) is Some,
    ensures
        ({
            let kept = kept_session(state, env, change, marker_is_dir);
            let stays = same_path(
                live_base(state, env, change.config, marker_is_dir)->0,
                change.data_location.path,
            );
            &&& stays ==> kept == state
            &&& !stays ==> kept == (StateView {
                base_dir_override: Some(change.data_location),
                ..state
            })
        }),
{
}

/// Law: to abandon a switch stores the library's own place, and none where that is the default one;
/// no move stays pending.
pub proof fn law_abandoning_stores_where_the_library_is(location: PlaceView, is_default: bool)
    ensures
        ({
            let stored = settled_config(location, is_default);
            &&& stored.pending_migration_from is None
            &&& is_default <==> stored.repo_path is None
            &&& !is_default ==> stored.repo_path == Some(location.text)
        }),
{
}

/// Law: an accepted request changes the settings to what was asked for, from where the data lies,
/// and abandoning a switch settles on where the session runs: both as the functions before say.
pub proof fn law_changes_and_cancellations_are_made_of_their_parts(
    state: StateView,
    env: EnvironmentView,
    config: ConfigView,
    source_is_dir: bool,
    path: Option<Seq<char>>,
    intent: RepoPathIntent,
    canonical_live: Option<PathView>,
    canonical_default: Option<PathView>,
)
    requires
        session_base(state, env, config, source_is_dir) is Some,
        home_base(state, env) is Some,
        requested_next(state, env, path) is Ok,
    ensures
        ({
            let change = requested_change(state, env, config, source_is_dir, path, intent);
            let data = data_location_of(state, env, config, source_is_dir)->0;
            &&& path matches Some(raw) ==> normalized(env, raw) == Ok::<PathView, PathError>(
                change.next,
            )
            &&& path is None ==> change.next == home_base(state, env)->0
            &&& change.data_location == data
            &&& change.config.repo_path is Some <==> path is Some
            &&& path is Some ==> change.config.repo_path == Some(
                text_of(env.platform, change.next),
            )
            &&& change.config.pending_migration_from == (if intent == RepoPathIntent::Migrate
                && !same_path(change.next, data.path) {
                Some(data.text)
            } else {
                None
            })
        }),
        ({
            let stored = cancelled(
                state,
                env,
                config,
                source_is_dir,
                canonical_live,
                canonical_default,
            );
            let place = session_place(state, env, config, source_is_dir)->0;
            let default_place = home_base(state, env)->0;
            let one = same_path(place.path, default_place) || (canonical_live is Some
                && canonical_default is Some && same_path(
                canonical_live->0,
                canonical_default->0,
            ));
            &&& stored.pending_migration_from is None
            &&& one <==> stored.repo_path is None
            &&& !one ==> stored.repo_path == Some(place.text)
        }),
{
}

/// Law: each reason for refusing a path is explained in its own words.
pub proof fn law_refusals_are_told_apart(a: PathError, b: PathError)
    ensures
        path_error_text(a) == path_error_text(b) ==> a == b,
        path_error_text(PathError::Empty) == "Path cannot be empty"@,
        path_error_text(PathError::NoHome) == "Cannot determine home directory"@,
        path_error_text(PathError::NotAbsolute) == "Central repository path must be absolute"@,
{
    reveal_strlit("Path cannot be empty");
    reveal_strlit("Cannot determine home directory");
    reveal_strlit("Central repository path must be absolute");
    assert("Path cannot be empty"@.len() == 20);
    assert("Cannot determine home directory"@.len() == 31);
    assert("Central repository path must be absolute"@.len() == 40);
}

} // verus!
