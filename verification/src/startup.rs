//! Making the library ready when the app starts.
//!
//! Startup judges the settings, carries out a pending move, takes over what an earlier
//! version left behind, and creates the directories of the library. Each stage says what is to
//! be done on disk; the event that comes back decides what follows.

use vstd::prelude::*;
use vstd::string::*;

use crate::central_repo::{
    base_dir, cache_dir, logs_dir, normalize_path, normalized, requested_base, requested_location,
    requested_place, scenarios_dir, session_base, settings_of, skills_dir, ConfigState,
    ConfigStateView, ConfigView, RepoPathConfig, CACHE_DIR_NAME, LOGS_DIR_NAME,
    SCENARIOS_DIR_NAME, SKILLS_DIR_NAME,
};
use crate::environment::{Environment, EnvironmentView};
use crate::migration::{
    advance_migration, answers, migrate_repo_if_needed, migration_start, migration_step, Migration,
    MigrationEvent, MigrationOutcome, MigrationTurn, MigrationView, OutcomeView, StepView,
    TurnView,
};
use crate::os_text::{os_texts, OsText, OsTextView};
use crate::paths::{child_of, entry_of, PathView, Platform, RepoPath};
use crate::places::{plain_place, Place};
use crate::state::{
    base_dir_override_active, push_startup_warning, record_startup_error,
    set_runtime_base_dir_override, text_opt, with_code, RepoState, StateView,
};
use crate::text::same_text;

verus! {

/// The code of the warning that the stored path cannot be used.
pub const REPO_PATH_INVALID: &'static str = "repo_path_invalid";

/// The code of the warning that the settings cannot be used.
pub const CONFIG_UNREADABLE: &'static str = "config_unreadable";

/// The directory below the home directory where an early version kept its skills.
pub const LEGACY_DIR_NAME: &'static str = ".agent-skills";

/// The entries of the legacy directory on their way into the library, one after the other.
pub struct TakeOver {
    pub base: RepoPath,
    pub legacy: RepoPath,
    pub names: Vec<OsText>,
    /// Which of the names is next.
    pub next: usize,
}

/// The value of a [`TakeOver`].
pub struct TakeOverView {
    pub base: PathView,
    pub legacy: PathView,
    pub names: Seq<OsTextView>,
    pub next: int,
}

impl View for TakeOver {
    type V = TakeOverView;

    open spec fn view(&self) -> TakeOverView {
        TakeOverView {
            base: self.base@,
            legacy: self.legacy@,
            names: os_texts(self.names@),
            next: self.next as int,
        }
    }
}

/// What is to be done next at startup.
pub enum Startup {
    /// Do the work of the move's stage.
    Migrate { migration: Migration, config: RepoPathConfig },
    /// Save the settings.
    Save { config: RepoPathConfig, outcome: MigrationOutcome },
    /// Read the settings again, and look whether their pending source is a directory.
    Resolve,
    /// Look whether `legacy` exists, and whether `skills` does.
    ProbeLegacy { base: RepoPath, skills: RepoPath, legacy: RepoPath },
    /// Create the directory `base`.
    CreateBase { base: RepoPath, legacy: RepoPath },
    /// List `legacy`. What cannot be listed counts as empty.
    ListLegacy { base: RepoPath, legacy: RepoPath },
    /// Look whether there is something at `place`, where the next entry is to go.
    ProbeEntry { take_over: TakeOver, place: RepoPath },
    /// Rename `entry` to `place`. What cannot be renamed stays.
    MoveEntry { take_over: TakeOver, entry: RepoPath, place: RepoPath },
    /// Read the settings once more, and look whether their pending source is a directory: what
    /// was taken over may have brought settings along.
    Locate,
    /// Create these directories, in order.
    CreateDirs { dirs: Vec<RepoPath> },
    /// Startup is over; the reason is given where it failed.
    Done(Result<(), String>),
}

/// The value of a [`Startup`].
pub enum StartupView {
    Migrate { migration: MigrationView, config: ConfigView },
    Save { config: ConfigView, outcome: OutcomeView },
    Resolve,
    ProbeLegacy { base: PathView, skills: PathView, legacy: PathView },
    CreateBase { base: PathView, legacy: PathView },
    ListLegacy { base: PathView, legacy: PathView },
    ProbeEntry { take_over: TakeOverView, place: PathView },
    MoveEntry { take_over: TakeOverView, entry: PathView, place: PathView },
    Locate,
    CreateDirs { dirs: Seq<PathView> },
    Done(Result<(), String>),
}

/// The values of a list of paths.
pub open spec fn path_views(paths: Seq<RepoPath>) -> Seq<PathView> {
    Seq::new(paths.len(), |i: int| paths[i]@)
}

impl View for Startup {
    type V = StartupView;

    open spec fn view(&self) -> StartupView {
        match self {
            Startup::Migrate { migration, config } => StartupView::Migrate {
                migration: migration@,
                config: config@,
            },
            Startup::Save { config, outcome } => StartupView::Save {
                config: config@,
                outcome: outcome@,
            },
            Startup::Resolve => StartupView::Resolve,
            Startup::ProbeLegacy { base, skills, legacy } => StartupView::ProbeLegacy {
                base: base@,
                skills: skills@,
                legacy: legacy@,
            },
            Startup::CreateBase { base, legacy } => StartupView::CreateBase {
                base: base@,
                legacy: legacy@,
            },
            Startup::ListLegacy { base, legacy } => StartupView::ListLegacy {
                base: base@,
                legacy: legacy@,
            },
            Startup::ProbeEntry { take_over, place } => StartupView::ProbeEntry {
                take_over: take_over@,
                place: place@,
            },
            Startup::MoveEntry { take_over, entry, place } => StartupView::MoveEntry {
                take_over: take_over@,
                entry: entry@,
                place: place@,
            },
            Startup::Locate => StartupView::Locate,
            Startup::CreateDirs { dirs } => StartupView::CreateDirs { dirs: path_views(dirs@) },
            Startup::Done(result) => StartupView::Done(*result),
        }
    }
}

/// What came of the work that a stage asked for.
pub enum StartupEvent {
    Migration(MigrationEvent),
    Saved(Result<(), String>),
    Resolved { config: RepoPathConfig, source_is_dir: bool },
    LegacyProbed { legacy_exists: bool, skills_exist: bool },
    BaseCreated(Result<(), String>),
    /// The names of the entries.
    LegacyListed(Vec<OsText>),
    /// Whether the place of the entry is taken.
    EntryProbed { taken: bool },
    EntryMoved,
    DirsCreated(Result<(), String>),
}

/// Whether `event` reports on the work of `stage`. Nothing does once startup is over.
pub open spec fn startup_answers(stage: StartupView, event: StartupEvent) -> bool {
    match stage {
        StartupView::Migrate { migration, .. } => event matches StartupEvent::Migration(e)
            && answers(migration.stage, e),
        StartupView::Save { .. } => event is Saved,
        StartupView::Resolve => event is Resolved,
        StartupView::ProbeLegacy { .. } => event is LegacyProbed,
        StartupView::CreateBase { .. } => event is BaseCreated,
        StartupView::ListLegacy { .. } => event is LegacyListed,
        StartupView::ProbeEntry { .. } => event is EntryProbed,
        StartupView::MoveEntry { .. } => event is EntryMoved,
        StartupView::Locate => event is Resolved,
        StartupView::CreateDirs { .. } => event is DirsCreated,
        StartupView::Done(_) => false,
    }
}

/// What one step of startup leads to.
pub struct StartupStep {
    pub stage: StartupView,
    pub state: StateView,
}

/// The session after its settings were judged: unusable settings, or an unusable path in
/// them, never pass in silence.
pub open spec fn judged(
    env: EnvironmentView,
    loaded: ConfigStateView,
    state: StateView,
) -> StateView {
    match loaded {
        ConfigStateView::Missing => state,
        ConfigStateView::Invalid(_) => StateView {
            startup_warnings: with_code(state.startup_warnings, CONFIG_UNREADABLE@),
            ..state
        },
        ConfigStateView::Valid(config) => match config.repo_path {
            Some(raw) => if normalized(env, raw) is Err {
                StateView {
                    startup_warnings: with_code(state.startup_warnings, REPO_PATH_INVALID@),
                    ..state
                }
            } else {
                state
            },
            None => state,
        },
    }
}

/// What follows once a move is over and the settings are as they should be: a session that
/// stays at the source is pinned to it.
pub open spec fn after_outcome(
    platform: Platform,
    outcome: OutcomeView,
    state: StateView,
) -> StartupStep {
    StartupStep {
        stage: StartupView::Resolve,
        state: match outcome {
            OutcomeView::Proceed => state,
            OutcomeView::UseSource(source) => StateView {
                base_dir_override: Some(plain_place(platform, source)),
                ..state
            },
        },
    }
}

/// What follows a step of the move. The settings are saved if they changed.
pub open spec fn after_migration_step(
    platform: Platform,
    pending_before: Option<Seq<char>>,
    step: StepView,
) -> StartupStep {
    match step.turn {
        TurnView::Continue(migration) => StartupStep {
            stage: StartupView::Migrate { migration, config: step.config },
            state: step.state,
        },
        TurnView::Finished(outcome) => if step.config.pending_migration_from != pending_before {
            StartupStep {
                stage: StartupView::Save { config: step.config, outcome },
                state: step.state,
            }
        } else {
            after_outcome(platform, outcome, step.state)
        },
    }
}

/// How startup begins. A session that is pinned to a library leaves a pending move alone: it
/// belongs to another library.
pub open spec fn startup_begin(
    env: EnvironmentView,
    loaded: ConfigStateView,
    state: StateView,
) -> StartupStep {
    let config = settings_of(loaded);
    let warned = judged(env, loaded, state);
    if state.base_dir_override is Some {
        StartupStep { stage: StartupView::Resolve, state: warned }
    } else {
        after_migration_step(
            env.platform,
            config.pending_migration_from,
            migration_start(env, requested_place(state, env, config)->0, warned, config),
        )
    }
}

/// The note that the settings could not be saved.
pub open spec fn unsaved_text(err: Seq<char>) -> Seq<char> {
    "central repo: failed to persist migration state ("@ + err + "); it may retry next launch"@
}

/// The directories of a library at `base`; the skills may have been pinned elsewhere.
pub open spec fn library_dirs(state: StateView, base: PathView) -> Seq<PathView> {
    seq![
        match state.skills_dir_override {
            Some(path) => path,
            None => child_of(base, SKILLS_DIR_NAME@),
        },
        child_of(base, SCENARIOS_DIR_NAME@),
        child_of(base, CACHE_DIR_NAME@),
        child_of(base, LOGS_DIR_NAME@),
    ]
}

/// What follows in a take-over: whether the place of the next entry is taken is looked up just
/// before that entry is moved.
pub open spec fn next_entry(take_over: TakeOverView) -> StartupView {
    if take_over.next < take_over.names.len() {
        StartupView::ProbeEntry {
            take_over,
            place: entry_of(take_over.base, take_over.names[take_over.next]),
        }
    } else {
        StartupView::Locate
    }
}

/// A take-over that is done with its next entry.
pub open spec fn entry_done(take_over: TakeOverView) -> TakeOverView {
    TakeOverView { next: take_over.next + 1, ..take_over }
}

/// How startup goes on after `event`.
pub open spec fn startup_step(
    env: EnvironmentView,
    lock_file_name: Seq<char>,
    stage: StartupView,
    event: StartupEvent,
    state: StateView,
) -> StartupStep {
    match (stage, event) {
        (StartupView::Migrate { migration, config }, StartupEvent::Migration(e)) =>
        after_migration_step(
            env.platform,
            config.pending_migration_from,
            migration_step(env.platform, lock_file_name, migration, e, state, config),
        ),
        (StartupView::Save { config, outcome }, StartupEvent::Saved(result)) => after_outcome(
            env.platform,
            outcome,
            match result {
                Ok(_) => state,
                Err(err) => StateView {
                    startup_errors: state.startup_errors.push(unsaved_text(err@)),
                    ..state
                },
            },
        ),
        (StartupView::Resolve, StartupEvent::Resolved { config, source_is_dir }) => {
            let base = session_base(state, env, config@, source_is_dir)->0;
            StartupStep {
                stage: match env.home {
                    Some(home) => StartupView::ProbeLegacy {
                        base,
                        skills: child_of(base, SKILLS_DIR_NAME@),
                        legacy: child_of(home.path, LEGACY_DIR_NAME@),
                    },
                    None => StartupView::Locate,
                },
                state,
            }
        },
        // The take-over comes before the directories are created: a directory that is there
        // already would be taken for a library that was taken over.
        (
            StartupView::ProbeLegacy { base, skills, legacy },
            StartupEvent::LegacyProbed { legacy_exists, skills_exist },
        ) => StartupStep {
            stage: if legacy_exists && !skills_exist {
                StartupView::CreateBase { base, legacy }
            } else {
                StartupView::Locate
            },
            state,
        },
        (StartupView::CreateBase { base, legacy }, StartupEvent::BaseCreated(result)) =>
        StartupStep {
            stage: match result {
                Ok(_) => StartupView::ListLegacy { base, legacy },
                Err(err) => StartupView::Done(Err(err)),
            },
            state,
        },
        (StartupView::ListLegacy { base, legacy }, StartupEvent::LegacyListed(names)) =>
        StartupStep {
            stage: next_entry(TakeOverView { base, legacy, names: os_texts(names@), next: 0 }),
            state,
        },
        // What is in the library already is never overwritten.
        (StartupView::ProbeEntry { take_over, place }, StartupEvent::EntryProbed { taken }) =>
        StartupStep {
            stage: if taken || take_over.next >= take_over.names.len() {
                next_entry(entry_done(take_over))
            } else {
                StartupView::MoveEntry {
                    take_over,
                    entry: entry_of(take_over.legacy, take_over.names[take_over.next]),
                    place,
                }
            },
            state,
        },
        (StartupView::MoveEntry { take_over, .. }, StartupEvent::EntryMoved) => StartupStep {
            stage: next_entry(entry_done(take_over)),
            state,
        },
        (StartupView::Locate, StartupEvent::Resolved { config, source_is_dir }) => StartupStep {
            stage: StartupView::CreateDirs {
                dirs: library_dirs(state, session_base(state, env, config@, source_is_dir)->0),
            },
            state,
        },
        (StartupView::CreateDirs { dirs }, StartupEvent::DirsCreated(result)) => StartupStep {
            stage: StartupView::Done(result),
            state,
        },
        (other, _) => StartupStep { stage: other, state },
    }
}

/// Whether the library that startup looks for is known: whether `home` is, where that matters.
pub open spec fn startup_can_resolve(
    env: EnvironmentView,
    stage: StartupView,
    event: StartupEvent,
    state: StateView,
) -> bool {
    stage is Resolve || stage is Locate ==> (event matches StartupEvent::Resolved {
        config,
        source_is_dir,
    }
        ==> session_base(state, env, config@, source_is_dir) is Some)
}

fn same_opt_text(a: &Option<String>, b: &Option<String>) -> (r: bool)
    ensures
        r == (text_opt(*a) == text_opt(*b)),
{
    match (a, b) {
        (Some(x), Some(y)) => same_text(x.as_str(), y.as_str()),
        (None, None) => true,
        _ => false,
    }
}

fn apply_outcome(state: &mut RepoState, env: &Environment, outcome: MigrationOutcome) -> (r:
    Startup)
    ensures
        (StartupStep { stage: r@, state: final(state)@ }) == after_outcome(
            env@.platform,
            outcome@,
            old(state)@,
        ),
{
    if let MigrationOutcome::UseSource(source) = outcome {
        set_runtime_base_dir_override(state, Some(Place::plain(source, env.platform)));
    }
    Startup::Resolve
}

fn apply_migration_turn(
    state: &mut RepoState,
    env: &Environment,
    pending_before: Option<String>,
    turn: MigrationTurn,
    config: RepoPathConfig,
) -> (r: Startup)
    ensures
        (StartupStep { stage: r@, state: final(state)@ }) == after_migration_step(
            env@.platform,
            text_opt(pending_before),
            StepView { turn: turn@, state: old(state)@, config: config@ },
        ),
{
    match turn {
        MigrationTurn::Continue(migration) => Startup::Migrate { migration, config },
        MigrationTurn::Finished(outcome) => {
            if !same_opt_text(&config.pending_migration_from, &pending_before) {
                Startup::Save { config, outcome }
            } else {
                apply_outcome(state, env, outcome)
            }
        },
    }
}

/// Begin to make the library ready, given the settings as they were found.
pub fn ensure_central_repo(state: &mut RepoState, env: &Environment, loaded: ConfigState) -> (r:
    Startup)
    requires
        old(state)@.base_dir_override is None ==> requested_base(
            old(state)@,
            env@,
            settings_of(loaded@),
        ) is Some,
    ensures
        (StartupStep { stage: r@, state: final(state)@ }) == startup_begin(
            env@,
            loaded@,
            old(state)@,
        ),
{
    let mut config: RepoPathConfig = match loaded {
        ConfigState::Valid(config) => {
            if let Some(raw) = &config.repo_path {
                if normalize_path(raw.as_str(), env).is_err() {
                    push_startup_warning(state, REPO_PATH_INVALID);
                }
            }
            config
        },
        ConfigState::Missing => RepoPathConfig::default(),
        ConfigState::Invalid(_) => {
            push_startup_warning(state, CONFIG_UNREADABLE);
            RepoPathConfig::default()
        },
    };
    if base_dir_override_active(state) {
        return Startup::Resolve;
    }
    let pending_before = config.clone().pending_migration_from;
    let target = requested_location(state, env, &config);
    let turn = migrate_repo_if_needed(state, env, &mut config, &target);
    apply_migration_turn(state, env, pending_before, turn, config)
}

fn place_next(take_over: TakeOver) -> (r: Startup)
    ensures
        r@ == next_entry(take_over@),
{
    if take_over.next < take_over.names.len() {
        let place = take_over.base.entry(&take_over.names[take_over.next]);
        Startup::ProbeEntry { take_over, place }
    } else {
        Startup::Locate
    }
}

fn finish_entry(take_over: TakeOver) -> (r: Startup)
    ensures
        r@ == next_entry(entry_done(take_over@)),
{
    if take_over.next < take_over.names.len() {
        let next = TakeOver {
            base: take_over.base,
            legacy: take_over.legacy,
            names: take_over.names,
            next: take_over.next + 1,
        };
        place_next(next)
    } else {
        Startup::Locate
    }
}

/// Go on making the library ready after the work of a stage was attempted.
pub fn advance_startup(
    state: &mut RepoState,
    env: &Environment,
    startup: Startup,
    event: StartupEvent,
    lock_file_name: &str,
) -> (r: Startup)
    requires
        startup_answers(startup@, event),
        startup_can_resolve(env@, startup@, event, old(state)@),
    ensures
        (StartupStep { stage: r@, state: final(state)@ }) == startup_step(
            env@,
            lock_file_name@,
            startup@,
            event,
            old(state)@,
        ),
{
    match (startup, event) {
        (Startup::Migrate { migration, config }, StartupEvent::Migration(e)) => {
            let mut config = config;
            let pending_before = config.clone().pending_migration_from;
            let turn = advance_migration(state, env, &mut config, migration, e, lock_file_name);
            apply_migration_turn(state, env, pending_before, turn, config)
        },
        (Startup::Save { config: _, outcome }, StartupEvent::Saved(result)) => {
            if let Err(err) = result {
                let mut note = "central repo: failed to persist migration state (".to_owned();
                note.append(err.as_str());
                note.append("); it may retry next launch");
                record_startup_error(state, note);
            }
            apply_outcome(state, env, outcome)
        },
        (Startup::Resolve, StartupEvent::Resolved { config, source_is_dir }) => {
            let base = base_dir(state, env, &config, source_is_dir);
            match &env.home {
                Some(home) => {
                    let skills = base.child(SKILLS_DIR_NAME);
                    let legacy = home.path.child(LEGACY_DIR_NAME);
                    Startup::ProbeLegacy { base, skills, legacy }
                },
                None => Startup::Locate,
            }
        },
        (
            Startup::ProbeLegacy { base, skills: _, legacy },
            StartupEvent::LegacyProbed { legacy_exists, skills_exist },
        ) => {
            if legacy_exists && !skills_exist {
                Startup::CreateBase { base, legacy }
            } else {
                Startup::Locate
            }
        },
        (Startup::CreateBase { base, legacy }, StartupEvent::BaseCreated(result)) => {
            match result {
                Ok(_) => Startup::ListLegacy { base, legacy },
                Err(err) => Startup::Done(Err(err)),
            }
        },
        (Startup::ListLegacy { base, legacy }, StartupEvent::LegacyListed(names)) => place_next(
            TakeOver { base, legacy, names, next: 0 },
        ),
        (Startup::ProbeEntry { take_over, place }, StartupEvent::EntryProbed { taken }) => {
            if taken || take_over.next >= take_over.names.len() {
                finish_entry(take_over)
            } else {
                let entry = take_over.legacy.entry(&take_over.names[take_over.next]);
                Startup::MoveEntry { take_over, entry, place }
            }
        },
        (
            Startup::MoveEntry { take_over, entry: _, place: _ },
            StartupEvent::EntryMoved,
        ) => finish_entry(take_over),
        (Startup::Locate, StartupEvent::Resolved { config, source_is_dir }) => {
            let mut dirs: Vec<RepoPath> = Vec::new();
            dirs.push(skills_dir(state, env, &config, source_is_dir));
            dirs.push(scenarios_dir(state, env, &config, source_is_dir));
            dirs.push(cache_dir(state, env, &config, source_is_dir));
            dirs.push(logs_dir(state, env, &config, source_is_dir));
            proof {
                let base = session_base(state@, env@, config@, source_is_dir)->0;
                assert(path_views(dirs@) =~= library_dirs(state@, base));
            }
            Startup::CreateDirs { dirs }
        },
        (Startup::CreateDirs { dirs: _ }, StartupEvent::DirsCreated(result)) => Startup::Done(
            result,
        ),
        (other, _) => other,
    }
}

} // verus!
