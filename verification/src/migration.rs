//! Carrying out a pending move of the library.
//!
//! The move runs before there is a log or a window, so nothing here fails: whatever goes
//! wrong is noted, and the session falls back to the source, where the data is known to be
//! whole. Each stage says what is to be done on disk; the event that comes back decides what
//! follows.

use vstd::prelude::*;
use vstd::string::*;

use crate::central_repo::{
    normalize_path, normalized, path_error_text, paths_are_same_dir, same_dir, ConfigView,
    PathError, RepoPathConfig,
};
use crate::environment::{Environment, EnvironmentView};
use crate::paths::{
    absolute, components_of, joined, parent_of, path_opt, path_starts_with, same_path, text_of,
    PathView, Platform, RepoPath,
};
use crate::places::{parent_text, Place, PlaceView};
use crate::state::{
    push_startup_warning, record_migration, record_startup_error, with_code, RepoState, StateView,
};
use crate::target::{target_has_user_data, user_data_in, EntryKind, TargetContents};

verus! {

/// The code of the warning that a move is still to be done.
pub const MIGRATION_INCOMPLETE: &'static str = "migration_incomplete";

/// What is to be done next for a move.
#[derive(Debug, Clone, Copy, PartialEq, Eq, Structural)]
pub enum MigrationStage {
    /// Look whether the source exists, and resolve both paths.
    Compare,
    /// Look at what the target holds.
    Inspect,
    /// Create the parent of the target.
    CreateParent,
    /// Rename the source to the target.
    Rename,
    /// Copy the source into the target.
    Copy,
}

/// A move under way.
pub struct Migration {
    pub stage: MigrationStage,
    pub source: RepoPath,
    pub target: Place,
}

/// The value of a [`Migration`].
pub struct MigrationView {
    pub stage: MigrationStage,
    pub source: PathView,
    pub target: PlaceView,
}

impl View for Migration {
    type V = MigrationView;

    open spec fn view(&self) -> MigrationView {
        MigrationView { stage: self.stage, source: self.source@, target: self.target@ }
    }
}

/// What came of the work that a stage asked for.
pub enum MigrationEvent {
    Compared {
        source_exists: bool,
        /// The canonical form of the source, where it has one.
        canonical_source: Option<RepoPath>,
        /// The canonical form of the target, where it has one.
        canonical_target: Option<RepoPath>,
    },
    Inspected(TargetContents),
    ParentCreated(Result<(), String>),
    /// Whether the rename succeeded.
    Renamed(bool),
    Copied(Result<(), String>),
}

/// Whether `event` reports on the work of `stage`.
pub open spec fn answers(stage: MigrationStage, event: MigrationEvent) -> bool {
    match stage {
        MigrationStage::Compare => event is Compared,
        MigrationStage::Inspect => event is Inspected,
        MigrationStage::CreateParent => event is ParentCreated,
        MigrationStage::Rename => event is Renamed,
        MigrationStage::Copy => event is Copied,
    }
}

/// What a session is to do after a move was attempted.
#[derive(Debug, PartialEq, Eq)]
pub enum MigrationOutcome {
    /// There was nothing to move, or it is done.
    Proceed,
    /// The move cannot be done safely. The library is whole at this path; run against it and
    /// try again on the next launch.
    UseSource(RepoPath),
}

/// The value of a [`MigrationOutcome`].
pub enum OutcomeView {
    Proceed,
    UseSource(PathView),
}

impl View for MigrationOutcome {
    type V = OutcomeView;

    open spec fn view(&self) -> OutcomeView {
        match self {
            MigrationOutcome::Proceed => OutcomeView::Proceed,
            MigrationOutcome::UseSource(path) => OutcomeView::UseSource(path@),
        }
    }
}

/// Whether a move goes on.
pub enum MigrationTurn {
    Continue(Migration),
    Finished(MigrationOutcome),
}

/// The value of a [`MigrationTurn`].
pub enum TurnView {
    Continue(MigrationView),
    Finished(OutcomeView),
}

impl View for MigrationTurn {
    type V = TurnView;

    open spec fn view(&self) -> TurnView {
        match self {
            MigrationTurn::Continue(migration) => TurnView::Continue(migration@),
            MigrationTurn::Finished(outcome) => TurnView::Finished(outcome@),
        }
    }
}

// ---------------------------------------------------------------------------------------
// What is noted for the log
// ---------------------------------------------------------------------------------------

/// The form in which the standard library shows a text for debugging: quoted and escaped.
pub uninterp spec fn debug_text(text: Seq<char>) -> Seq<char>;

/// The `Debug` formatting of `str` shows a text quoted and escaped.
#[verifier::external_body]
fn debug_of(text: &str) -> (r: String)
    ensures
        r@ == debug_text(text@),
{
    format!("{:?}", text)
}

pub open spec fn invalid_source_text(shown: Seq<char>, err: PathError) -> Seq<char> {
    "central repo: pending migration source "@ + shown + " is invalid ("@ + path_error_text(err)
        + "); dropping it"@
}

/// The note that the stored source of a move cannot be used. `shown` is how the stored text is
/// shown.
pub fn invalid_source_note(shown: &str, err: PathError) -> (r: String)
    ensures
        r@ == invalid_source_text(shown@, err),
{
    let mut note = "central repo: pending migration source ".to_owned();
    note.append(shown);
    note.append(" is invalid (");
    note.append(err.message().as_str());
    note.append("); dropping it");
    note
}

pub open spec fn nested_target_text(source: Seq<char>, target: Seq<char>) -> Seq<char> {
    "central repo: migration target "@ + target + " is inside source "@ + source
        + "; keeping data at the source"@
}

fn nested_target_note(source: &str, target: &str) -> (r: String)
    ensures
        r@ == nested_target_text(source@, target@),
{
    let mut note = "central repo: migration target ".to_owned();
    note.append(target);
    note.append(" is inside source ");
    note.append(source);
    note.append("; keeping data at the source");
    note
}

pub open spec fn unreadable_target_text(
    source: Seq<char>,
    target: Seq<char>,
    err: Seq<char>,
) -> Seq<char> {
    "central repo: cannot inspect migration target "@ + target + " ("@ + err
        + "); keeping data at source "@ + source
}

fn unreadable_target_note(source: &str, target: &str, err: &str) -> (r: String)
    ensures
        r@ == unreadable_target_text(source@, target@, err@),
{
    let mut note = "central repo: cannot inspect migration target ".to_owned();
    note.append(target);
    note.append(" (");
    note.append(err);
    note.append("); keeping data at source ");
    note.append(source);
    note
}

pub open spec fn occupied_target_text(source: Seq<char>, target: Seq<char>) -> Seq<char> {
    "central repo: migration target "@ + target + " is not empty; keeping data at source "@
        + source
}

fn occupied_target_note(source: &str, target: &str) -> (r: String)
    ensures
        r@ == occupied_target_text(source@, target@),
{
    let mut note = "central repo: migration target ".to_owned();
    note.append(target);
    note.append(" is not empty; keeping data at source ");
    note.append(source);
    note
}

pub open spec fn failed_parent_text(
    source: Seq<char>,
    parent: Seq<char>,
    err: Seq<char>,
) -> Seq<char> {
    "central repo: cannot create migration target parent "@ + parent + " ("@ + err
        + "); keeping data at source "@ + source
}

fn failed_parent_note(source: &str, parent: &str, err: &str) -> (r: String)
    ensures
        r@ == failed_parent_text(source@, parent@, err@),
{
    let mut note = "central repo: cannot create migration target parent ".to_owned();
    note.append(parent);
    note.append(" (");
    note.append(err);
    note.append("); keeping data at source ");
    note.append(source);
    note
}

pub open spec fn failed_copy_text(source: Seq<char>, target: Seq<char>, err: Seq<char>) -> Seq<
    char,
> {
    "central repo: migration copy from "@ + source + " to "@ + target + " failed ("@ + err
        + "); keeping data at source"@
}

fn failed_copy_note(source: &str, target: &str, err: &str) -> (r: String)
    ensures
        r@ == failed_copy_text(source@, target@, err@),
{
    let mut note = "central repo: migration copy from ".to_owned();
    note.append(source);
    note.append(" to ");
    note.append(target);
    note.append(" failed (");
    note.append(err);
    note.append("); keeping data at source");
    note
}

// ---------------------------------------------------------------------------------------
// The move
// ---------------------------------------------------------------------------------------

/// What one step of a move leads to.
pub struct StepView {
    pub turn: TurnView,
    pub state: StateView,
    pub config: ConfigView,
}

/// A step that goes on with another stage.
pub open spec fn goes_on(
    migration: MigrationView,
    stage: MigrationStage,
    state: StateView,
    config: ConfigView,
) -> StepView {
    StepView {
        turn: TurnView::Continue(MigrationView { stage, ..migration }),
        state,
        config,
    }
}

/// A step after which nothing is pending any more.
pub open spec fn settled(state: StateView, config: ConfigView) -> StepView {
    StepView {
        turn: TurnView::Finished(OutcomeView::Proceed),
        state,
        config: ConfigView { pending_migration_from: None, ..config },
    }
}

/// A step that gives the move up for this launch: it is noted, the user is told, and nothing
/// else changes.
pub open spec fn given_up(
    migration: MigrationView,
    note: Seq<char>,
    state: StateView,
    config: ConfigView,
) -> StepView {
    StepView {
        turn: TurnView::Finished(OutcomeView::UseSource(migration.source)),
        state: StateView {
            startup_errors: state.startup_errors.push(note),
            startup_warnings: with_code(state.startup_warnings, MIGRATION_INCOMPLETE@),
            ..state
        },
        config,
    }
}

/// A step that completes the move.
pub open spec fn moved(migration: MigrationView, state: StateView, config: ConfigView) -> StepView {
    settled(
        StateView { last_migration: Some((migration.source, migration.target.path)), ..state },
        config,
    )
}

/// How a move begins. A stored source that cannot be used is dropped, since it never will be.
pub open spec fn migration_start(
    env: EnvironmentView,
    target: PlaceView,
    state: StateView,
    config: ConfigView,
) -> StepView {
    match config.pending_migration_from {
        None => StepView { turn: TurnView::Finished(OutcomeView::Proceed), state, config },
        Some(raw) => match normalized(env, raw) {
            Ok(source) => StepView {
                turn: TurnView::Continue(
                    MigrationView { stage: MigrationStage::Compare, source, target },
                ),
                state,
                config,
            },
            Err(err) => settled(
                StateView {
                    startup_errors: state.startup_errors.push(
                        invalid_source_text(debug_text(raw), err),
                    ),
                    ..state
                },
                config,
            ),
        },
    }
}

/// How a move goes on after `event`.
pub open spec fn migration_step(
    platform: Platform,
    lock_file_name: Seq<char>,
    migration: MigrationView,
    event: MigrationEvent,
    state: StateView,
    config: ConfigView,
) -> StepView {
    let source_text = text_of(platform, migration.source);
    let target_text = migration.target.text;
    match event {
        // The source is gone, or it is the target: there is nothing left to move. A target
        // inside the source can never be a destination.
        MigrationEvent::Compared { source_exists, canonical_source, canonical_target } => if
        !source_exists || same_dir(
            migration.source,
            migration.target.path,
            path_opt(canonical_source),
            path_opt(canonical_target),
        ) {
            settled(state, config)
        } else if path_starts_with(migration.target.path, migration.source) {
            given_up(migration, nested_target_text(source_text, target_text), state, config)
        } else {
            goes_on(migration, MigrationStage::Inspect, state, config)
        },
        // Nothing is ever merged into a target that holds data.
        MigrationEvent::Inspected(contents) => match user_data_in(lock_file_name, contents) {
            Err(err) => given_up(
                migration,
                unreadable_target_text(source_text, target_text, err@),
                state,
                config,
            ),
            Ok(has_data) => if has_data {
                given_up(migration, occupied_target_text(source_text, target_text), state, config)
            } else if parent_of(migration.target.path) is Some {
                goes_on(migration, MigrationStage::CreateParent, state, config)
            } else {
                goes_on(migration, MigrationStage::Rename, state, config)
            },
        },
        MigrationEvent::ParentCreated(result) => match result {
            Ok(_) => goes_on(migration, MigrationStage::Rename, state, config),
            Err(err) => given_up(
                migration,
                failed_parent_text(
                    source_text,
                    parent_text(platform, migration.target),
                    err@,
                ),
                state,
                config,
            ),
        },
        // A rename moves everything at once; where it is refused the tree is copied.
        MigrationEvent::Renamed(done) => if done {
            moved(migration, state, config)
        } else {
            goes_on(migration, MigrationStage::Copy, state, config)
        },
        MigrationEvent::Copied(result) => match result {
            Ok(_) => moved(migration, state, config),
            Err(err) => given_up(
                migration,
                failed_copy_text(source_text, target_text, err@),
                state,
                config,
            ),
        },
    }
}

/// Begin the move that the settings have pending, if there is one. `target` is the requested
/// path. The settings are changed in place and not saved.
pub fn migrate_repo_if_needed(
    state: &mut RepoState,
    env: &Environment,
    config: &mut RepoPathConfig,
    target: &Place,
) -> (r: MigrationTurn)
    ensures
        (StepView { turn: r@, state: final(state)@, config: final(config)@ }) == migration_start(
            env@,
            target@,
            old(state)@,
            old(config)@,
        ),
{
    let raw = match &config.pending_migration_from {
        Some(raw) => raw.clone(),
        None => {
            return MigrationTurn::Finished(MigrationOutcome::Proceed);
        },
    };
    match normalize_path(raw.as_str(), env) {
        Ok(source) => MigrationTurn::Continue(
            Migration { stage: MigrationStage::Compare, source, target: target.clone() },
        ),
        Err(err) => {
            let shown = debug_of(raw.as_str());
            record_startup_error(state, invalid_source_note(shown.as_str(), err));
            config.pending_migration_from = None;
            MigrationTurn::Finished(MigrationOutcome::Proceed)
        },
    }
}

fn give_up(state: &mut RepoState, source: RepoPath, note: String) -> (r: MigrationTurn)
    ensures
        r@ == TurnView::Finished(OutcomeView::UseSource(source@)),
        final(state)@ == (StateView {
            startup_errors: old(state)@.startup_errors.push(note@),
            startup_warnings: with_code(old(state)@.startup_warnings, MIGRATION_INCOMPLETE@),
            ..old(state)@
        }),
{
    record_startup_error(state, note);
    push_startup_warning(state, MIGRATION_INCOMPLETE);
    MigrationTurn::Finished(MigrationOutcome::UseSource(source))
}

/// Go on with a move after the work of its stage was attempted. The settings are changed in
/// place and not saved.
pub fn advance_migration(
    state: &mut RepoState,
    env: &Environment,
    config: &mut RepoPathConfig,
    migration: Migration,
    event: MigrationEvent,
    lock_file_name: &str,
) -> (r: MigrationTurn)
    requires
        answers(migration.stage, event),
    ensures
        (StepView { turn: r@, state: final(state)@, config: final(config)@ }) == migration_step(
            env@.platform,
            lock_file_name@,
            migration@,
            event,
            old(state)@,
            old(config)@,
        ),
{
    let source_text = migration.source.to_text(env.platform);
    let target_text = migration.target.text.clone();
    match event {
        MigrationEvent::Compared { source_exists, canonical_source, canonical_target } => {
            if !source_exists || paths_are_same_dir(
                &migration.source,
                &migration.target.path,
                canonical_source.as_ref(),
                canonical_target.as_ref(),
            ) {
                config.pending_migration_from = None;
                return MigrationTurn::Finished(MigrationOutcome::Proceed);
            }
            if migration.target.path.starts_with(&migration.source) {
                let note = nested_target_note(source_text.as_str(), target_text.as_str());
                return give_up(state, migration.source, note);
            }
            MigrationTurn::Continue(Migration { stage: MigrationStage::Inspect, ..migration })
        },
        MigrationEvent::Inspected(contents) => {
            let has_data = match target_has_user_data(&contents, lock_file_name) {
                Ok(has_data) => has_data,
                Err(err) => {
                    let note = unreadable_target_note(
                        source_text.as_str(),
                        target_text.as_str(),
                        err.as_str(),
                    );
                    return give_up(state, migration.source, note);
                },
            };
            if has_data {
                let note = occupied_target_note(source_text.as_str(), target_text.as_str());
                return give_up(state, migration.source, note);
            }
            if migration.target.path.parent().is_some() {
                MigrationTurn::Continue(
                    Migration { stage: MigrationStage::CreateParent, ..migration },
                )
            } else {
                MigrationTurn::Continue(Migration { stage: MigrationStage::Rename, ..migration })
            }
        },
        MigrationEvent::ParentCreated(result) => match result {
            Ok(_) => MigrationTurn::Continue(
                Migration { stage: MigrationStage::Rename, ..migration },
            ),
            Err(err) => {
                let parent = migration.target.parent_text(env.platform);
                let note = failed_parent_note(
                    source_text.as_str(),
                    parent.as_str(),
                    err.as_str(),
                );
                give_up(state, migration.source, note)
            },
        },
        MigrationEvent::Renamed(done) => {
            if done {
                config.pending_migration_from = None;
                record_migration(state, &migration.source, &migration.target.path);
                MigrationTurn::Finished(MigrationOutcome::Proceed)
            } else {
                MigrationTurn::Continue(Migration { stage: MigrationStage::Copy, ..migration })
            }
        },
        MigrationEvent::Copied(result) => match result {
            Ok(_) => {
                config.pending_migration_from = None;
                record_migration(state, &migration.source, &migration.target.path);
                MigrationTurn::Finished(MigrationOutcome::Proceed)
            },
            Err(err) => {
                let note = failed_copy_note(
                    source_text.as_str(),
                    target_text.as_str(),
                    err.as_str(),
                );
                give_up(state, migration.source, note)
            },
        },
    }
}

// ---------------------------------------------------------------------------------------
// Copying the tree
// ---------------------------------------------------------------------------------------

/// What is to be done with one entry of the tree.
pub enum CopyStep {
    /// Leave it behind.
    Skip,
    /// Recreate the link at `destination` without following it.
    Link { destination: RepoPath },
    /// Create the directory.
    Directory { destination: RepoPath },
    /// Create the parent, where there is one, and copy the file.
    File { destination: RepoPath, parent: Option<RepoPath> },
}

/// The value of a [`CopyStep`].
pub enum CopyStepView {
    Skip,
    Link { destination: PathView },
    Directory { destination: PathView },
    File { destination: PathView, parent: Option<PathView> },
}

impl View for CopyStep {
    type V = CopyStepView;

    open spec fn view(&self) -> CopyStepView {
        match self {
            CopyStep::Skip => CopyStepView::Skip,
            CopyStep::Link { destination } => CopyStepView::Link { destination: destination@ },
            CopyStep::Directory { destination } => CopyStepView::Directory {
                destination: destination@,
            },
            CopyStep::File { destination, parent } => CopyStepView::File {
                destination: destination@,
                parent: path_opt(*parent),
            },
        }
    }
}

/// What is to be done with the entry `path` of the tree below `source`; none where it does not
/// lie there. The lock of a running session stays behind; everything else goes to its place
/// below `target`, links as links.
pub open spec fn copy_step(
    platform: Platform,
    path: PathView,
    kind: EntryKind,
    source: PathView,
    target: PathView,
    lock_file_name: Seq<char>,
) -> Option<CopyStepView> {
    if !path_starts_with(path, source) {
        None
    } else {
        let relative = path.skip(source.len() as int);
        let destination = joined(platform, target, relative);
        if same_path(relative, components_of(platform, lock_file_name)) {
            Some(CopyStepView::Skip)
        } else {
            Some(
                match kind {
                    EntryKind::Symlink => CopyStepView::Link { destination },
                    EntryKind::Dir => CopyStepView::Directory { destination },
                    _ => CopyStepView::File { destination, parent: parent_of(destination) },
                },
            )
        }
    }
}

/// What is to be done with one entry of the tree below `source` that is copied to `target`;
/// none where the entry does not lie below `source`. The entry that is `source` itself comes
/// first and becomes `target`.
pub fn copy_library_entry(
    env: &Environment,
    path: &RepoPath,
    kind: EntryKind,
    source: &RepoPath,
    target: &RepoPath,
    lock_file_name: &str,
) -> (r: Option<CopyStep>)
    ensures
        (match r {
            Some(step) => Some(step@),
            None => None,
        }) == copy_step(env@.platform, path@, kind, source@, target@, lock_file_name@),
{
    let relative = match path.strip_prefix(source) {
        Some(relative) => relative,
        None => {
            return None;
        },
    };
    if relative.same_as(&RepoPath::parse(lock_file_name, env.platform)) {
        return Some(CopyStep::Skip);
    }
    let destination = target.join(&relative, env.platform);
    Some(
        match kind {
            EntryKind::Symlink => CopyStep::Link { destination },
            EntryKind::Dir => CopyStep::Directory { destination },
            _ => {
                let parent = destination.parent();
                CopyStep::File { destination, parent }
            },
        },
    )
}

/// One turn of walking through the tree.
pub enum WalkItem {
    Entry { path: RepoPath, kind: EntryKind },
    /// The walk could not go on, for the given reason.
    Failed(String),
}

/// Why a tree cannot be copied to its end.
#[derive(Debug, PartialEq, Eq)]
pub enum CopyFailure {
    /// The walk could not go on, for the given reason.
    Walk(String),
    /// The walk left the tree.
    OutsideSource,
}

/// What is to be done with a tree: the steps in order, and what stops them.
pub struct CopyPlan {
    pub steps: Vec<CopyStep>,
    pub failure: Option<CopyFailure>,
}

/// The value of a [`CopyPlan`].
pub struct PlanView {
    pub steps: Seq<CopyStepView>,
    pub failure: Option<CopyFailure>,
}

/// The values of a list of steps.
pub open spec fn step_views(steps: Seq<CopyStep>) -> Seq<CopyStepView> {
    Seq::new(steps.len(), |i: int| steps[i]@)
}

impl View for CopyPlan {
    type V = PlanView;

    open spec fn view(&self) -> PlanView {
        PlanView { steps: step_views(self.steps@), failure: self.failure }
    }
}

/// The steps that carry out a walk: one for each entry, up to the first thing that goes wrong.
pub open spec fn copy_plan(
    platform: Platform,
    walk: Seq<WalkItem>,
    source: PathView,
    target: PathView,
    lock_file_name: Seq<char>,
) -> PlanView
    decreases walk.len(),
{
    if walk.len() == 0 {
        PlanView { steps: seq![], failure: None }
    } else {
        let before = copy_plan(platform, walk.drop_last(), source, target, lock_file_name);
        if before.failure is Some {
            before
        } else {
            match walk.last() {
                WalkItem::Failed(err) => PlanView {
                    failure: Some(CopyFailure::Walk(err)),
                    ..before
                },
                WalkItem::Entry { path, kind } => match copy_step(
                    platform,
                    path@,
                    kind,
                    source,
                    target,
                    lock_file_name,
                ) {
                    Some(step) => PlanView { steps: before.steps.push(step), ..before },
                    None => PlanView { failure: Some(CopyFailure::OutsideSource), ..before },
                },
            }
        }
    }
}

/// A plan that has failed stays as it is.
proof fn lemma_copy_plan_stops(
    platform: Platform,
    walk: Seq<WalkItem>,
    source: PathView,
    target: PathView,
    lock_file_name: Seq<char>,
    n: int,
)
    requires
        0 <= n <= walk.len(),
        copy_plan(platform, walk.take(n), source, target, lock_file_name).failure is Some,
    ensures
        copy_plan(platform, walk, source, target, lock_file_name) == copy_plan(
            platform,
            walk.take(n),
            source,
            target,
            lock_file_name,
        ),
    decreases walk.len(),
{
    if n == walk.len() {
        assert(walk.take(n) =~= walk);
    } else {
        assert(walk.drop_last().take(n) =~= walk.take(n));
        lemma_copy_plan_stops(platform, walk.drop_last(), source, target, lock_file_name, n);
    }
}

/// What is to be done to copy the tree below `source` to `target`, in the order of the walk.
pub fn copy_library_tree(
    env: &Environment,
    walk: &Vec<WalkItem>,
    source: &RepoPath,
    target: &RepoPath,
    lock_file_name: &str,
) -> (r: CopyPlan)
    ensures
        r@ == copy_plan(env@.platform, walk@, source@, target@, lock_file_name@),
{
    let mut steps: Vec<CopyStep> = Vec::new();
    assert(step_views(steps@) =~= seq![]);
    let ghost platform = env@.platform;
    for i in 0..walk.len()
        invariant
            platform == env@.platform,
            copy_plan(platform, walk@.take(i as int), source@, target@, lock_file_name@) == (
            PlanView { steps: step_views(steps@), failure: None }),
    {
        let ghost before = step_views(steps@);
        let ghost done = walk@.take(i + 1);
        assert(done.drop_last() =~= walk@.take(i as int));
        assert(done.last() == walk@[i as int]);
        let failure: Option<CopyFailure> = match &walk[i] {
            WalkItem::Failed(err) => Some(CopyFailure::Walk(err.clone())),
            WalkItem::Entry { path, kind } => match copy_library_entry(
                env,
                path,
                *kind,
                source,
                target,
                lock_file_name,
            ) {
                Some(step) => {
                    steps.push(step);
                    assert(step_views(steps@) =~= before.push(step@));
                    None
                },
                None => Some(CopyFailure::OutsideSource),
            },
        };
        if failure.is_some() {
            proof {
                lemma_copy_plan_stops(platform, walk@, source@, target@, lock_file_name@, i + 1);
            }
            return CopyPlan { steps, failure };
        }
    }
    assert(walk@.take(walk@.len() as int) =~= walk@);
    CopyPlan { steps, failure: None }
}

/// Where a copied link points: into the new tree if it pointed into the old one by an absolute
/// path, and where it pointed before otherwise. A relative link still resolves, since the
/// whole tree moves together.
pub open spec fn rebased_link(
    platform: Platform,
    link_target: PathView,
    source: PathView,
    target: PathView,
) -> PathView {
    if absolute(platform, link_target) && path_starts_with(link_target, source) {
        joined(platform, target, link_target.skip(source.len() as int))
    } else {
        link_target
    }
}

/// Where a link of the tree below `source` is to point once it is copied to `target`.
pub fn copy_link(
    env: &Environment,
    link_target: &RepoPath,
    source: &RepoPath,
    target: &RepoPath,
) -> (r: RepoPath)
    ensures
        r@ == rebased_link(env@.platform, link_target@, source@, target@),
{
    if link_target.is_absolute(env.platform) {
        if let Some(relative) = link_target.strip_prefix(source) {
            return target.join(&relative, env.platform);
        }
    }
    link_target.clone()
}

} // verus!
