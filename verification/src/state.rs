//! What a running session remembers: the directories it was pinned to, and what startup has
//! to report.

use vstd::prelude::*;
use vstd::string::*;

use crate::paths::{path_opt, PathView, RepoPath};
use crate::places::{place_opt, Place, PlaceView};
use crate::text::same_text;

verus! {

/// The values of a list of strings.
pub open spec fn texts(list: Seq<String>) -> Seq<Seq<char>> {
    Seq::new(list.len(), |i: int| list[i]@)
}

/// The value of an optional string.
pub open spec fn text_opt(text: Option<String>) -> Option<Seq<char>> {
    match text {
        Some(t) => Some(t@),
        None => None,
    }
}

/// The state of one running session.
pub struct RepoState {
    base_dir_override: Option<Place>,
    skills_dir_override: Option<RepoPath>,
    home_dir_override: Option<Place>,
    config_path_override: Option<Place>,
    last_migration: Option<(RepoPath, RepoPath)>,
    startup_warnings: Vec<String>,
    startup_errors: Vec<String>,
}

/// The value of a [`RepoState`].
pub struct StateView {
    /// The library that the session is pinned to, whatever the configuration says.
    pub base_dir_override: Option<PlaceView>,
    /// The skills directory that the session is pinned to.
    pub skills_dir_override: Option<PathView>,
    /// A stand-in for the home directory, below which the default library lies.
    pub home_dir_override: Option<PlaceView>,
    /// A stand-in for the configuration file.
    pub config_path_override: Option<PlaceView>,
    /// The move that this startup carried out, as source and target.
    pub last_migration: Option<(PathView, PathView)>,
    /// Codes of what the user is to be told, each at most once.
    pub startup_warnings: Seq<Seq<char>>,
    /// Messages that wait for the log to be opened.
    pub startup_errors: Seq<Seq<char>>,
}

impl View for RepoState {
    type V = StateView;

    closed spec fn view(&self) -> StateView {
        StateView {
            base_dir_override: place_opt(self.base_dir_override),
            skills_dir_override: path_opt(self.skills_dir_override),
            home_dir_override: place_opt(self.home_dir_override),
            config_path_override: place_opt(self.config_path_override),
            last_migration: match self.last_migration {
                Some(pair) => Some((pair.0@, pair.1@)),
                None => None,
            },
            startup_warnings: texts(self.startup_warnings@),
            startup_errors: texts(self.startup_errors@),
        }
    }
}

/// The state of a session that has done nothing yet.
pub open spec fn fresh_state() -> StateView {
    StateView {
        base_dir_override: None,
        skills_dir_override: None,
        home_dir_override: None,
        config_path_override: None,
        last_migration: None,
        startup_warnings: seq![],
        startup_errors: seq![],
    }
}

/// `list` with `code` in it: unchanged where it is there already.
pub open spec fn with_code(list: Seq<Seq<char>>, code: Seq<char>) -> Seq<Seq<char>> {
    if list.contains(code) {
        list
    } else {
        list.push(code)
    }
}

fn copy_opt(path: &Option<RepoPath>) -> (r: Option<RepoPath>)
    ensures
        path_opt(r) == path_opt(*path),
{
    match path {
        Some(p) => Some(p.clone()),
        None => None,
    }
}

fn copy_place(place: &Option<Place>) -> (r: Option<Place>)
    ensures
        place_opt(r) == place_opt(*place),
{
    match place {
        Some(p) => Some(p.clone()),
        None => None,
    }
}

impl RepoState {
    #[verifier::type_invariant]
    spec fn warnings_are_distinct(self) -> bool {
        texts(self.startup_warnings@).no_duplicates()
    }

    /// A session that has done nothing yet.
    pub fn new() -> (r: RepoState)
        ensures
            r@ == fresh_state(),
    {
        let r = RepoState {
            base_dir_override: None,
            skills_dir_override: None,
            home_dir_override: None,
            config_path_override: None,
            last_migration: None,
            startup_warnings: Vec::new(),
            startup_errors: Vec::new(),
        };
        assert(r@.startup_warnings =~= seq![]);
        assert(r@.startup_errors =~= seq![]);
        r
    }

    /// The library that the session is pinned to, if it is.
    pub fn base_dir_override(&self) -> (r: Option<Place>)
        ensures
            place_opt(r) == self@.base_dir_override,
    {
        copy_place(&self.base_dir_override)
    }

    /// The skills directory that the session is pinned to, if it is.
    pub fn skills_dir_override(&self) -> (r: Option<RepoPath>)
        ensures
            path_opt(r) == self@.skills_dir_override,
    {
        copy_opt(&self.skills_dir_override)
    }

    /// The stand-in for the home directory, if there is one.
    pub fn home_dir_override(&self) -> (r: Option<Place>)
        ensures
            place_opt(r) == self@.home_dir_override,
    {
        copy_place(&self.home_dir_override)
    }

    /// The stand-in for the configuration file, if there is one.
    pub fn config_path_override(&self) -> (r: Option<Place>)
        ensures
            place_opt(r) == self@.config_path_override,
    {
        copy_place(&self.config_path_override)
    }
}

/// Remember that this startup moved the library.
pub fn record_migration(state: &mut RepoState, from: &RepoPath, to: &RepoPath)
    ensures
        final(state)@ == (StateView { last_migration: Some((from@, to@)), ..old(state)@ }),
{
    proof {
        use_type_invariant(&*state);
    }
    state.last_migration = Some((from.clone(), to.clone()));
}

/// Take the move that this startup carried out, if any. It is handed out once.
pub fn take_last_migration(state: &mut RepoState) -> (r: Option<(RepoPath, RepoPath)>)
    ensures
        (match r {
            Some(pair) => Some((pair.0@, pair.1@)),
            None => None,
        }) == old(state)@.last_migration,
        final(state)@ == (StateView { last_migration: None, ..old(state)@ }),
{
    proof {
        use_type_invariant(&*state);
    }
    let taken = match &state.last_migration {
        Some(pair) => Some((pair.0.clone(), pair.1.clone())),
        None => None,
    };
    state.last_migration = None;
    taken
}

fn holds_code(list: &Vec<String>, code: &str) -> (r: bool)
    ensures
        r == texts(list@).contains(code@),
{
    for i in 0..list.len()
        invariant
            forall|j: int| 0 <= j < i ==> texts(list@)[j] != code@,
    {
        if same_text(list[i].as_str(), code) {
            assert(texts(list@)[i as int] == code@);
            return true;
        }
    }
    false
}

fn copy_texts(list: &Vec<String>) -> (r: Vec<String>)
    ensures
        texts(r@) == texts(list@),
{
    let mut r: Vec<String> = Vec::new();
    for i in 0..list.len()
        invariant
            texts(r@) == texts(list@).take(i as int),
    {
        let ghost before = texts(r@);
        r.push(list[i].clone());
        assert(texts(r@) =~= before.push(list@[i as int]@));
        assert(texts(list@).take(i + 1) =~= before.push(list@[i as int]@));
    }
    assert(texts(list@).take(list@.len() as int) =~= texts(list@));
    r
}

/// Remember a warning code, unless it is remembered already.
pub fn push_startup_warning(state: &mut RepoState, code: &str)
    ensures
        final(state)@ == (StateView {
            startup_warnings: with_code(old(state)@.startup_warnings, code@),
            ..old(state)@
        }),
{
    proof {
        use_type_invariant(&*state);
    }
    if !holds_code(&state.startup_warnings, code) {
        let mut warnings = copy_texts(&state.startup_warnings);
        let ghost before = texts(warnings@);
        warnings.push(code.to_owned());
        assert(texts(warnings@) =~= before.push(code@));
        state.startup_warnings = warnings;
    }
}

/// The warning codes recorded so far, in the order in which they first came up.
pub fn startup_warnings(state: &RepoState) -> (r: Vec<String>)
    ensures
        texts(r@) == state@.startup_warnings,
        texts(r@).no_duplicates(),
{
    proof {
        use_type_invariant(state);
    }
    copy_texts(&state.startup_warnings)
}

/// Keep a message until the log is open.
pub fn record_startup_error(state: &mut RepoState, message: String)
    ensures
        final(state)@ == (StateView {
            startup_errors: old(state)@.startup_errors.push(message@),
            ..old(state)@
        }),
{
    proof {
        use_type_invariant(&*state);
    }
    let mut errors = copy_texts(&state.startup_errors);
    let ghost before = texts(errors@);
    errors.push(message);
    assert(texts(errors@) =~= before.push(message@));
    state.startup_errors = errors;
}

/// Take the messages that were kept for the log. Each is handed out once.
pub fn take_startup_errors(state: &mut RepoState) -> (r: Vec<String>)
    ensures
        texts(r@) == old(state)@.startup_errors,
        final(state)@ == (StateView { startup_errors: seq![], ..old(state)@ }),
{
    proof {
        use_type_invariant(&*state);
    }
    let errors = copy_texts(&state.startup_errors);
    state.startup_errors = Vec::new();
    assert(state@.startup_errors =~= seq![]);
    errors
}

/// Whether the session is pinned to a library.
pub fn base_dir_override_active(state: &RepoState) -> (r: bool)
    ensures
        r == state@.base_dir_override is Some,
{
    state.base_dir_override.is_some()
}

/// Pin the session to a library, or release it.
pub fn set_runtime_base_dir_override(state: &mut RepoState, path: Option<Place>)
    ensures
        final(state)@ == (StateView { base_dir_override: place_opt(path), ..old(state)@ }),
{
    proof {
        use_type_invariant(&*state);
    }
    state.base_dir_override = path;
}

/// Pin the session to a skills directory, or release it.
pub fn set_runtime_skills_dir_override(state: &mut RepoState, path: Option<RepoPath>)
    ensures
        final(state)@ == (StateView { skills_dir_override: path_opt(path), ..old(state)@ }),
{
    proof {
        use_type_invariant(&*state);
    }
    state.skills_dir_override = path;
}

/// Put a directory in place of the home directory, or take it away again.
pub fn set_test_home_dir_override(state: &mut RepoState, path: Option<Place>)
    ensures
        final(state)@ == (StateView { home_dir_override: place_opt(path), ..old(state)@ }),
{
    proof {
        use_type_invariant(&*state);
    }
    state.home_dir_override = path;
}

/// Put a file in place of the configuration file, or take it away again.
pub fn set_test_config_path_override(state: &mut RepoState, path: Option<Place>)
    ensures
        final(state)@ == (StateView { config_path_override: place_opt(path), ..old(state)@ }),
{
    proof {
        use_type_invariant(&*state);
    }
    state.config_path_override = path;
}

/// Pin the session to a library and release its skills directory.
pub fn set_test_base_dir_override(state: &mut RepoState, path: Option<Place>)
    ensures
        final(state)@ == (StateView {
            base_dir_override: place_opt(path),
            skills_dir_override: None,
            ..old(state)@
        }),
{
    set_runtime_base_dir_override(state, path);
    set_runtime_skills_dir_override(state, None);
}

} // verus!
