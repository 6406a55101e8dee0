//! Where the library lives, where the user wants it, and how the two come together.
//!
//! The *live location* holds the data; the *requested path* is what the user asked for. They
//! differ while a move is pending, and everything that a session opens goes by the former.

use vstd::prelude::*;
use vstd::string::*;

use crate::environment::{Environment, EnvironmentView};
use crate::location_laws::{cancelled, requested_change};
use crate::paths::{
    absolute, child_of, collapse, components_of, joined, path_opt, path_ref, same_path, text_of,
    PathView, RepoPath,
};
use crate::places::{child_place, place_opt, place_path, plain_place, Place, PlaceView};
use crate::state::{set_runtime_base_dir_override, text_opt, RepoState, StateView};
use crate::text::{chars_of, text_between, trim, trimmed};

verus! {

/// The directory of the library below the home directory.
pub const LIBRARY_DIR_NAME: &'static str = ".skills-manager";

/// The directory of the settings file below the settings directory.
pub const CONFIG_DIR_NAME: &'static str = "skills-manager";

pub const CONFIG_FILE_NAME: &'static str = "repo-config.json";

pub const SKILLS_DIR_NAME: &'static str = "skills";

pub const SCENARIOS_DIR_NAME: &'static str = "scenarios";

pub const CACHE_DIR_NAME: &'static str = "cache";

pub const LOGS_DIR_NAME: &'static str = "logs";

pub const DATABASE_FILE_NAME: &'static str = "skills-manager.db";

/// Why a path that the user wrote cannot be used.
#[derive(Debug, Clone, Copy, PartialEq, Eq, Structural)]
pub enum PathError {
    /// There is nothing but white space.
    Empty,
    /// The path begins at home, and home is unknown.
    NoHome,
    /// The path does not lead to a fixed place.
    NotAbsolute,
}

/// How an unusable path is explained.
pub open spec fn path_error_text(err: PathError) -> Seq<char> {
    match err {
        PathError::Empty => "Path cannot be empty"@,
        PathError::NoHome => "Cannot determine home directory"@,
        PathError::NotAbsolute => "Central repository path must be absolute"@,
    }
}

impl PathError {
    /// How the error is explained.
    pub fn message(&self) -> (r: String)
        ensures
            r@ == path_error_text(*self),
    {
        match self {
            PathError::Empty => "Path cannot be empty".to_owned(),
            PathError::NoHome => "Cannot determine home directory".to_owned(),
            PathError::NotAbsolute => "Central repository path must be absolute".to_owned(),
        }
    }
}

/// The stored settings: both texts exactly as they stand in the file.
#[derive(Debug, PartialEq, Eq)]
pub struct RepoPathConfig {
    /// The requested path; none for the default location.
    pub repo_path: Option<String>,
    /// Where the data still lies while a move is pending.
    pub pending_migration_from: Option<String>,
}

/// The value of a [`RepoPathConfig`].
pub struct ConfigView {
    pub repo_path: Option<Seq<char>>,
    pub pending_migration_from: Option<Seq<char>>,
}

impl View for RepoPathConfig {
    type V = ConfigView;

    open spec fn view(&self) -> ConfigView {
        ConfigView {
            repo_path: text_opt(self.repo_path),
            pending_migration_from: text_opt(self.pending_migration_from),
        }
    }
}

/// The settings of a fresh installation.
pub open spec fn no_settings() -> ConfigView {
    ConfigView { repo_path: None, pending_migration_from: None }
}

fn copy_text(text: &Option<String>) -> (r: Option<String>)
    ensures
        text_opt(r) == text_opt(*text),
{
    match text {
        Some(t) => Some(t.clone()),
        None => None,
    }
}

impl Clone for RepoPathConfig {
    fn clone(&self) -> (r: Self)
        ensures
            r@ == self@,
    {
        RepoPathConfig {
            repo_path: copy_text(&self.repo_path),
            pending_migration_from: copy_text(&self.pending_migration_from),
        }
    }
}

impl Default for RepoPathConfig {
    fn default() -> (r: Self)
        ensures
            r@ == no_settings(),
    {
        RepoPathConfig { repo_path: None, pending_migration_from: None }
    }
}

// ---------------------------------------------------------------------------------------
// What the user wrote
// ---------------------------------------------------------------------------------------

/// The path that `text` stands for, with a `~` at its beginning read as home.
pub open spec fn expanded(env: EnvironmentView, text: Seq<char>) -> Result<PathView, PathError> {
    if text == seq!['~'] {
        match env.home {
            Some(home) => Ok(home.path),
            None => Err(PathError::NoHome),
        }
    } else if text.len() >= 2 && text[0] == '~' && (text[1] == '/' || text[1] == '\\') {
        match env.home {
            Some(home) => Ok(
                joined(env.platform, home.path, components_of(env.platform, text.skip(2))),
            ),
            None => Err(PathError::NoHome),
        }
    } else {
        Ok(components_of(env.platform, text))
    }
}

/// The absolute path that `raw` stands for, without `.` and `..`.
pub open spec fn normalized(env: EnvironmentView, raw: Seq<char>) -> Result<PathView, PathError> {
    let text = trimmed(raw);
    if text.len() == 0 {
        Err(PathError::Empty)
    } else {
        match expanded(env, text) {
            Err(err) => Err(err),
            Ok(path) => if absolute(env.platform, path) {
                Ok(collapse(path))
            } else {
                Err(PathError::NotAbsolute)
            },
        }
    }
}

/// The value of a result that holds a path.
pub open spec fn path_result(r: Result<RepoPath, PathError>) -> Result<PathView, PathError> {
    match r {
        Ok(path) => Ok(path@),
        Err(err) => Err(err),
    }
}

/// Read a path that the user wrote: white space around it is dropped, a `~` at its beginning
/// is home, and `.` and `..` are carried out.
pub fn normalize_path(raw: &str, env: &Environment) -> (r: Result<RepoPath, PathError>)
    ensures
        path_result(r) == normalized(env@, raw@),
{
    let text = trim(raw);
    let chars = chars_of(text.as_str());
    if chars.len() == 0 {
        return Err(PathError::Empty);
    }
    let expanded_path = if chars.len() == 1 && chars[0] == '~' {
        assert(chars@ =~= seq!['~']);
        match &env.home {
            Some(home) => home.path.clone(),
            None => {
                return Err(PathError::NoHome);
            },
        }
    } else if chars.len() >= 2 && chars[0] == '~' && (chars[1] == '/' || chars[1] == '\\') {
        assert(chars@ != seq!['~']);
        match &env.home {
            Some(home) => {
                let tail_text = text_between(&chars, 2, chars.len());
                assert(tail_text@ =~= text@.skip(2));
                let tail = RepoPath::parse(tail_text.as_str(), env.platform);
                home.path.join(&tail, env.platform)
            },
            None => {
                return Err(PathError::NoHome);
            },
        }
    } else {
        proof {
            if chars@ == seq!['~'] {
                assert(chars@[0] == '~');
            }
        }
        RepoPath::parse(text.as_str(), env.platform)
    };
    if !expanded_path.is_absolute(env.platform) {
        return Err(PathError::NotAbsolute);
    }
    Ok(expanded_path.collapsed())
}

/// The path that `raw` stands for, if it is usable.
pub open spec fn usable(env: EnvironmentView, raw: Option<Seq<char>>) -> Option<PathView> {
    match raw {
        Some(text) => match normalized(env, text) {
            Ok(path) => Some(path),
            Err(_) => None,
        },
        None => None,
    }
}

fn usable_path(raw: &Option<String>, env: &Environment) -> (r: Option<RepoPath>)
    ensures
        path_opt(r) == usable(env@, text_opt(*raw)),
{
    match raw {
        Some(text) => match normalize_path(text.as_str(), env) {
            Ok(path) => Some(path),
            Err(_) => None,
        },
        None => None,
    }
}

/// The requested path that the settings store, if it is usable.
pub fn configured_base_dir(config: &RepoPathConfig, env: &Environment) -> (r: Option<RepoPath>)
    ensures
        path_opt(r) == usable(env@, config@.repo_path),
{
    usable_path(&config.repo_path, env)
}

// ---------------------------------------------------------------------------------------
// The default location and the settings file
// ---------------------------------------------------------------------------------------

/// The library below the home directory, spelled as home is; none where home is unknown.
pub open spec fn home_place(state: StateView, env: EnvironmentView) -> Option<PlaceView> {
    match state.home_dir_override {
        Some(home) => Some(child_place(env.platform, home, LIBRARY_DIR_NAME@)),
        None => match env.home {
            Some(home) => Some(child_place(env.platform, home, LIBRARY_DIR_NAME@)),
            None => None,
        },
    }
}

/// The library below the home directory; none where home is unknown.
pub open spec fn home_base(state: StateView, env: EnvironmentView) -> Option<PathView> {
    place_path(home_place(state, env))
}

fn find_home_place(state: &RepoState, env: &Environment) -> (r: Option<Place>)
    ensures
        place_opt(r) == home_place(state@, env@),
{
    match state.home_dir_override() {
        Some(home) => Some(home.child(LIBRARY_DIR_NAME, env.platform)),
        None => match &env.home {
            Some(home) => Some(home.child(LIBRARY_DIR_NAME, env.platform)),
            None => None,
        },
    }
}

fn path_of(place: Option<Place>) -> (r: Option<RepoPath>)
    ensures
        path_opt(r) == place_path(place_opt(place)),
{
    match place {
        Some(p) => Some(p.path),
        None => None,
    }
}

/// The library below the home directory, or none where home is unknown.
pub fn find_home_base_dir(state: &RepoState, env: &Environment) -> (r: Option<RepoPath>)
    ensures
        path_opt(r) == home_base(state@, env@),
{
    path_of(find_home_place(state, env))
}

/// The library below the home directory, whatever the settings say. Things that another
/// program must find without asking stay here when the library is moved.
pub fn home_base_dir(state: &RepoState, env: &Environment) -> (r: RepoPath)
    requires
        home_base(state@, env@) is Some,
    ensures
        r@ == home_base(state@, env@)->0,
{
    find_home_base_dir(state, env).unwrap()
}

/// The location of a library that was never moved.
pub fn default_base_dir(state: &RepoState, env: &Environment) -> (r: RepoPath)
    requires
        home_base(state@, env@) is Some,
    ensures
        r@ == home_base(state@, env@)->0,
{
    home_base_dir(state, env)
}

/// The location that the library falls back to when none is configured.
pub fn default_repo_path(state: &RepoState, env: &Environment) -> (r: RepoPath)
    requires
        home_base(state@, env@) is Some,
    ensures
        r@ == home_base(state@, env@)->0,
{
    default_base_dir(state, env)
}

/// The settings file: below the settings directory of the user, or below the default library
/// where there is none.
pub open spec fn config_place(state: StateView, env: EnvironmentView) -> Option<PlaceView> {
    match state.config_path_override {
        Some(path) => Some(path),
        None => {
            let dir = match env.config_dir {
                Some(dir) => Some(dir),
                None => home_place(state, env),
            };
            match dir {
                Some(dir) => Some(
                    child_place(
                        env.platform,
                        child_place(env.platform, dir, CONFIG_DIR_NAME@),
                        CONFIG_FILE_NAME@,
                    ),
                ),
                None => None,
            }
        },
    }
}

/// The path of the settings file.
pub open spec fn config_file(state: StateView, env: EnvironmentView) -> Option<PathView> {
    place_path(config_place(state, env))
}

fn locate_config(state: &RepoState, env: &Environment) -> (r: Place)
    requires
        config_file(state@, env@) is Some,
    ensures
        Some(r@) == config_place(state@, env@),
{
    match state.config_path_override() {
        Some(path) => path,
        None => {
            let dir = match &env.config_dir {
                Some(dir) => dir.clone(),
                None => find_home_place(state, env).unwrap(),
            };
            dir.child(CONFIG_DIR_NAME, env.platform).child(CONFIG_FILE_NAME, env.platform)
        },
    }
}

/// The settings file.
pub fn config_file_path(state: &RepoState, env: &Environment) -> (r: RepoPath)
    requires
        config_file(state@, env@) is Some,
    ensures
        r@ == config_file(state@, env@)->0,
{
    locate_config(state, env).path
}

/// What reading the settings file came to.
pub enum ConfigFile {
    /// There is no such file.
    NotFound,
    /// The file is there and cannot be read, for the given reason.
    Unreadable(String),
    /// The file was read and does not hold settings, for the given reason.
    Malformed(String),
    /// The file holds these settings.
    Parsed(RepoPathConfig),
}

/// Tells a fresh installation from settings that exist and cannot be used. The latter must
/// never pass for the former: the user would find an empty library in place of their own.
pub enum ConfigState {
    Missing,
    Valid(RepoPathConfig),
    Invalid(String),
}

/// The value of a [`ConfigState`].
pub enum ConfigStateView {
    Missing,
    Valid(ConfigView),
    Invalid(Seq<char>),
}

impl View for ConfigState {
    type V = ConfigStateView;

    open spec fn view(&self) -> ConfigStateView {
        match self {
            ConfigState::Missing => ConfigStateView::Missing,
            ConfigState::Valid(config) => ConfigStateView::Valid(config@),
            ConfigState::Invalid(detail) => ConfigStateView::Invalid(detail@),
        }
    }
}

/// What the settings file amounts to. `path` is how it is spelled.
pub open spec fn config_state(path: Seq<char>, file: ConfigFile) -> ConfigStateView {
    match file {
        ConfigFile::NotFound => ConfigStateView::Missing,
        ConfigFile::Unreadable(err) => ConfigStateView::Invalid(
            "cannot read "@ + path + ": "@ + err@,
        ),
        ConfigFile::Malformed(err) => ConfigStateView::Invalid(
            "corrupt JSON in "@ + path + ": "@ + err@,
        ),
        ConfigFile::Parsed(config) => ConfigStateView::Valid(config@),
    }
}

/// Judge the settings file at `path` by what reading it came to.
pub fn load_config_state_from(path: &Place, file: ConfigFile) -> (r: ConfigState)
    ensures
        r@ == config_state(path@.text, file),
{
    match file {
        ConfigFile::NotFound => ConfigState::Missing,
        ConfigFile::Unreadable(err) => {
            let mut detail = "cannot read ".to_owned();
            detail.append(path.text.as_str());
            detail.append(": ");
            detail.append(err.as_str());
            ConfigState::Invalid(detail)
        },
        ConfigFile::Malformed(err) => {
            let mut detail = "corrupt JSON in ".to_owned();
            detail.append(path.text.as_str());
            detail.append(": ");
            detail.append(err.as_str());
            ConfigState::Invalid(detail)
        },
        ConfigFile::Parsed(config) => ConfigState::Valid(config),
    }
}

/// Judge the session's settings file by what reading it came to.
pub fn load_config_state(state: &RepoState, file: ConfigFile, env: &Environment) -> (r:
    ConfigState)
    requires
        config_file(state@, env@) is Some,
    ensures
        r@ == config_state(config_place(state@, env@)->0.text, file),
{
    load_config_state_from(&locate_config(state, env), file)
}

/// The settings in force: those of a valid file, and those of a fresh installation otherwise.
pub open spec fn settings_of(loaded: ConfigStateView) -> ConfigView {
    match loaded {
        ConfigStateView::Valid(config) => config,
        _ => no_settings(),
    }
}

/// The settings in force.
pub fn load_config(loaded: ConfigState) -> (r: RepoPathConfig)
    ensures
        r@ == settings_of(loaded@),
{
    match loaded {
        ConfigState::Valid(config) => config,
        ConfigState::Missing => RepoPathConfig::default(),
        ConfigState::Invalid(_) => RepoPathConfig::default(),
    }
}

// ---------------------------------------------------------------------------------------
// The requested path and the live location
// ---------------------------------------------------------------------------------------

/// The location that the user asked for; none where that is the default and home is unknown.
pub open spec fn requested_place(
    state: StateView,
    env: EnvironmentView,
    config: ConfigView,
) -> Option<PlaceView> {
    match usable(env, config.repo_path) {
        Some(path) => Some(plain_place(env.platform, path)),
        None => home_place(state, env),
    }
}

/// The path of the location that the user asked for.
pub open spec fn requested_base(
    state: StateView,
    env: EnvironmentView,
    config: ConfigView,
) -> Option<PathView> {
    place_path(requested_place(state, env, config))
}

/// Where the data lies while a move is pending, going by the settings.
pub open spec fn pending_source(env: EnvironmentView, config: ConfigView) -> Option<PathView> {
    usable(env, config.pending_migration_from)
}

/// The location that a session runs against by the settings. `source_is_dir` says whether
/// the pending source is a directory.
pub open spec fn live_place(
    state: StateView,
    env: EnvironmentView,
    config: ConfigView,
    source_is_dir: bool,
) -> Option<PlaceView> {
    if pending_source(env, config) is Some && source_is_dir {
        Some(plain_place(env.platform, pending_source(env, config)->0))
    } else {
        requested_place(state, env, config)
    }
}

/// The path of the location that a session runs against by the settings.
pub open spec fn live_base(
    state: StateView,
    env: EnvironmentView,
    config: ConfigView,
    source_is_dir: bool,
) -> Option<PathView> {
    place_path(live_place(state, env, config, source_is_dir))
}

/// The location that the session runs against.
pub open spec fn session_place(
    state: StateView,
    env: EnvironmentView,
    config: ConfigView,
    source_is_dir: bool,
) -> Option<PlaceView> {
    match state.base_dir_override {
        Some(place) => Some(place),
        None => live_place(state, env, config, source_is_dir),
    }
}

/// The path of the location that the session runs against.
pub open spec fn session_base(
    state: StateView,
    env: EnvironmentView,
    config: ConfigView,
    source_is_dir: bool,
) -> Option<PathView> {
    place_path(session_place(state, env, config, source_is_dir))
}

/// The directory to look for before the live location is known: where the data lies while a
/// move is pending.
pub fn pending_source_dir(config: &RepoPathConfig, env: &Environment) -> (r: Option<RepoPath>)
    ensures
        path_opt(r) == pending_source(env@, config@),
{
    usable_path(&config.pending_migration_from, env)
}

fn find_requested(state: &RepoState, env: &Environment, config: &RepoPathConfig) -> (r: Option<
    Place,
>)
    ensures
        place_opt(r) == requested_place(state@, env@, config@),
{
    match configured_base_dir(config, env) {
        Some(path) => Some(Place::plain(path, env.platform)),
        None => find_home_place(state, env),
    }
}

fn find_live(
    state: &RepoState,
    env: &Environment,
    config: &RepoPathConfig,
    source_is_dir: bool,
) -> (r: Option<Place>)
    ensures
        place_opt(r) == live_place(state@, env@, config@, source_is_dir),
{
    if source_is_dir {
        if let Some(path) = pending_source_dir(config, env) {
            return Some(Place::plain(path, env.platform));
        }
    }
    find_requested(state, env, config)
}

fn find_session(
    state: &RepoState,
    env: &Environment,
    config: &RepoPathConfig,
    source_is_dir: bool,
) -> (r: Option<Place>)
    ensures
        place_opt(r) == session_place(state@, env@, config@, source_is_dir),
{
    match state.base_dir_override() {
        Some(place) => Some(place),
        None => find_live(state, env, config, source_is_dir),
    }
}

/// The location that the session runs against, or none where that is the default and home is
/// unknown.
pub fn find_base_dir(
    state: &RepoState,
    env: &Environment,
    config: &RepoPathConfig,
    source_is_dir: bool,
) -> (r: Option<RepoPath>)
    ensures
        path_opt(r) == session_base(state@, env@, config@, source_is_dir),
{
    path_of(find_session(state, env, config, source_is_dir))
}

/// The location that the user asked for, spelled as it is stored or as home is.
pub fn requested_location(state: &RepoState, env: &Environment, config: &RepoPathConfig) -> (r:
    Place)
    requires
        requested_base(state@, env@, config@) is Some,
    ensures
        Some(r@) == requested_place(state@, env@, config@),
{
    find_requested(state, env, config).unwrap()
}

/// The location that the user asked for, whether or not the data has moved there yet.
pub fn requested_base_dir(state: &RepoState, env: &Environment, config: &RepoPathConfig) -> (r:
    RepoPath)
    requires
        requested_base(state@, env@, config@) is Some,
    ensures
        r@ == requested_base(state@, env@, config@)->0,
{
    requested_location(state, env, config).path
}

/// The location that a session runs against by the settings: the pending source while it is
/// a directory, and the requested path otherwise.
pub fn live_base_dir(
    state: &RepoState,
    env: &Environment,
    config: &RepoPathConfig,
    source_is_dir: bool,
) -> (r: RepoPath)
    requires
        live_base(state@, env@, config@, source_is_dir) is Some,
    ensures
        r@ == live_base(state@, env@, config@, source_is_dir)->0,
{
    find_live(state, env, config, source_is_dir).unwrap().path
}

/// Where the library's data lies right now: where the session was pinned to, or else the live
/// location by the settings.
pub fn base_dir(
    state: &RepoState,
    env: &Environment,
    config: &RepoPathConfig,
    source_is_dir: bool,
) -> (r: RepoPath)
    requires
        session_base(state@, env@, config@, source_is_dir) is Some,
    ensures
        r@ == session_base(state@, env@, config@, source_is_dir)->0,
{
    find_base_dir(state, env, config, source_is_dir).unwrap()
}

/// The entry `name` of the library that the session runs against.
pub open spec fn in_library(
    state: StateView,
    env: EnvironmentView,
    config: ConfigView,
    source_is_dir: bool,
    name: Seq<char>,
) -> PathView {
    child_of(session_base(state, env, config, source_is_dir)->0, name)
}

/// The directory that holds the skills: the pinned one, or else the one below the library.
pub fn skills_dir(
    state: &RepoState,
    env: &Environment,
    config: &RepoPathConfig,
    source_is_dir: bool,
) -> (r: RepoPath)
    requires
        state@.skills_dir_override is None ==> session_base(
            state@,
            env@,
            config@,
            source_is_dir,
        ) is Some,
    ensures
        r@ == (match state@.skills_dir_override {
            Some(path) => path,
            None => in_library(state@, env@, config@, source_is_dir, SKILLS_DIR_NAME@),
        }),
{
    match state.skills_dir_override() {
        Some(path) => path,
        None => base_dir(state, env, config, source_is_dir).child(SKILLS_DIR_NAME),
    }
}

/// The directory of the scenarios below the library.
pub fn scenarios_dir(
    state: &RepoState,
    env: &Environment,
    config: &RepoPathConfig,
    source_is_dir: bool,
) -> (r: RepoPath)
    requires
        session_base(state@, env@, config@, source_is_dir) is Some,
    ensures
        r@ == in_library(state@, env@, config@, source_is_dir, SCENARIOS_DIR_NAME@),
{
    base_dir(state, env, config, source_is_dir).child(SCENARIOS_DIR_NAME)
}

/// The cache directory below the library.
pub fn cache_dir(
    state: &RepoState,
    env: &Environment,
    config: &RepoPathConfig,
    source_is_dir: bool,
) -> (r: RepoPath)
    requires
        session_base(state@, env@, config@, source_is_dir) is Some,
    ensures
        r@ == in_library(state@, env@, config@, source_is_dir, CACHE_DIR_NAME@),
{
    base_dir(state, env, config, source_is_dir).child(CACHE_DIR_NAME)
}

/// The log directory below the library.
pub fn logs_dir(
    state: &RepoState,
    env: &Environment,
    config: &RepoPathConfig,
    source_is_dir: bool,
) -> (r: RepoPath)
    requires
        session_base(state@, env@, config@, source_is_dir) is Some,
    ensures
        r@ == in_library(state@, env@, config@, source_is_dir, LOGS_DIR_NAME@),
{
    base_dir(state, env, config, source_is_dir).child(LOGS_DIR_NAME)
}

/// The database file of the library.
pub fn db_path(
    state: &RepoState,
    env: &Environment,
    config: &RepoPathConfig,
    source_is_dir: bool,
) -> (r: RepoPath)
    requires
        session_base(state@, env@, config@, source_is_dir) is Some,
    ensures
        r@ == in_library(state@, env@, config@, source_is_dir, DATABASE_FILE_NAME@),
{
    base_dir(state, env, config, source_is_dir).child(DATABASE_FILE_NAME)
}

// ---------------------------------------------------------------------------------------
// Changing the requested path
// ---------------------------------------------------------------------------------------

/// Whether the user wants the library moved, or wants to use the one that is already there.
#[derive(Debug, Clone, Copy, PartialEq, Eq, Structural)]
pub enum RepoPathIntent {
    /// Copy the library to the requested path, then switch to it.
    Migrate,
    /// Use the library at the requested path as it is; copy nothing.
    Adopt,
}

/// A change of the requested path that is yet to be saved.
pub struct BaseDirChange {
    /// The path that was requested.
    pub next: RepoPath,
    /// Where the data lies now.
    pub data_location: Place,
    /// The settings to save.
    pub config: RepoPathConfig,
}

/// The value of a [`BaseDirChange`].
pub struct ChangeView {
    pub next: PathView,
    pub data_location: PlaceView,
    pub config: ConfigView,
}

impl View for BaseDirChange {
    type V = ChangeView;

    open spec fn view(&self) -> ChangeView {
        ChangeView {
            next: self.next@,
            data_location: self.data_location@,
            config: self.config@,
        }
    }
}

/// Where the data lies on disk. A change of path that was saved and not acted on yet leaves
/// it at the pending source.
pub open spec fn data_location_of(
    state: StateView,
    env: EnvironmentView,
    config: ConfigView,
    source_is_dir: bool,
) -> Option<PlaceView> {
    if pending_source(env, config) is Some && source_is_dir {
        Some(plain_place(env.platform, pending_source(env, config)->0))
    } else {
        session_place(state, env, config, source_is_dir)
    }
}

/// The path that a request names: the default location where it names none.
pub open spec fn requested_next(
    state: StateView,
    env: EnvironmentView,
    path: Option<Seq<char>>,
) -> Result<PathView, PathError> {
    match path {
        Some(raw) => normalized(env, raw),
        None => Ok(home_base(state, env)->0),
    }
}

/// The settings after a request for `next`. The default location is stored as no path at all.
/// A pending move is stored unless the library is adopted or is there already; its source is
/// stored as it is spelled.
pub open spec fn requested_config(
    env: EnvironmentView,
    path: Option<Seq<char>>,
    next: PathView,
    data_location: PlaceView,
    intent: RepoPathIntent,
) -> ConfigView {
    ConfigView {
        repo_path: if path is Some {
            Some(text_of(env.platform, next))
        } else {
            None
        },
        pending_migration_from: if intent == RepoPathIntent::Adopt || same_path(
            next,
            data_location.path,
        ) {
            None
        } else {
            Some(data_location.text)
        },
    }
}

/// Record where the user wants the library, without moving it there. The change is to be
/// saved, and [`keep_session_on_data`] called once it is.
pub fn set_base_dir_override(
    state: &RepoState,
    env: &Environment,
    config: &RepoPathConfig,
    source_is_dir: bool,
    path: Option<String>,
    intent: RepoPathIntent,
) -> (r: Result<BaseDirChange, PathError>)
    requires
        session_base(state@, env@, config@, source_is_dir) is Some,
        path is None ==> home_base(state@, env@) is Some,
    ensures
        (match r {
            Ok(change) => {
                &&& requested_next(state@, env@, text_opt(path)) == Ok::<PathView, PathError>(
                    change@.next,
                )
                &&& change@.data_location == data_location_of(
                    state@,
                    env@,
                    config@,
                    source_is_dir,
                )->0
                &&& change@.config == requested_config(
                    env@,
                    text_opt(path),
                    change@.next,
                    change@.data_location,
                    intent,
                )
            },
            Err(err) => requested_next(state@, env@, text_opt(path)) == Err::<PathView, PathError>(
                err,
            ),
        }),
        r matches Ok(change) ==> change@ == requested_change(
            state@,
            env@,
            config@,
            source_is_dir,
            text_opt(path),
            intent,
        ),
{
    let current = find_session(state, env, config, source_is_dir).unwrap();
    let data_location = if source_is_dir {
        match pending_source_dir(config, env) {
            Some(source) => Place::plain(source, env.platform),
            None => current,
        }
    } else {
        current
    };
    let persist = path.is_some();
    let next = match path {
        Some(raw) => match normalize_path(raw.as_str(), env) {
            Ok(next) => next,
            Err(err) => {
                return Err(err);
            },
        },
        None => default_base_dir(state, env),
    };
    let repo_path = if persist {
        Some(next.to_text(env.platform))
    } else {
        None
    };
    let pending_migration_from = if intent == RepoPathIntent::Adopt {
        None
    } else if !next.same_as(&data_location.path) {
        Some(data_location.text.clone())
    } else {
        None
    };
    Ok(
        BaseDirChange {
            next,
            data_location,
            config: RepoPathConfig { repo_path, pending_migration_from },
        },
    )
}

/// The session once `change` is saved: pinned to the data where the saved settings would lead it
/// elsewhere.
pub open spec fn kept_session(
    state: StateView,
    env: EnvironmentView,
    change: ChangeView,
    marker_is_dir: bool,
) -> StateView {
    if same_path(
        live_base(state, env, change.config, marker_is_dir)->0,
        change.data_location.path,
    ) {
        state
    } else {
        StateView { base_dir_override: Some(change.data_location), ..state }
    }
}

/// Keep the session on the data that it has open, now that `change` is saved. The session is
/// pinned where the saved settings would lead it elsewhere, and only there: a pinned session
/// carries out no pending move. `marker_is_dir` says whether the pending source of the saved
/// settings is a directory.
pub fn keep_session_on_data(
    state: &mut RepoState,
    env: &Environment,
    change: &BaseDirChange,
    marker_is_dir: bool,
)
    requires
        live_base(old(state)@, env@, change@.config, marker_is_dir) is Some,
    ensures
        final(state)@ == kept_session(old(state)@, env@, change@, marker_is_dir),
{
    let live = live_base_dir(state, env, &change.config, marker_is_dir);
    if !live.same_as(&change.data_location.path) {
        set_runtime_base_dir_override(state, Some(change.data_location.clone()));
    }
}

/// Whether two paths are one directory: equal, or the same once links and spelling are
/// resolved. A path that cannot be resolved has no canonical form.
pub open spec fn same_dir(
    a: PathView,
    b: PathView,
    canonical_a: Option<PathView>,
    canonical_b: Option<PathView>,
) -> bool {
    same_path(a, b) || (canonical_a is Some && canonical_b is Some && same_path(
        canonical_a->0,
        canonical_b->0,
    ))
}

/// Whether two paths are one directory, going by the paths and by their canonical forms.
pub fn paths_are_same_dir(
    a: &RepoPath,
    b: &RepoPath,
    canonical_a: Option<&RepoPath>,
    canonical_b: Option<&RepoPath>,
) -> (r: bool)
    ensures
        r == same_dir(a@, b@, path_ref(canonical_a), path_ref(canonical_b)),
{
    if a.same_as(b) {
        return true;
    }
    match (canonical_a, canonical_b) {
        (Some(ca), Some(cb)) => ca.same_as(cb),
        _ => false,
    }
}

/// The settings that keep the library at `location`: no path at all where that is the default,
/// and the location as it is spelled otherwise.
pub open spec fn settled_config(location: PlaceView, is_default: bool) -> ConfigView {
    ConfigView {
        repo_path: if is_default {
            None
        } else {
            Some(location.text)
        },
        pending_migration_from: None,
    }
}

/// Abandon a pending switch: the settings to save so that the library stays where the session
/// has it. The canonical forms are those of the session's library and of the default
/// location.
pub fn cancel_pending_migration(
    state: &RepoState,
    env: &Environment,
    config: &RepoPathConfig,
    source_is_dir: bool,
    canonical_live: Option<&RepoPath>,
    canonical_default: Option<&RepoPath>,
) -> (r: RepoPathConfig)
    requires
        session_base(state@, env@, config@, source_is_dir) is Some,
        home_base(state@, env@) is Some,
    ensures
        r@ == settled_config(
            session_place(state@, env@, config@, source_is_dir)->0,
            same_dir(
                session_base(state@, env@, config@, source_is_dir)->0,
                home_base(state@, env@)->0,
                path_ref(canonical_live),
                path_ref(canonical_default),
            ),
        ),
        r@ == cancelled(
            state@,
            env@,
            config@,
            source_is_dir,
            path_ref(canonical_live),
            path_ref(canonical_default),
        ),
{
    let location = find_session(state, env, config, source_is_dir).unwrap();
    let default_location = default_base_dir(state, env);
    let repo_path = if paths_are_same_dir(
        &location.path,
        &default_location,
        canonical_live,
        canonical_default,
    ) {
        None
    } else {
        Some(location.text)
    };
    RepoPathConfig { repo_path, pending_migration_from: None }
}

/// Where the library is headed on the next launch, if that is not where it is now.
pub open spec fn switch_target(
    state: StateView,
    env: EnvironmentView,
    config: ConfigView,
    source_is_dir: bool,
) -> Option<PathView> {
    if same_path(
        requested_base(state, env, config)->0,
        session_base(state, env, config, source_is_dir)->0,
    ) {
        None
    } else {
        requested_base(state, env, config)
    }
}

/// Where the library is headed on the next launch, if that is not where it is now.
pub fn pending_switch_target(
    state: &RepoState,
    env: &Environment,
    config: &RepoPathConfig,
    source_is_dir: bool,
) -> (r: Option<RepoPath>)
    requires
        session_base(state@, env@, config@, source_is_dir) is Some,
        requested_base(state@, env@, config@) is Some,
    ensures
        path_opt(r) == switch_target(state@, env@, config@, source_is_dir),
{
    let live = base_dir(state, env, config, source_is_dir);
    let requested = requested_base_dir(state, env, config);
    if requested.same_as(&live) {
        None
    } else {
        Some(requested)
    }
}

} // verus!
