//! What a candidate destination holds, and whether the library may be moved into it.
//!
//! A destination counts as empty while it holds nothing but what the app and the operating
//! system leave behind by themselves. The list is fixed, and membership is decided by name
//! and kind: taking real data for debris would destroy it.

use vstd::prelude::*;
use vstd::string::*;

use crate::central_repo::{
    normalize_path, normalized, PathError, CACHE_DIR_NAME, LOGS_DIR_NAME, SCENARIOS_DIR_NAME,
    SKILLS_DIR_NAME,
};
use crate::environment::{Environment, EnvironmentView};
use crate::paths::text_of;
use crate::text::{begins_with, same_text, text_begins_with};

verus! {

/// The directory of the command line bridge. It lies in the default location whatever the
/// settings say.
pub const CLI_BRIDGE_DIR_NAME: &'static str = "bin";

/// What kind of thing a directory entry is. Links are not followed.
#[derive(Debug, Clone, Copy, PartialEq, Eq, Structural)]
pub enum EntryKind {
    File,
    Dir,
    Symlink,
    Other,
}

/// What is known of one directory entry.
pub struct EntryFacts {
    /// The name, unless it cannot be decoded.
    pub name: Option<String>,
    /// The kind, or why it cannot be told.
    pub kind: Result<EntryKind, String>,
    /// Whether the command line bridge claims files of this name as its own.
    pub bridge_owned: bool,
}

/// One turn of walking through a directory.
pub enum Listed {
    Entry(EntryFacts),
    /// The entry could not be read, for the given reason.
    Failed(String),
}

/// What walking through a directory came to.
pub enum Listing {
    /// The directory could not be opened, for the given reason.
    Failed(String),
    Items(Vec<Listed>),
}

/// An entry of a candidate destination.
pub struct TargetEntry {
    pub facts: EntryFacts,
    /// What lies in the entry, where [`wants_listing`] asks for it.
    pub inside: Listing,
}

/// One turn of walking through a candidate destination.
pub enum TargetItem {
    Entry(TargetEntry),
    /// The entry could not be read, for the given reason.
    Failed(String),
}

/// What looking at a candidate destination came to.
pub enum TargetContents {
    /// There is nothing at that path.
    Absent,
    /// The path exists and cannot be listed, for the given reason.
    Unlistable(String),
    Items(Vec<TargetItem>),
}

/// Names that the operating system, not the user, drops into a directory.
pub open spec fn os_metadata(name: Seq<char>) -> bool {
    ||| name == ".DS_Store"@
    ||| name == "desktop.ini"@
    ||| name == "Thumbs.db"@
    ||| name == ".localized"@
    ||| begins_with(name, "._"@)
}

/// Whether `name` is one that the operating system drops into a directory.
pub fn is_os_metadata_name(name: &str) -> (r: bool)
    ensures
        r == os_metadata(name@),
{
    same_text(name, ".DS_Store") || same_text(name, "desktop.ini") || same_text(name, "Thumbs.db")
        || same_text(name, ".localized") || text_begins_with(name, "._")
}

/// The directories that startup creates in a library.
pub open spec fn skeleton_name(name: Seq<char>) -> bool {
    ||| name == SKILLS_DIR_NAME@
    ||| name == SCENARIOS_DIR_NAME@
    ||| name == CACHE_DIR_NAME@
    ||| name == LOGS_DIR_NAME@
}

fn is_skeleton_name(name: &str) -> (r: bool)
    ensures
        r == skeleton_name(name@),
{
    same_text(name, SKILLS_DIR_NAME) || same_text(name, SCENARIOS_DIR_NAME) || same_text(
        name,
        CACHE_DIR_NAME,
    ) || same_text(name, LOGS_DIR_NAME)
}

/// Whether a walk meets nothing but the operating system's own files. The first entry that
/// is something else, or that cannot be read, decides.
pub open spec fn only_os_metadata(items: Seq<Listed>) -> Result<bool, String>
    decreases items.len(),
{
    if items.len() == 0 {
        Ok(true)
    } else {
        match items[0] {
            Listed::Failed(err) => Err(err),
            Listed::Entry(facts) => match facts.name {
                Some(name) => if os_metadata(name@) {
                    only_os_metadata(items.skip(1))
                } else {
                    Ok(false)
                },
                None => Ok(false),
            },
        }
    }
}

/// [`only_os_metadata`] of a directory that may not open.
pub open spec fn holds_only_os_metadata(dir: Listing) -> Result<bool, String> {
    match dir {
        Listing::Failed(err) => Err(err),
        Listing::Items(items) => only_os_metadata(items@),
    }
}

/// Whether a directory holds nothing but the operating system's own files.
pub fn dir_holds_only_os_metadata(dir: &Listing) -> (r: Result<bool, String>)
    ensures
        r == holds_only_os_metadata(*dir),
{
    let items = match dir {
        Listing::Failed(err) => {
            return Err(err.clone());
        },
        Listing::Items(items) => items,
    };
    assert(items@.skip(0) =~= items@);
    for i in 0..items.len()
        invariant
            holds_only_os_metadata(*dir) == only_os_metadata(items@.skip(i as int)),
    {
        assert(items@.skip(i as int).skip(1) =~= items@.skip(i + 1));
        assert(items@.skip(i as int)[0] == items@[i as int]);
        match &items[i] {
            Listed::Failed(err) => {
                return Err(err.clone());
            },
            Listed::Entry(facts) => match &facts.name {
                None => {
                    return Ok(false);
                },
                Some(name) => {
                    if !is_os_metadata_name(name.as_str()) {
                        return Ok(false);
                    }
                },
            },
        }
    }
    Ok(true)
}

/// Whether one entry of the bridge's directory leaves the question open: it is a plain file
/// that is the operating system's or the bridge's. The kind is looked at only where the name
/// makes it matter.
pub open spec fn bridge_file(facts: EntryFacts) -> Result<bool, String> {
    match facts.name {
        Some(name) => if os_metadata(name@) || facts.bridge_owned {
            match facts.kind {
                Ok(kind) => Ok(kind == EntryKind::File),
                Err(err) => Err(err),
            }
        } else {
            Ok(false)
        },
        None => Ok(false),
    }
}

/// Whether a walk meets nothing but the bridge's and the operating system's files. The first
/// entry that is something else, or that cannot be read, decides.
pub open spec fn only_bridge_files(items: Seq<Listed>) -> Result<bool, String>
    decreases items.len(),
{
    if items.len() == 0 {
        Ok(true)
    } else {
        match items[0] {
            Listed::Failed(err) => Err(err),
            Listed::Entry(facts) => match bridge_file(facts) {
                Ok(owned) => if owned {
                    only_bridge_files(items.skip(1))
                } else {
                    Ok(false)
                },
                Err(err) => Err(err),
            },
        }
    }
}

/// [`only_bridge_files`] of a directory that may not open.
pub open spec fn holds_only_bridge_files(dir: Listing) -> Result<bool, String> {
    match dir {
        Listing::Failed(err) => Err(err),
        Listing::Items(items) => only_bridge_files(items@),
    }
}

fn copy_kind(kind: &Result<EntryKind, String>) -> (r: Result<EntryKind, String>)
    ensures
        r == *kind,
{
    match kind {
        Ok(k) => Ok(*k),
        Err(err) => Err(err.clone()),
    }
}

/// Whether the bridge's directory holds nothing but the bridge's files.
pub fn bridge_dir_is_owned(dir: &Listing) -> (r: Result<bool, String>)
    ensures
        r == holds_only_bridge_files(*dir),
{
    let items = match dir {
        Listing::Failed(err) => {
            return Err(err.clone());
        },
        Listing::Items(items) => items,
    };
    assert(items@.skip(0) =~= items@);
    for i in 0..items.len()
        invariant
            holds_only_bridge_files(*dir) == only_bridge_files(items@.skip(i as int)),
    {
        assert(items@.skip(i as int).skip(1) =~= items@.skip(i + 1));
        assert(items@.skip(i as int)[0] == items@[i as int]);
        match &items[i] {
            Listed::Failed(err) => {
                return Err(err.clone());
            },
            Listed::Entry(facts) => match &facts.name {
                None => {
                    return Ok(false);
                },
                Some(name) => {
                    if !is_os_metadata_name(name.as_str()) && !facts.bridge_owned {
                        return Ok(false);
                    }
                    match copy_kind(&facts.kind) {
                        Err(err) => {
                            return Err(err);
                        },
                        Ok(kind) => {
                            if kind != EntryKind::File {
                                return Ok(false);
                            }
                        },
                    }
                },
            },
        }
    }
    Ok(true)
}

/// Whether an entry is something that the app leaves in a library location before anything is
/// moved there: the lock as a file, a skeleton or the bridge's directory as a directory that
/// holds nothing else. The operating system's files never count as content either. Every
/// other name is content, the database and the key of a library above all.
pub open spec fn app_owned_debris(lock_file_name: Seq<char>, entry: TargetEntry) -> Result<
    bool,
    String,
> {
    match entry.facts.name {
        None => Ok(false),
        Some(name) => if os_metadata(name@) {
            Ok(true)
        } else {
            match entry.facts.kind {
                Err(err) => Err(err),
                Ok(kind) => if name@ == lock_file_name {
                    Ok(kind == EntryKind::File)
                } else if kind != EntryKind::Dir {
                    Ok(false)
                } else if skeleton_name(name@) {
                    holds_only_os_metadata(entry.inside)
                } else if name@ == CLI_BRIDGE_DIR_NAME@ {
                    holds_only_bridge_files(entry.inside)
                } else {
                    Ok(false)
                },
            }
        },
    }
}

/// Whether an entry of a destination is debris of the app or of the operating system.
pub fn is_app_owned_debris(entry: &TargetEntry, lock_file_name: &str) -> (r: Result<bool, String>)
    ensures
        r == app_owned_debris(lock_file_name@, *entry),
{
    let name = match &entry.facts.name {
        Some(name) => name.as_str(),
        None => {
            return Ok(false);
        },
    };
    if is_os_metadata_name(name) {
        return Ok(true);
    }
    let kind = match copy_kind(&entry.facts.kind) {
        Ok(kind) => kind,
        Err(err) => {
            return Err(err);
        },
    };
    if same_text(name, lock_file_name) {
        return Ok(kind == EntryKind::File);
    }
    if is_skeleton_name(name) {
        if kind != EntryKind::Dir {
            return Ok(false);
        }
        return dir_holds_only_os_metadata(&entry.inside);
    }
    if same_text(name, CLI_BRIDGE_DIR_NAME) {
        if kind != EntryKind::Dir {
            return Ok(false);
        }
        return bridge_dir_is_owned(&entry.inside);
    }
    Ok(false)
}

/// Whether what lies in an entry has a say in [`is_app_owned_debris`].
pub open spec fn listing_matters(lock_file_name: Seq<char>, facts: EntryFacts) -> bool {
    match facts.name {
        None => false,
        Some(name) => {
            &&& !os_metadata(name@)
            &&& name@ != lock_file_name
            &&& facts.kind == Ok::<EntryKind, String>(EntryKind::Dir)
            &&& skeleton_name(name@) || name@ == CLI_BRIDGE_DIR_NAME@
        },
    }
}

/// Whether an entry of a destination has to be looked into before it is judged.
pub fn wants_listing(facts: &EntryFacts, lock_file_name: &str) -> (r: bool)
    ensures
        r == listing_matters(lock_file_name@, *facts),
{
    let is_dir = match copy_kind(&facts.kind) {
        Ok(kind) => kind == EntryKind::Dir,
        Err(_) => false,
    };
    match &facts.name {
        None => false,
        Some(name) => !is_os_metadata_name(name.as_str()) && !same_text(
            name.as_str(),
            lock_file_name,
        ) && is_dir && (is_skeleton_name(name.as_str()) || same_text(
            name.as_str(),
            CLI_BRIDGE_DIR_NAME,
        )),
    }
}

/// Whether a walk meets anything that the user would miss. The first entry that is not debris,
/// or that cannot be judged, decides.
pub open spec fn holds_user_data(lock_file_name: Seq<char>, items: Seq<TargetItem>) -> Result<
    bool,
    String,
>
    decreases items.len(),
{
    if items.len() == 0 {
        Ok(false)
    } else {
        match items[0] {
            TargetItem::Failed(err) => Err(err),
            TargetItem::Entry(entry) => match app_owned_debris(lock_file_name, entry) {
                Ok(debris) => if debris {
                    holds_user_data(lock_file_name, items.skip(1))
                } else {
                    Ok(true)
                },
                Err(err) => Err(err),
            },
        }
    }
}

/// [`holds_user_data`] of a destination that may not be there or may not open.
pub open spec fn user_data_in(lock_file_name: Seq<char>, contents: TargetContents) -> Result<
    bool,
    String,
> {
    match contents {
        TargetContents::Absent => Ok(false),
        TargetContents::Unlistable(err) => Err(err),
        TargetContents::Items(items) => holds_user_data(lock_file_name, items@),
    }
}

/// Whether a destination holds anything that the user would miss if it were overwritten.
pub fn target_has_user_data(contents: &TargetContents, lock_file_name: &str) -> (r: Result<
    bool,
    String,
>)
    ensures
        r == user_data_in(lock_file_name@, *contents),
{
    let items = match contents {
        TargetContents::Absent => {
            return Ok(false);
        },
        TargetContents::Unlistable(err) => {
            return Err(err.clone());
        },
        TargetContents::Items(items) => items,
    };
    assert(items@.skip(0) =~= items@);
    for i in 0..items.len()
        invariant
            user_data_in(lock_file_name@, *contents) == holds_user_data(
                lock_file_name@,
                items@.skip(i as int),
            ),
    {
        assert(items@.skip(i as int).skip(1) =~= items@.skip(i + 1));
        assert(items@.skip(i as int)[0] == items@[i as int]);
        match &items[i] {
            TargetItem::Failed(err) => {
                return Err(err.clone());
            },
            TargetItem::Entry(entry) => match is_app_owned_debris(entry, lock_file_name) {
                Err(err) => {
                    return Err(err);
                },
                Ok(debris) => {
                    if !debris {
                        return Ok(true);
                    }
                },
            },
        }
    }
    Ok(false)
}

// ---------------------------------------------------------------------------------------
// Classifying a destination
// ---------------------------------------------------------------------------------------

/// What a candidate destination turns out to hold.
#[derive(Debug, PartialEq, Eq)]
pub enum TargetInspection {
    /// Nothing that stands in the way of a move.
    Empty { requested_path: String },
    /// A library with skills in it.
    ExistingLibrary { requested_path: String, skill_count: usize },
    /// Somebody's data, neither to be overwritten nor to be adopted.
    NotEmpty { requested_path: String },
}

/// The value of a [`TargetInspection`].
pub enum InspectionView {
    Empty { requested_path: Seq<char> },
    ExistingLibrary { requested_path: Seq<char>, skill_count: usize },
    NotEmpty { requested_path: Seq<char> },
}

impl View for TargetInspection {
    type V = InspectionView;

    open spec fn view(&self) -> InspectionView {
        match self {
            TargetInspection::Empty { requested_path } => InspectionView::Empty {
                requested_path: requested_path@,
            },
            TargetInspection::ExistingLibrary { requested_path, skill_count } =>
            InspectionView::ExistingLibrary {
                requested_path: requested_path@,
                skill_count: *skill_count,
            },
            TargetInspection::NotEmpty { requested_path } => InspectionView::NotEmpty {
                requested_path: requested_path@,
            },
        }
    }
}

/// Why a destination cannot be classified.
#[derive(Debug, PartialEq, Eq)]
pub enum InspectError {
    /// The path cannot be used.
    Path(PathError),
    /// The destination cannot be looked at, for the given reason.
    Unreadable(String),
}

/// The number of skills that a database reports. A count below zero is none; no count at all
/// means that it cannot be told, which is not the same as none.
pub open spec fn reported_skills(rows: Option<i64>) -> Option<usize> {
    match rows {
        Some(count) => Some(
            if count < 0 {
                0
            } else {
                count as usize
            },
        ),
        None => None,
    }
}

/// The number of skills of an existing library, from the count that its database answered
/// with.
pub fn read_library_skill_count(rows: Option<i64>) -> (r: Option<usize>)
    ensures
        r == reported_skills(rows),
{
    match rows {
        Some(count) => Some(
            if count < 0 {
                0
            } else {
                count as usize
            },
        ),
        None => None,
    }
}

/// What a destination turns out to hold, going by what was seen of it.
pub open spec fn inspected(
    env: EnvironmentView,
    raw: Seq<char>,
    contents: TargetContents,
    lock_file_name: Seq<char>,
    database_is_file: bool,
    rows: Option<i64>,
) -> Result<InspectionView, InspectError> {
    match normalized(env, raw) {
        Err(err) => Err(InspectError::Path(err)),
        Ok(path) => {
            let requested_path = text_of(env.platform, path);
            match user_data_in(lock_file_name, contents) {
                Err(err) => Err(InspectError::Unreadable(err)),
                Ok(has_data) => if !has_data {
                    Ok(InspectionView::Empty { requested_path })
                } else if database_is_file && reported_skills(rows) is Some && reported_skills(
                    rows,
                )->0 > 0 {
                    Ok(
                        InspectionView::ExistingLibrary {
                            requested_path,
                            skill_count: reported_skills(rows)->0,
                        },
                    )
                } else {
                    Ok(InspectionView::NotEmpty { requested_path })
                },
            }
        },
    }
}

/// Classify a destination that the user picked. `contents` is what lies at the path that
/// `raw` stands for, `database_is_file` whether a library's database lies there as a plain
/// file, and `rows` what that database counts; the last two have a say only where the
/// destination holds user data. A library is offered for adoption only if it is known to
/// hold skills: to be switched to an empty one looks like losing everything.
pub fn inspect_target(
    raw: &str,
    env: &Environment,
    contents: &TargetContents,
    lock_file_name: &str,
    database_is_file: bool,
    rows: Option<i64>,
) -> (r: Result<TargetInspection, InspectError>)
    ensures
        (match r {
            Ok(inspection) => Ok(inspection@),
            Err(err) => Err(err),
        }) == inspected(env@, raw@, *contents, lock_file_name@, database_is_file, rows),
{
    let path = match normalize_path(raw, env) {
        Ok(path) => path,
        Err(err) => {
            return Err(InspectError::Path(err));
        },
    };
    let requested_path = path.to_text(env.platform);
    match target_has_user_data(contents, lock_file_name) {
        Err(err) => {
            return Err(InspectError::Unreadable(err));
        },
        Ok(has_data) => {
            if !has_data {
                return Ok(TargetInspection::Empty { requested_path });
            }
        },
    }
    if database_is_file {
        if let Some(skill_count) = read_library_skill_count(rows) {
            if skill_count > 0 {
                return Ok(TargetInspection::ExistingLibrary { requested_path, skill_count });
            }
        }
    }
    Ok(TargetInspection::NotEmpty { requested_path })
}

} // verus!
