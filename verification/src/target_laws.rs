//! What holds of candidate destinations: what counts as debris, and what is never overwritten.

use vstd::prelude::*;

use crate::central_repo::{
    normalized, CACHE_DIR_NAME, DATABASE_FILE_NAME, LOGS_DIR_NAME, SCENARIOS_DIR_NAME,
    SKILLS_DIR_NAME,
};
use crate::environment::EnvironmentView;
use crate::path_laws::reads_back;
use crate::paths::{child_of, text_of, PathView};
use crate::startup::library_dirs;
use crate::state::StateView;
use crate::target::{
    app_owned_debris, bridge_file, holds_user_data, inspected, listing_matters, only_bridge_files,
    only_os_metadata, os_metadata, reported_skills, skeleton_name, user_data_in, EntryFacts,
    EntryKind, InspectError, InspectionView, Listed, Listing, TargetContents, TargetEntry,
    TargetItem, CLI_BRIDGE_DIR_NAME,
};

verus! {

/// The file that holds the key of a library.
pub const SECRET_KEY_FILE_NAME: &'static str = ".secret.key";

/// Whether an item of a destination was read and judged to be debris or not.
pub open spec fn judged_item(lock_file_name: Seq<char>, item: TargetItem) -> bool {
    item matches TargetItem::Entry(entry) && app_owned_debris(lock_file_name, entry) is Ok
}

/// Whether an item of a destination is something other than debris.
pub open spec fn content_item(lock_file_name: Seq<char>, item: TargetItem) -> bool {
    item matches TargetItem::Entry(entry) && app_owned_debris(lock_file_name, entry) == Ok::<
        bool,
        String,
    >(false)
}

/// Law: where every item can be judged, a destination holds user data if and only if one of its
/// items is not debris, in whatever order they come.
pub proof fn law_user_data_is_what_is_not_debris(lock_file_name: Seq<char>, items: Seq<TargetItem>)
    requires
        forall|i: int| 0 <= i < items.len() ==> judged_item(lock_file_name, #[trigger] items[i]),
    ensures
        holds_user_data(lock_file_name, items) == Ok::<bool, String>(
            exists|i: int|
                0 <= i < items.len() && content_item(lock_file_name, #[trigger] items[i]),
        ),
    decreases items.len(),
{
    if items.len() > 0 {
        let rest = items.skip(1);
        assert forall|i: int| 0 <= i < rest.len() implies judged_item(
            lock_file_name,
            #[trigger] rest[i],
        ) by {
            assert(rest[i] == items[i + 1]);
        }
        law_user_data_is_what_is_not_debris(lock_file_name, rest);
        assert(judged_item(lock_file_name, items[0]));
        if content_item(lock_file_name, items[0]) {
        } else {
            if exists|i: int|
                0 <= i < rest.len() && content_item(lock_file_name, #[trigger] rest[i]) {
                let i = choose|i: int|
                    0 <= i < rest.len() && content_item(lock_file_name, #[trigger] rest[i]);
                assert(content_item(lock_file_name, items[i + 1]));
            }
            if exists|i: int|
                0 <= i < items.len() && content_item(lock_file_name, #[trigger] items[i]) {
                let i = choose|i: int|
                    0 <= i < items.len() && content_item(lock_file_name, #[trigger] items[i]);
                assert(i > 0);
                assert(content_item(lock_file_name, rest[i - 1]));
            }
        }
    }
}

/// Law: a destination that holds an item other than debris never counts as empty.
pub proof fn law_content_is_never_overlooked(
    lock_file_name: Seq<char>,
    items: Seq<TargetItem>,
    i: int,
)
    requires
        0 <= i < items.len(),
        content_item(lock_file_name, items[i]),
    ensures
        holds_user_data(lock_file_name, items) != Ok::<bool, String>(false),
    decreases items.len(),
{
    if i > 0 {
        assert(items.skip(1)[i - 1] == items[i]);
        law_content_is_never_overlooked(lock_file_name, items.skip(1), i - 1);
    }
}

/// Law: a destination that is not there, or that holds nothing, counts as empty.
pub proof fn law_absent_destinations_are_empty(lock_file_name: Seq<char>, contents: TargetContents)
    requires
        contents is Absent || (contents matches TargetContents::Items(items) && items@.len() == 0),
    ensures
        user_data_in(lock_file_name, contents) == Ok::<bool, String>(false),
{
}

/// None of the names that the app gives to things of its own is one that the operating system
/// drops into a directory.
proof fn lemma_own_names_are_not_metadata()
    ensures
        !os_metadata(DATABASE_FILE_NAME@),
        !os_metadata(SECRET_KEY_FILE_NAME@),
        !os_metadata(SKILLS_DIR_NAME@),
        !os_metadata(SCENARIOS_DIR_NAME@),
        !os_metadata(CACHE_DIR_NAME@),
        !os_metadata(LOGS_DIR_NAME@),
        !os_metadata(CLI_BRIDGE_DIR_NAME@),
        !skeleton_name(DATABASE_FILE_NAME@),
        !skeleton_name(SECRET_KEY_FILE_NAME@),
        !skeleton_name(CLI_BRIDGE_DIR_NAME@),
        DATABASE_FILE_NAME@ != CLI_BRIDGE_DIR_NAME@,
        SECRET_KEY_FILE_NAME@ != CLI_BRIDGE_DIR_NAME@,
{
    reveal_strlit(".DS_Store");
    reveal_strlit("desktop.ini");
    reveal_strlit("Thumbs.db");
    reveal_strlit(".localized");
    reveal_strlit("._");
    reveal_strlit("skills-manager.db");
    reveal_strlit(".secret.key");
    reveal_strlit("skills");
    reveal_strlit("scenarios");
    reveal_strlit("cache");
    reveal_strlit("logs");
    reveal_strlit("bin");
    assert(SECRET_KEY_FILE_NAME@[1] == 's');
    assert(".DS_Store"@[1] == 'D');
    assert(".localized"@[1] == 'l');
    assert("._"@[1] == '_');
    assert(SECRET_KEY_FILE_NAME@.take(2)[1] == 's');
    assert(DATABASE_FILE_NAME@.take(2)[0] == 's');
    assert(SKILLS_DIR_NAME@.take(2)[0] == 's');
    assert(SCENARIOS_DIR_NAME@.take(2)[0] == 's');
    assert(CACHE_DIR_NAME@.take(2)[0] == 'c');
    assert(LOGS_DIR_NAME@.take(2)[0] == 'l');
    assert(CLI_BRIDGE_DIR_NAME@.take(2)[0] == 'b');
    assert(SCENARIOS_DIR_NAME@.len() == 9);
    assert(SECRET_KEY_FILE_NAME@.len() == 11 && SECRET_KEY_FILE_NAME@[0] == '.');
    assert("desktop.ini"@[0] == 'd');
    assert("Thumbs.db"@[0] == 'T');
}

/// Law: the database and the key of a library are content, whatever kind of thing they are.
pub proof fn law_library_state_is_content(lock_file_name: Seq<char>, entry: TargetEntry)
    requires
        entry.facts.name matches Some(name) && (name@ == DATABASE_FILE_NAME@ || name@
            == SECRET_KEY_FILE_NAME@) && name@ != lock_file_name,
        entry.facts.kind is Ok,
    ensures
        app_owned_debris(lock_file_name, entry) == Ok::<bool, String>(false),
{
    lemma_own_names_are_not_metadata();
}

/// Law: the lock is debris as a plain file, and content as anything else.
pub proof fn law_lock_is_debris_as_a_file(lock_file_name: Seq<char>, entry: TargetEntry)
    requires
        entry.facts.name matches Some(name) && name@ == lock_file_name,
        !os_metadata(lock_file_name),
        entry.facts.kind is Ok,
    ensures
        app_owned_debris(lock_file_name, entry) == Ok::<bool, String>(
            entry.facts.kind->Ok_0 == EntryKind::File,
        ),
{
}

/// Whether a walk through a directory met no error.
pub open spec fn readable(items: Seq<Listed>) -> bool {
    forall|i: int| 0 <= i < items.len() ==> #[trigger] items[i] is Entry
}

/// Whether an entry bears a name of the operating system's.
pub open spec fn metadata_item(item: Listed) -> bool {
    item matches Listed::Entry(facts) && (facts.name matches Some(name) && os_metadata(name@))
}

proof fn lemma_only_os_metadata(items: Seq<Listed>)
    requires
        readable(items),
    ensures
        only_os_metadata(items) == Ok::<bool, String>(
            forall|i: int| 0 <= i < items.len() ==> metadata_item(#[trigger] items[i]),
        ),
    decreases items.len(),
{
    if items.len() > 0 {
        let rest = items.skip(1);
        assert forall|i: int| 0 <= i < rest.len() implies #[trigger] rest[i] is Entry by {
            assert(rest[i] == items[i + 1]);
        }
        lemma_only_os_metadata(rest);
        assert(items[0] is Entry);
        if metadata_item(items[0]) {
            if forall|i: int| 0 <= i < rest.len() ==> metadata_item(#[trigger] rest[i]) {
                assert forall|i: int| 0 <= i < items.len() implies metadata_item(
                    #[trigger] items[i],
                ) by {
                    if i > 0 {
                        assert(metadata_item(rest[i - 1]));
                    }
                }
            }
            if forall|i: int| 0 <= i < items.len() ==> metadata_item(#[trigger] items[i]) {
                assert forall|i: int| 0 <= i < rest.len() implies metadata_item(
                    #[trigger] rest[i],
                ) by {
                    assert(metadata_item(items[i + 1]));
                }
            }
        }
    }
}

/// Law: an entry that bears the name of a directory that startup creates is debris if it is a
/// directory that holds nothing but the operating system's files, and content otherwise.
pub proof fn law_skeletons_are_debris_while_empty(
    lock_file_name: Seq<char>,
    entry: TargetEntry,
    items: Vec<Listed>,
)
    requires
        entry.facts.name matches Some(name) && skeleton_name(name@) && name@ != lock_file_name,
        entry.facts.kind is Ok,
        entry.inside == Listing::Items(items),
        readable(items@),
    ensures
        app_owned_debris(lock_file_name, entry) == Ok::<bool, String>(
            entry.facts.kind->Ok_0 == EntryKind::Dir && forall|i: int|
                0 <= i < items@.len() ==> metadata_item(#[trigger] items@[i]),
        ),
{
    lemma_own_names_are_not_metadata();
    lemma_only_os_metadata(items@);
}

/// Law: every directory that startup creates in a library has a name under which it counts as
/// debris while it is empty.
pub proof fn law_created_directories_are_skeletons(state: StateView, base: PathView, i: int)
    requires
        state.skills_dir_override is None,
        0 <= i < library_dirs(state, base).len(),
    ensures
        exists|name: Seq<char>|
            #[trigger] skeleton_name(name) && library_dirs(state, base)[i] == child_of(base, name),
{
    assert(skeleton_name(SKILLS_DIR_NAME@));
    assert(skeleton_name(SCENARIOS_DIR_NAME@));
    assert(skeleton_name(CACHE_DIR_NAME@));
    assert(skeleton_name(LOGS_DIR_NAME@));
}

/// Whether an entry of the bridge's directory was read and judged to belong there or not.
pub open spec fn judged_bridge_item(item: Listed) -> bool {
    item matches Listed::Entry(facts) && bridge_file(facts) is Ok
}

/// Whether an entry of the bridge's directory is a file of the bridge's or the operating system's.
pub open spec fn bridge_item(item: Listed) -> bool {
    item matches Listed::Entry(facts) && bridge_file(facts) == Ok::<bool, String>(true)
}

/// Law: the bridge's directory never counts as the bridge's alone once it holds something that is
/// neither the bridge's nor the operating system's; it is content as soon as that is found, which
/// it is provided that what comes before it can be judged.
pub proof fn law_foreign_files_block_the_bridge_directory(items: Seq<Listed>, i: int)
    requires
        0 <= i < items.len(),
        judged_bridge_item(items[i]) && !bridge_item(items[i]),
    ensures
        only_bridge_files(items) != Ok::<bool, String>(true),
        (forall|j: int| 0 <= j < i ==> judged_bridge_item(#[trigger] items[j]))
            ==> only_bridge_files(items) == Ok::<bool, String>(false),
    decreases items.len(),
{
    if i > 0 {
        let rest = items.skip(1);
        assert(rest[i - 1] == items[i]);
        law_foreign_files_block_the_bridge_directory(rest, i - 1);
        if forall|j: int| 0 <= j < i ==> judged_bridge_item(#[trigger] items[j]) {
            assert(judged_bridge_item(items[0]));
            assert forall|j: int| 0 <= j < i - 1 implies judged_bridge_item(#[trigger] rest[j]) by {
                assert(rest[j] == items[j + 1]);
            }
        }
    }
}

proof fn lemma_only_bridge_files(items: Seq<Listed>)
    requires
        forall|i: int| 0 <= i < items.len() ==> bridge_item(#[trigger] items[i]),
    ensures
        only_bridge_files(items) == Ok::<bool, String>(true),
    decreases items.len(),
{
    if items.len() > 0 {
        assert(bridge_item(items[0]));
        assert forall|i: int| 0 <= i < items.skip(1).len() implies bridge_item(
            #[trigger] items.skip(1)[i],
        ) by {
            assert(items.skip(1)[i] == items[i + 1]);
        }
        lemma_only_bridge_files(items.skip(1));
    }
}

/// Law: an entry that bears the name of the bridge's directory is debris if it is a directory that
/// holds nothing but the bridge's and the operating system's files, and content otherwise.
pub proof fn law_bridge_directory_is_debris_with_its_own_files(
    lock_file_name: Seq<char>,
    entry: TargetEntry,
    items: Vec<Listed>,
)
    requires
        entry.facts.name matches Some(name) && name@ == CLI_BRIDGE_DIR_NAME@ && name@
            != lock_file_name,
        entry.facts.kind is Ok,
        entry.inside == Listing::Items(items),
        forall|i: int| 0 <= i < items@.len() ==> judged_bridge_item(#[trigger] items@[i]),
    ensures
        app_owned_debris(lock_file_name, entry) == Ok::<bool, String>(
            entry.facts.kind->Ok_0 == EntryKind::Dir && forall|i: int|
                0 <= i < items@.len() ==> bridge_item(#[trigger] items@[i]),
        ),
{
    lemma_own_names_are_not_metadata();
    if forall|i: int| 0 <= i < items@.len() ==> bridge_item(#[trigger] items@[i]) {
        lemma_only_bridge_files(items@);
    } else {
        let i = choose|i: int| 0 <= i < items@.len() && !bridge_item(#[trigger] items@[i]);
        law_foreign_files_block_the_bridge_directory(items@, i);
    }
}

/// Law: a library is offered for adoption only if the destination holds user data and a database
/// that reports at least one skill; a destination counts as empty exactly if it holds no user
/// data.
pub proof fn law_only_libraries_with_skills_are_offered(
    env: EnvironmentView,
    raw: Seq<char>,
    contents: TargetContents,
    lock_file_name: Seq<char>,
    database_is_file: bool,
    rows: Option<i64>,
)
    requires
        normalized(env, raw) is Ok,
        user_data_in(lock_file_name, contents) is Ok,
    ensures
        ({
            let result = inspected(env, raw, contents, lock_file_name, database_is_file, rows);
            let has_data = user_data_in(lock_file_name, contents)->Ok_0;
            &&& result is Ok
            &&& result->Ok_0 is Empty <==> !has_data
            &&& result->Ok_0 is ExistingLibrary <==> has_data && database_is_file
                && reported_skills(rows) is Some && reported_skills(rows)->0 > 0
        }),
{
}

/// Law: the path that an inspection reports can be saved as it is: it stands for the path that was
/// inspected, if that is stored as a text that stands for it.
pub proof fn law_inspected_path_can_be_saved(
    env: EnvironmentView,
    raw: Seq<char>,
    contents: TargetContents,
    lock_file_name: Seq<char>,
    database_is_file: bool,
    rows: Option<i64>,
)
    requires
        normalized(env, raw) is Ok,
        reads_back(env, normalized(env, raw)->Ok_0),
    ensures
        inspected(env, raw, contents, lock_file_name, database_is_file, rows) matches Ok(inspection)
            ==> normalized(
            env,
            match inspection {
                InspectionView::Empty { requested_path } => requested_path,
                InspectionView::ExistingLibrary { requested_path, .. } => requested_path,
                InspectionView::NotEmpty { requested_path } => requested_path,
            },
        ) == normalized(env, raw),
{
}

// ---------------------------------------------------------------------------------------
// What counts as content
// ---------------------------------------------------------------------------------------

/// Law: the names that count as the operating system's are four fixed ones and those that begin
/// with a dot and an underscore.
pub proof fn law_the_system_has_few_names(name: Seq<char>)
    ensures
        os_metadata(name) <==> name == ".DS_Store"@ || name == "desktop.ini"@ || name
            == "Thumbs.db"@ || name == ".localized"@ || (name.len() >= 2 && name[0] == '.'
            && name[1] == '_'),
{
    reveal_strlit("._");
    if name.len() >= 2 {
        let head = name.take(2);
        if name[0] == '.' && name[1] == '_' {
            assert(head =~= "._"@);
        }
        if head == "._"@ {
            assert(head[0] == '.' && head[1] == '_');
            assert(name[0] == head[0] && name[1] == head[1]);
        }
    }
}

/// Law: the directories that count as skeletons are exactly those that startup creates in a
/// library.
pub proof fn law_skeletons_are_what_startup_creates(
    state: StateView,
    base: PathView,
    name: Seq<char>,
)
    requires
        state.skills_dir_override is None,
    ensures
        skeleton_name(name) <==> name == "skills"@ || name == "scenarios"@ || name == "cache"@
            || name == "logs"@,
        skeleton_name(name) ==> exists|i: int|
            0 <= i < library_dirs(state, base).len() && #[trigger] library_dirs(state, base)[i]
                == child_of(base, name),
{
    let dirs = library_dirs(state, base);
    assert(dirs[0] == child_of(base, SKILLS_DIR_NAME@));
    assert(dirs[1] == child_of(base, SCENARIOS_DIR_NAME@));
    assert(dirs[2] == child_of(base, CACHE_DIR_NAME@));
    assert(dirs[3] == child_of(base, LOGS_DIR_NAME@));
}

/// Law: every name that is neither the operating system's nor the app's own is content, whatever
/// kind of thing bears it and whatever lies in it. So is a name that cannot be decoded.
pub proof fn law_every_other_name_is_content(lock_file_name: Seq<char>, entry: TargetEntry)
    ensures
        entry.facts.name is None ==> app_owned_debris(lock_file_name, entry) == Ok::<bool, String>(
            false,
        ),
        entry.facts.kind is Ok ==> (entry.facts.name matches Some(name) ==> (!os_metadata(name@)
            && name@ != lock_file_name && name@ != "skills"@ && name@ != "scenarios"@ && name@
            != "cache"@ && name@ != "logs"@ && name@ != "bin"@ ==> app_owned_debris(
            lock_file_name,
            entry,
        ) == Ok::<bool, String>(false))),
{
}

/// Law: a thing that is no directory is debris only under the operating system's names, or as the
/// lock itself if it is a plain file; links and special files never are.
pub proof fn law_only_directories_are_looked_into(lock_file_name: Seq<char>, entry: TargetEntry)
    requires
        entry.facts.name is Some,
        entry.facts.kind matches Ok(kind) && kind != EntryKind::Dir,
    ensures
        app_owned_debris(lock_file_name, entry) == Ok::<bool, String>(
            os_metadata(entry.facts.name->0@) || (entry.facts.name->0@ == lock_file_name
                && entry.facts.kind->Ok_0 == EntryKind::File),
        ),
{
}

/// Law: the operating system's own things are debris whatever kind they are, even where the kind
/// cannot be told; of anything else whose kind cannot be told nothing is said but the reason.
pub proof fn law_kinds_that_cannot_be_told(lock_file_name: Seq<char>, entry: TargetEntry)
    ensures
        entry.facts.name matches Some(name) ==> {
            &&& os_metadata(name@) ==> app_owned_debris(lock_file_name, entry) == Ok::<
                bool,
                String,
            >(true)
            &&& !os_metadata(name@) ==> (entry.facts.kind matches Err(err) ==> app_owned_debris(
                lock_file_name,
                entry,
            ) == Err::<bool, String>(err))
        },
{
}

/// Law: a directory that could be debris and cannot be opened is not judged, and the reason is
/// handed on.
pub proof fn law_closed_directories_are_not_judged(lock_file_name: Seq<char>, entry: TargetEntry)
    requires
        listing_matters(lock_file_name, entry.facts),
        entry.inside is Failed,
    ensures
        app_owned_debris(lock_file_name, entry) == Err::<bool, String>(entry.inside->Failed_0),
{
}

/// Law: what lies in an entry is asked for if and only if it makes a difference: without it the
/// verdict is the same whatever lies there, and with it a directory that is empty is debris and one
/// that holds something with a name that cannot be decoded is content.
pub proof fn law_listings_are_asked_for_where_they_matter(
    lock_file_name: Seq<char>,
    a: TargetEntry,
    b: TargetEntry,
)
    requires
        a.facts == b.facts,
    ensures
        !listing_matters(lock_file_name, a.facts) ==> app_owned_debris(lock_file_name, a)
            == app_owned_debris(lock_file_name, b),
        listing_matters(lock_file_name, a.facts) ==> {
            &&& (a.inside matches Listing::Items(items) && items@.len() == 0) ==> app_owned_debris(
                lock_file_name,
                a,
            ) == Ok::<bool, String>(true)
            &&& (b.inside matches Listing::Items(items) && items@.len() > 0 && (
            items@[0] matches Listed::Entry(facts) && facts.name is None)) ==> app_owned_debris(
                lock_file_name,
                b,
            ) == Ok::<bool, String>(false)
        },
{
}

/// Law: which entries are looked into: directories that bear the name of a skeleton or of the
/// bridge's directory, unless that name is the operating system's or the lock's.
pub proof fn law_what_is_looked_into(lock_file_name: Seq<char>, facts: EntryFacts)
    ensures
        listing_matters(lock_file_name, facts) <==> (facts.name matches Some(name) && facts.kind
            == Ok::<EntryKind, String>(EntryKind::Dir) && name@ != lock_file_name && (name@
            == "skills"@ || name@ == "scenarios"@ || name@ == "cache"@ || name@ == "logs"@ || name@
            == "bin"@)),
{
    lemma_own_names_are_not_metadata();
}

/// Law: a walk through a skeleton is decided by the first thing in it that is not the operating
/// system's: content if it is an entry, and the reason if it could not be read. Without such a
/// thing the skeleton holds nothing.
pub proof fn law_skeletons_are_decided_by_the_first_find(items: Seq<Listed>, i: int)
    requires
        0 <= i <= items.len(),
        forall|j: int| 0 <= j < i ==> metadata_item(#[trigger] items[j]),
        i < items.len() ==> !metadata_item(items[i]),
    ensures
        i == items.len() ==> only_os_metadata(items) == Ok::<bool, String>(true),
        i < items.len() ==> only_os_metadata(items) == (match items[i] {
            Listed::Failed(err) => Err::<bool, String>(err),
            Listed::Entry(_) => Ok::<bool, String>(false),
        }),
    decreases items.len(),
{
    if i > 0 {
        assert(metadata_item(items[0]));
        let rest = items.skip(1);
        assert forall|j: int| 0 <= j < i - 1 implies metadata_item(#[trigger] rest[j]) by {
            assert(rest[j] == items[j + 1]);
        }
        if i < items.len() {
            assert(rest[i - 1] == items[i]);
        }
        law_skeletons_are_decided_by_the_first_find(rest, i - 1);
    }
}

/// Law: a file of the bridge's directory belongs there if and only if it is a plain file under a
/// name of the bridge's or the operating system's. The kind is asked for only under such a name.
pub proof fn law_what_belongs_to_the_bridge(facts: EntryFacts)
    ensures
        ({
            let known = facts.name is Some && (os_metadata(facts.name->0@) || facts.bridge_owned);
            &&& !known ==> bridge_file(facts) == Ok::<bool, String>(false)
            &&& known ==> (facts.kind matches Ok(kind) ==> bridge_file(facts) == Ok::<bool, String>(
                kind == EntryKind::File,
            ))
            &&& known ==> (facts.kind matches Err(err) ==> bridge_file(facts) == Err::<
                bool,
                String,
            >(err))
        }),
{
}

/// Law: a walk through the bridge's directory is decided by the first thing in it that does not
/// belong there: content if that was found out, and the reason if it could not be.
pub proof fn law_the_bridge_is_decided_by_the_first_find(items: Seq<Listed>, i: int)
    requires
        0 <= i <= items.len(),
        forall|j: int| 0 <= j < i ==> bridge_item(#[trigger] items[j]),
        i < items.len() ==> !bridge_item(items[i]),
    ensures
        i == items.len() ==> only_bridge_files(items) == Ok::<bool, String>(true),
        i < items.len() ==> only_bridge_files(items) == (match items[i] {
            Listed::Failed(err) => Err::<bool, String>(err),
            Listed::Entry(facts) => bridge_file(facts),
        }),
    decreases items.len(),
{
    if i > 0 {
        assert(bridge_item(items[0]));
        let rest = items.skip(1);
        assert forall|j: int| 0 <= j < i - 1 implies bridge_item(#[trigger] rest[j]) by {
            assert(rest[j] == items[j + 1]);
        }
        if i < items.len() {
            assert(rest[i - 1] == items[i]);
        }
        law_the_bridge_is_decided_by_the_first_find(rest, i - 1);
    } else if i < items.len() {
        if let Listed::Entry(facts) = items[0] {
            law_what_belongs_to_the_bridge(facts);
        }
    }
}

/// Whether an item of a destination was judged to be debris.
pub open spec fn debris_item(lock_file_name: Seq<char>, item: TargetItem) -> bool {
    item matches TargetItem::Entry(entry) && app_owned_debris(lock_file_name, entry) == Ok::<
        bool,
        String,
    >(true)
}

/// Law: a walk through a destination is decided by the first thing in it that is not debris: it
/// holds user data if that was found out, and the reason is handed on if it could not be. A
/// destination with debris alone holds none.
pub proof fn law_destinations_are_decided_by_the_first_find(
    lock_file_name: Seq<char>,
    items: Seq<TargetItem>,
    i: int,
)
    requires
        0 <= i <= items.len(),
        forall|j: int| 0 <= j < i ==> debris_item(lock_file_name, #[trigger] items[j]),
        i < items.len() ==> !debris_item(lock_file_name, items[i]),
    ensures
        i == items.len() ==> holds_user_data(lock_file_name, items) == Ok::<bool, String>(false),
        i < items.len() ==> holds_user_data(lock_file_name, items) == (match items[i] {
            TargetItem::Failed(err) => Err::<bool, String>(err),
            TargetItem::Entry(entry) => match app_owned_debris(lock_file_name, entry) {
                Ok(_) => Ok::<bool, String>(true),
                Err(err) => Err::<bool, String>(err),
            },
        }),
    decreases items.len(),
{
    if i > 0 {
        assert(debris_item(lock_file_name, items[0]));
        let rest = items.skip(1);
        assert forall|j: int| 0 <= j < i - 1 implies debris_item(
            lock_file_name,
            #[trigger] rest[j],
        ) by {
            assert(rest[j] == items[j + 1]);
        }
        if i < items.len() {
            assert(rest[i - 1] == items[i]);
        }
        law_destinations_are_decided_by_the_first_find(lock_file_name, rest, i - 1);
    }
}

/// Law: a destination that cannot be listed is not judged, and one with entries is judged by them.
pub proof fn law_destinations_are_judged_by_what_was_seen(
    lock_file_name: Seq<char>,
    contents: TargetContents,
)
    ensures
        match contents {
            TargetContents::Absent => user_data_in(lock_file_name, contents) == Ok::<bool, String>(
                false,
            ),
            TargetContents::Unlistable(err) => user_data_in(lock_file_name, contents) == Err::<
                bool,
                String,
            >(err),
            TargetContents::Items(items) => user_data_in(lock_file_name, contents)
                == holds_user_data(lock_file_name, items@),
        },
{
}

/// Law: a destination that holds one thing under a name of the user's own, in whatever company of
/// debris, is never offered as empty; neither is a move made into it.
pub proof fn law_the_users_things_are_in_the_way(
    env: EnvironmentView,
    raw: Seq<char>,
    items: Vec<TargetItem>,
    i: int,
    lock_file_name: Seq<char>,
    database_is_file: bool,
    rows: Option<i64>,
)
    requires
        0 <= i < items@.len(),
        items@[i] matches TargetItem::Entry(entry) && entry.facts.kind is Ok && (
        entry.facts.name matches Some(name) && !os_metadata(name@) && name@ != lock_file_name
            && name@ != "skills"@ && name@ != "scenarios"@ && name@ != "cache"@ && name@ != "logs"@
            && name@ != "bin"@),
    ensures
        user_data_in(lock_file_name, TargetContents::Items(items)) != Ok::<bool, String>(false),
        inspected(
            env,
            raw,
            TargetContents::Items(items),
            lock_file_name,
            database_is_file,
            rows,
        ) matches Ok(inspection) ==> !(inspection is Empty),
{
    if let TargetItem::Entry(entry) = items@[i] {
        law_every_other_name_is_content(lock_file_name, entry);
    }
    law_content_is_never_overlooked(lock_file_name, items@, i);
}

// ---------------------------------------------------------------------------------------
// What a destination is called
// ---------------------------------------------------------------------------------------

/// Law: a count of skills is known if and only if the database gave one; a count below zero is
/// none, and any other is what the database said, as far as numbers here go.
pub proof fn law_counts_are_what_the_database_said(rows: Option<i64>)
    ensures
        rows is None <==> reported_skills(rows) is None,
        rows matches Some(count) ==> {
            &&& count <= 0 ==> reported_skills(rows) == Some(0usize)
            &&& 0 <= count <= usize::MAX ==> reported_skills(rows) is Some && reported_skills(
                rows,
            )->0 == count
        },
{
}

/// Law: a destination cannot be classified if and only if its path cannot be used or it cannot be
/// looked at, and the reason is that. Otherwise it is called by the path that it was asked for:
/// empty if it holds nothing that the user would miss, a library if its database is a file that
/// reports skills, with their number, and somebody's data in all other cases.
pub proof fn law_destinations_are_called_what_they_are(
    env: EnvironmentView,
    raw: Seq<char>,
    contents: TargetContents,
    lock_file_name: Seq<char>,
    database_is_file: bool,
    rows: Option<i64>,
)
    ensures
        ({
            let result = inspected(env, raw, contents, lock_file_name, database_is_file, rows);
            match normalized(env, raw) {
                Err(err) => result == Err::<InspectionView, InspectError>(InspectError::Path(err)),
                Ok(path) => {
                    let requested_path = text_of(env.platform, path);
                    match user_data_in(lock_file_name, contents) {
                        Err(err) => result == Err::<InspectionView, InspectError>(
                            InspectError::Unreadable(err),
                        ),
                        Ok(has_data) => {
                            let adoptable = has_data && database_is_file && reported_skills(
                                rows,
                            ) is Some && reported_skills(rows)->0 > 0;
                            &&& !has_data <==> result == Ok::<InspectionView, InspectError>(
                                InspectionView::Empty { requested_path },
                            )
                            &&& adoptable <==> result == Ok::<InspectionView, InspectError>(
                                InspectionView::ExistingLibrary {
                                    requested_path,
                                    skill_count: reported_skills(rows)->0,
                                },
                            )
                            &&& has_data && !adoptable <==> result == Ok::<
                                InspectionView,
                                InspectError,
                            >(InspectionView::NotEmpty { requested_path })
                        },
                    }
                },
            }
        }),
{
}

} // verus!
