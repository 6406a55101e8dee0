//! Paths as sequences of components.
//!
//! A path is read from text once and is a list of components from then on: every rule of the
//! library compares, extends and shortens paths by whole components. A name that is not Unicode
//! is a component like any other. Text is written back only to be stored or shown.

use vstd::prelude::*;
use vstd::string::*;
use vstd::utf8::encode_utf8;

use crate::os_text::{
    byte_pieces, byte_views, bytes_behind, bytes_between, decodable, naming_bytes, naming_pieces,
    same_bytes, without_head, OsText, OsTextView,
};
use crate::text::{chars_of, same_text, text_between};

verus! {

/// The family of operating systems that the library runs on.
#[derive(Debug, Clone, Copy, PartialEq, Eq, Structural)]
pub enum Platform {
    MacOs,
    Windows,
    /// Everything else; paths are written as on Linux.
    Other,
}

/// One component of a path.
#[derive(Debug, PartialEq, Eq)]
pub enum PathComponent {
    /// A drive or share, such as `C:` or `\\server\share`. Windows only.
    Prefix(String),
    RootDir,
    /// A `.` that stands at the beginning of a relative path.
    CurDir,
    /// A `..`.
    ParentDir,
    Normal(String),
    /// A name that is not Unicode: how it is shown, and what it is.
    Foreign { shown: String, bytes: Vec<u8> },
}

/// The value of a [`PathComponent`].
pub enum Component {
    Prefix(Seq<char>),
    RootDir,
    CurDir,
    ParentDir,
    Normal(Seq<char>),
    Foreign { shown: Seq<char>, bytes: Seq<u8> },
}

/// The value of a path: its components, outermost first.
pub type PathView = Seq<Component>;

impl View for PathComponent {
    type V = Component;

    open spec fn view(&self) -> Component {
        match self {
            PathComponent::Prefix(name) => Component::Prefix(name@),
            PathComponent::RootDir => Component::RootDir,
            PathComponent::CurDir => Component::CurDir,
            PathComponent::ParentDir => Component::ParentDir,
            PathComponent::Normal(name) => Component::Normal(name@),
            PathComponent::Foreign { shown, bytes } => Component::Foreign {
                shown: shown@,
                bytes: bytes@,
            },
        }
    }
}

impl Clone for PathComponent {
    fn clone(&self) -> (r: Self)
        ensures
            r@ == self@,
    {
        match self {
            PathComponent::Prefix(name) => PathComponent::Prefix(name.clone()),
            PathComponent::RootDir => PathComponent::RootDir,
            PathComponent::CurDir => PathComponent::CurDir,
            PathComponent::ParentDir => PathComponent::ParentDir,
            PathComponent::Normal(name) => PathComponent::Normal(name.clone()),
            PathComponent::Foreign { shown, bytes } => {
                let copied = bytes_between(bytes, 0, bytes.len());
                assert(copied@ =~= bytes@);
                PathComponent::Foreign { shown: shown.clone(), bytes: copied }
            },
        }
    }
}

/// A path, held as its components.
#[derive(Debug, PartialEq, Eq)]
pub struct RepoPath {
    pub components: Vec<PathComponent>,
}

/// The values of a list of components.
pub open spec fn component_views(components: Seq<PathComponent>) -> PathView {
    Seq::new(components.len(), |i: int| components[i]@)
}

impl View for RepoPath {
    type V = PathView;

    open spec fn view(&self) -> PathView {
        component_views(self.components@)
    }
}

/// The value of an optional path.
pub open spec fn path_opt(path: Option<RepoPath>) -> Option<PathView> {
    match path {
        Some(p) => Some(p@),
        None => None,
    }
}

/// The value of an optional reference to a path.
pub open spec fn path_ref(path: Option<&RepoPath>) -> Option<PathView> {
    match path {
        Some(p) => Some(p@),
        None => None,
    }
}

// ---------------------------------------------------------------------------------------
// Reading text
// ---------------------------------------------------------------------------------------

/// Which characters separate components, and whether a `.` between them is kept.
#[derive(Debug, Clone, Copy, PartialEq, Eq, Structural)]
pub enum Syntax {
    /// `/` alone.
    Slash,
    /// `/` and `\`.
    Both,
    /// `\` alone, as behind `\\?\`, where a `.` is a component of its own.
    Verbatim,
}

/// Whether `c` separates components under `syntax`.
pub open spec fn separates(syntax: Syntax, c: char) -> bool {
    match syntax {
        Syntax::Slash => c == '/',
        Syntax::Both => c == '/' || c == '\\',
        Syntax::Verbatim => c == '\\',
    }
}

/// The index of the first separator in `text` at or behind `from`, or the length of `text`.
pub open spec fn piece_end(syntax: Syntax, text: Seq<char>, from: int) -> int
    decreases text.len() - from,
{
    if from >= text.len() {
        text.len() as int
    } else if separates(syntax, text[from]) {
        from
    } else {
        piece_end(syntax, text, from + 1)
    }
}

/// `text` cut at every separator.
pub open spec fn pieces(syntax: Syntax, text: Seq<char>) -> Seq<Seq<char>>
    decreases text.len(),
{
    if text.len() == 0 {
        seq![Seq::<char>::empty()]
    } else {
        let before = pieces(syntax, text.drop_last());
        if separates(syntax, text.last()) {
            before.push(Seq::<char>::empty())
        } else {
            before.drop_last().push(before.last().push(text.last()))
        }
    }
}

/// What one piece between separators contributes: nothing if it is empty, and nothing for a
/// `.` unless the syntax keeps it.
pub open spec fn piece_components(syntax: Syntax, piece: Seq<char>) -> PathView {
    if piece.len() == 0 {
        seq![]
    } else if piece == seq!['.'] {
        if syntax == Syntax::Verbatim {
            seq![Component::CurDir]
        } else {
            seq![]
        }
    } else if piece == seq!['.', '.'] {
        seq![Component::ParentDir]
    } else {
        seq![Component::Normal(piece)]
    }
}

/// What a list of pieces contributes, in order.
pub open spec fn named_components(syntax: Syntax, list: Seq<Seq<char>>) -> PathView
    decreases list.len(),
{
    if list.len() == 0 {
        seq![]
    } else {
        named_components(syntax, list.drop_last()) + piece_components(syntax, list.last())
    }
}

/// Whether a drive such as `C:` is written at index `at`.
pub open spec fn drive_at(text: Seq<char>, at: int) -> bool {
    &&& at + 1 < text.len()
    &&& ('a' <= text[at] <= 'z' || 'A' <= text[at] <= 'Z')
    &&& text[at + 1] == ':'
}

/// Whether `text` begins with `\\?\`.
pub open spec fn verbatim_text(text: Seq<char>) -> bool {
    text.len() >= 4 && text[0] == '\\' && text[1] == '\\' && text[2] == '?' && text[3] == '\\'
}

/// Whether `text`, which is verbatim, names a server, as in `\\?\UNC\server\share`.
pub open spec fn verbatim_server(text: Seq<char>) -> bool {
    text.len() >= 8 && text[4] == 'U' && text[5] == 'N' && text[6] == 'C' && separates(
        Syntax::Both,
        text[7],
    )
}

/// The number of characters of the Windows prefix that `text` begins with: a drive (`C:`), a
/// share (`\\server\share`), a device (`\\.\name`), or one of the verbatim forms
/// (`\\?\name`, `\\?\C:`, `\\?\UNC\server\share`). Zero if there is none.
pub open spec fn windows_prefix_len(text: Seq<char>) -> int {
    let len = text.len() as int;
    if len >= 2 && separates(Syntax::Both, text[0]) && separates(Syntax::Both, text[1]) {
        if verbatim_text(text) {
            if verbatim_server(text) {
                let server = piece_end(Syntax::Verbatim, text, 8);
                let share = piece_end(Syntax::Verbatim, text, server + 1);
                if share > server + 1 {
                    share
                } else {
                    server
                }
            } else if drive_at(text, 4) && (len == 6 || separates(Syntax::Both, text[6])) {
                6
            } else {
                piece_end(Syntax::Verbatim, text, 4)
            }
        } else if len >= 4 && text[2] == '.' && separates(Syntax::Both, text[3]) {
            piece_end(Syntax::Both, text, 4)
        } else {
            let server = piece_end(Syntax::Both, text, 2);
            let share = piece_end(Syntax::Both, text, server + 1);
            if server > 2 && share > server + 1 {
                share
            } else {
                0
            }
        }
    } else if drive_at(text, 0) {
        2
    } else {
        0
    }
}

/// The number of characters of the prefix that `text` begins with.
pub open spec fn prefix_len(platform: Platform, text: Seq<char>) -> int {
    if platform == Platform::Windows {
        windows_prefix_len(text)
    } else {
        0
    }
}

/// The syntax of the part of `text` behind its prefix.
pub open spec fn syntax_of(platform: Platform, text: Seq<char>) -> Syntax {
    if platform != Platform::Windows {
        Syntax::Slash
    } else if verbatim_text(text) {
        Syntax::Verbatim
    } else {
        Syntax::Both
    }
}

/// The separators that may stand for the root on `platform`.
pub open spec fn root_syntax(platform: Platform) -> Syntax {
    if platform == Platform::Windows {
        Syntax::Both
    } else {
        Syntax::Slash
    }
}

/// Whether a root is written in `rest`, the text behind the prefix.
pub open spec fn rooted(platform: Platform, rest: Seq<char>) -> bool {
    rest.len() > 0 && separates(root_syntax(platform), rest[0])
}

/// Whether `rest` begins with a `.` that is a piece of its own.
pub open spec fn leading_dot(syntax: Syntax, rest: Seq<char>) -> bool {
    rest.len() > 0 && rest[0] == '.' && (rest.len() == 1 || separates(syntax, rest[1]))
}

/// The components that `text` names. Repeated and trailing separators and every `.` behind
/// the first place are dropped; a `..` is kept.
pub open spec fn components_of(platform: Platform, text: Seq<char>) -> PathView {
    let cut = prefix_len(platform, text);
    let rest = text.skip(cut);
    let syntax = syntax_of(platform, text);
    let prefix: PathView = if cut > 0 {
        seq![Component::Prefix(text.take(cut))]
    } else {
        seq![]
    };
    if rooted(platform, rest) {
        prefix + seq![Component::RootDir] + named_components(syntax, pieces(syntax, rest.skip(1)))
    } else if cut > 0 && syntax != Syntax::Verbatim && separates(Syntax::Both, text[0]) {
        prefix + seq![Component::RootDir] + named_components(syntax, pieces(syntax, rest))
    } else if cut == 0 && leading_dot(syntax, rest) {
        seq![Component::CurDir] + named_components(syntax, pieces(syntax, rest))
    } else {
        prefix + named_components(syntax, pieces(syntax, rest))
    }
}

/// The component that the name of an entry makes.
pub open spec fn name_component(name: OsTextView) -> Component {
    if decodable(name) {
        Component::Normal(name.shown)
    } else {
        Component::Foreign { shown: name.shown, bytes: name.bytes }
    }
}

/// Component `i` of `path`, given what its names are: the last component belongs to the last name,
/// and so on towards the front.
pub open spec fn marked_component(path: PathView, names: Seq<Seq<u8>>, i: int) -> Component {
    let at = names.len() - (path.len() - i);
    match path[i] {
        Component::Normal(shown) => if at >= 0 {
            name_component(OsTextView { shown, bytes: names[at] })
        } else {
            path[i]
        },
        other => other,
    }
}

/// How the prefix of a path is encoded; nothing where there is none.
pub open spec fn prefix_bytes(path: PathView) -> Seq<u8> {
    if path.len() > 0 {
        match path[0] {
            Component::Prefix(name) => encode_utf8(name),
            _ => seq![],
        }
    } else {
        seq![]
    }
}

/// What the names of a text of the system are, which is shown as `path`.
pub open spec fn os_names(platform: Platform, text: OsTextView, path: PathView) -> Seq<Seq<u8>> {
    let syntax = syntax_of(platform, text.shown);
    naming_pieces(syntax, byte_pieces(syntax, bytes_behind(text.bytes, prefix_bytes(path))))
}

/// The components that a text of the system names. Where the text is not Unicode, each name that
/// is not is told apart by its bytes.
pub open spec fn os_components(platform: Platform, text: OsTextView) -> PathView {
    let path = components_of(platform, text.shown);
    if decodable(text) {
        path
    } else {
        let names = os_names(platform, text, path);
        Seq::new(path.len(), |i: int| marked_component(path, names, i))
    }
}

// ---------------------------------------------------------------------------------------
// Writing text
// ---------------------------------------------------------------------------------------

/// The separator that paths are written with.
pub open spec fn main_separator(platform: Platform) -> char {
    if platform == Platform::Windows {
        '\\'
    } else {
        '/'
    }
}

/// Whether `c` is the name of an entry.
pub open spec fn is_name(c: Component) -> bool {
    c is Normal || c is Foreign
}

/// Whether a separator stands between `c` and a name behind it.
pub open spec fn takes_separator(c: Component) -> bool {
    c is CurDir || c is ParentDir || is_name(c)
}

/// Whether `name` is a plain drive, such as `C:`.
pub open spec fn plain_drive(name: Seq<char>) -> bool {
    name.len() == 2 && drive_at(name, 0)
}

/// Whether a separator is written between `a` and `b`. Behind a prefix that is no plain drive a
/// name takes one; behind `C:` it does not, since `C:name` and `C:\name` are different paths.
pub open spec fn gap_between(a: Component, b: Component) -> bool {
    takes_separator(b) && (takes_separator(a) || (a matches Component::Prefix(name)
        && !plain_drive(name)))
}

/// How one component is written.
pub open spec fn component_text(platform: Platform, c: Component) -> Seq<char> {
    match c {
        Component::Prefix(name) => name,
        Component::RootDir => seq![main_separator(platform)],
        Component::CurDir => seq!['.'],
        Component::ParentDir => seq!['.', '.'],
        Component::Normal(name) => name,
        Component::Foreign { shown, .. } => shown,
    }
}

/// How a path is written: its components, with a separator where one is due.
pub open spec fn text_of(platform: Platform, path: PathView) -> Seq<char>
    decreases path.len(),
{
    if path.len() == 0 {
        seq![]
    } else {
        let before = path.drop_last();
        let gap: Seq<char> = if before.len() > 0 && gap_between(before.last(), path.last()) {
            seq![main_separator(platform)]
        } else {
            seq![]
        };
        text_of(platform, before) + gap + component_text(platform, path.last())
    }
}

// ---------------------------------------------------------------------------------------
// Operations on components
// ---------------------------------------------------------------------------------------

/// Whether the text of `path` implies a root that `path` does not hold: a prefix that is no plain
/// drive is separated from a name behind it, and that separator is a root.
pub open spec fn implies_root(path: PathView) -> bool {
    path.len() > 1 && path[0] is Prefix && gap_between(path[0], path[1])
}

/// `path` with the root that its text implies.
pub open spec fn with_implied_root(path: PathView) -> PathView {
    if implies_root(path) {
        seq![path[0], Component::RootDir] + path.skip(1)
    } else {
        path
    }
}

/// `path` with the name `name` behind it.
pub open spec fn child_of(path: PathView, name: Seq<char>) -> PathView {
    with_implied_root(path.push(Component::Normal(name)))
}

/// The entry `name` of the directory `path`.
pub open spec fn entry_of(path: PathView, name: OsTextView) -> PathView {
    with_implied_root(path.push(name_component(name)))
}

/// The upper-case form of an ASCII letter; any other character as it is.
pub open spec fn upper_letter(c: char) -> char {
    if 'a' <= c <= 'z' {
        (c as int - 32) as char
    } else {
        c
    }
}

/// What character `i` of a prefix says: the letter of a drive in upper case, and `\` for
/// either separator.
pub open spec fn prefix_key_char(name: Seq<char>, i: int) -> char {
    if verbatim_text(name) {
        if i == 4 && name.len() == 6 && drive_at(name, 4) {
            upper_letter(name[i])
        } else if i == 7 && verbatim_server(name) {
            '\\'
        } else {
            name[i]
        }
    } else if i == 0 && drive_at(name, 0) {
        upper_letter(name[i])
    } else if name[i] == '/' {
        '\\'
    } else {
        name[i]
    }
}

/// What a prefix says, however it is written: `c:` is `C:`.
pub open spec fn prefix_key(name: Seq<char>) -> Seq<char> {
    Seq::new(name.len(), |i: int| prefix_key_char(name, i))
}

/// Whether two components are the same. Prefixes are compared by what they say.
pub open spec fn same_component(a: Component, b: Component) -> bool {
    match (a, b) {
        (Component::Prefix(x), Component::Prefix(y)) => verbatim_text(x) == verbatim_text(y)
            && prefix_key(x) == prefix_key(y),
        _ => a == b,
    }
}

/// Whether two paths have the same components.
pub open spec fn same_path(a: PathView, b: PathView) -> bool {
    a.len() == b.len() && forall|i: int| 0 <= i < a.len() ==> #[trigger] same_component(a[i], b[i])
}

/// Whether `path` begins with all the components of `base`.
pub open spec fn path_starts_with(path: PathView, base: PathView) -> bool {
    base.len() <= path.len() && same_path(path.take(base.len() as int), base)
}

/// Whether `path` leads to a fixed place, whatever the current directory is.
pub open spec fn absolute(platform: Platform, path: PathView) -> bool {
    if platform == Platform::Windows {
        &&& path.len() > 0
        &&& path[0] matches Component::Prefix(name)
        &&& (path.len() > 1 && path[1] is RootDir) || (name.len() > 0 && separates(
            Syntax::Both,
            name[0],
        ))
    } else {
        path.len() > 0 && path[0] is RootDir
    }
}

/// The path without its last component; none for the empty path, a root or a prefix.
pub open spec fn parent_of(path: PathView) -> Option<PathView> {
    if path.len() > 0 && takes_separator(path.last()) {
        Some(path.drop_last())
    } else {
        None
    }
}

/// The last component, if it is a name and Unicode.
pub open spec fn file_name_of(path: PathView) -> Option<Seq<char>> {
    if path.len() > 0 {
        match path.last() {
            Component::Normal(name) => Some(name),
            _ => None,
        }
    } else {
        None
    }
}

/// Take one component into a path that holds no `.` and no `..`: a `..` takes the last name
/// away, and does nothing above the root.
pub open spec fn collapse_step(path: PathView, c: Component) -> PathView {
    match c {
        Component::CurDir => path,
        Component::ParentDir => if path.len() > 0 && is_name(path.last()) {
            path.drop_last()
        } else {
            path
        },
        other => path.push(other),
    }
}

/// Take the components of `tail` into `path`, one by one.
pub open spec fn collapse_onto(path: PathView, tail: PathView) -> PathView
    decreases tail.len(),
{
    if tail.len() == 0 {
        path
    } else {
        collapse_step(collapse_onto(path, tail.drop_last()), tail.last())
    }
}

/// `path` with every `.` and `..` carried out.
pub open spec fn collapse(path: PathView) -> PathView {
    collapse_onto(seq![], path)
}

/// Take one component into a lexically normalized path: a `..` cancels a name, vanishes
/// behind a root or a prefix, and is kept otherwise.
pub open spec fn lexical_step(path: PathView, c: Component) -> PathView {
    match c {
        Component::CurDir => path,
        Component::ParentDir => if path.len() > 0 && is_name(path.last()) {
            path.drop_last()
        } else if path.len() > 0 && (path.last() is RootDir || path.last() is Prefix) {
            path
        } else {
            path.push(c)
        },
        other => path.push(other),
    }
}

/// `path` with `.` and `..` resolved as far as the text of the path allows.
pub open spec fn lexical(path: PathView) -> PathView
    decreases path.len(),
{
    if path.len() == 0 {
        seq![]
    } else {
        lexical_step(lexical(path.drop_last()), path.last())
    }
}

/// Whether `path` begins with a `\\?\` prefix.
pub open spec fn verbatim(path: PathView) -> bool {
    path.len() > 0 && (path[0] matches Component::Prefix(name) && verbatim_text(name))
}

/// `tail` without a `.` at its beginning.
pub open spec fn without_leading_dot(tail: PathView) -> PathView {
    if tail.len() > 0 && tail[0] is CurDir {
        tail.skip(1)
    } else {
        tail
    }
}

/// `tail` attached to `path`. A `tail` with a prefix replaces the path; one with a root
/// replaces everything but the prefix; behind a verbatim prefix `.` and `..` are carried
/// out; anything else is appended.
pub open spec fn attached(platform: Platform, path: PathView, tail: PathView) -> PathView {
    if platform == Platform::Windows && tail.len() > 0 && tail[0] is Prefix {
        tail
    } else if platform == Platform::Windows && verbatim(path) && tail.len() > 0 {
        collapse_onto(
            if tail[0] is RootDir {
                path.take(1)
            } else {
                path
            },
            tail,
        )
    } else if tail.len() > 0 && tail[0] is RootDir {
        if platform == Platform::Windows && path.len() > 0 && path[0] is Prefix {
            path.take(1) + tail
        } else {
            tail
        }
    } else if path.len() == 0 {
        tail
    } else {
        path + without_leading_dot(tail)
    }
}

/// `tail` as seen from `path`.
pub open spec fn joined(platform: Platform, path: PathView, tail: PathView) -> PathView {
    with_implied_root(attached(platform, path, tail))
}

// ---------------------------------------------------------------------------------------
// The operations themselves
// ---------------------------------------------------------------------------------------

fn is_separator(syntax: Syntax, c: char) -> (r: bool)
    ensures
        r == separates(syntax, c),
{
    match syntax {
        Syntax::Slash => c == '/',
        Syntax::Both => c == '/' || c == '\\',
        Syntax::Verbatim => c == '\\',
    }
}

/// `piece_end` lies between its starting point and the end of the text.
pub proof fn lemma_piece_end_bounds(syntax: Syntax, text: Seq<char>, from: int)
    requires
        0 <= from,
    ensures
        from <= text.len() ==> from <= piece_end(syntax, text, from) <= text.len(),
        from > text.len() ==> piece_end(syntax, text, from) == text.len(),
    decreases text.len() - from,
{
    if from < text.len() && !separates(syntax, text[from]) {
        lemma_piece_end_bounds(syntax, text, from + 1);
    }
}

fn find_piece_end(syntax: Syntax, text: &Vec<char>, from: usize) -> (r: usize)
    ensures
        r == piece_end(syntax, text@, from as int),
{
    let mut i: usize = from;
    while i < text.len() && !is_separator(syntax, text[i])
        invariant
            piece_end(syntax, text@, from as int) == piece_end(syntax, text@, i as int),
        decreases text@.len() - i,
    {
        i = i + 1;
    }
    if i > text.len() {
        text.len()
    } else {
        i
    }
}

/// Whether a drive such as `C:` is written at index `at`.
pub fn has_drive_at(text: &Vec<char>, at: usize) -> (r: bool)
    requires
        at < usize::MAX,
    ensures
        r == drive_at(text@, at as int),
{
    at + 1 < text.len() && (('a' <= text[at] && text[at] <= 'z') || ('A' <= text[at] && text[at]
        <= 'Z')) && text[at + 1] == ':'
}

fn is_verbatim_text(text: &Vec<char>) -> (r: bool)
    ensures
        r == verbatim_text(text@),
{
    text.len() >= 4 && text[0] == '\\' && text[1] == '\\' && text[2] == '?' && text[3] == '\\'
}

/// The prefix of a text lies within the text.
pub proof fn lemma_prefix_len_bounds(platform: Platform, text: Seq<char>)
    ensures
        0 <= prefix_len(platform, text) <= text.len(),
{
    let server = piece_end(Syntax::Verbatim, text, 8);
    lemma_piece_end_bounds(Syntax::Verbatim, text, 8);
    lemma_piece_end_bounds(Syntax::Verbatim, text, server + 1);
    lemma_piece_end_bounds(Syntax::Verbatim, text, 4);
    lemma_piece_end_bounds(Syntax::Both, text, 4);
    let host = piece_end(Syntax::Both, text, 2);
    lemma_piece_end_bounds(Syntax::Both, text, 2);
    lemma_piece_end_bounds(Syntax::Both, text, host + 1);
}

fn find_windows_prefix_len(text: &Vec<char>) -> (r: usize)
    ensures
        r == windows_prefix_len(text@),
{
    let len = text.len();
    proof {
        lemma_piece_end_bounds(Syntax::Verbatim, text@, 8);
        lemma_piece_end_bounds(Syntax::Both, text@, 2);
    }
    if len >= 2 && is_separator(Syntax::Both, text[0]) && is_separator(Syntax::Both, text[1]) {
        if is_verbatim_text(text) {
            if len >= 8 && text[4] == 'U' && text[5] == 'N' && text[6] == 'C' && is_separator(
                Syntax::Both,
                text[7],
            ) {
                let server = find_piece_end(Syntax::Verbatim, text, 8);
                if server == len {
                    proof {
                        lemma_piece_end_bounds(Syntax::Verbatim, text@, server + 1);
                    }
                    return server;
                }
                let share = find_piece_end(Syntax::Verbatim, text, server + 1);
                if share > server + 1 {
                    share
                } else {
                    server
                }
            } else if has_drive_at(text, 4) && (len == 6 || is_separator(Syntax::Both, text[6])) {
                6
            } else {
                find_piece_end(Syntax::Verbatim, text, 4)
            }
        } else if len >= 4 && text[2] == '.' && is_separator(Syntax::Both, text[3]) {
            find_piece_end(Syntax::Both, text, 4)
        } else {
            let server = find_piece_end(Syntax::Both, text, 2);
            if server == len {
                proof {
                    lemma_piece_end_bounds(Syntax::Both, text@, server + 1);
                }
                return 0;
            }
            let share = find_piece_end(Syntax::Both, text, server + 1);
            if server > 2 && share > server + 1 {
                share
            } else {
                0
            }
        }
    } else if has_drive_at(text, 0) {
        2
    } else {
        0
    }
}

/// Append what the piece `from..to` of `text` contributes.
fn push_piece(
    components: &mut Vec<PathComponent>,
    syntax: Syntax,
    text: &Vec<char>,
    from: usize,
    to: usize,
)
    requires
        from <= to <= text@.len(),
    ensures
        component_views(final(components)@) == component_views(old(components)@)
            + piece_components(syntax, text@.subrange(from as int, to as int)),
{
    let ghost piece = text@.subrange(from as int, to as int);
    if from == to {
        assert(component_views(components@) =~= component_views(old(components)@)
            + piece_components(syntax, piece));
        return ;
    }
    let single_dot = to - from == 1 && text[from] == '.';
    let double_dot = to - from == 2 && text[from] == '.' && text[from + 1] == '.';
    proof {
        if single_dot {
            assert(piece =~= seq!['.']);
        }
        if double_dot {
            assert(piece =~= seq!['.', '.']);
        }
        if piece == seq!['.'] {
            assert(piece[0] == '.');
        }
        if piece == seq!['.', '.'] {
            assert(piece[0] == '.' && piece[1] == '.');
        }
    }
    if single_dot {
        if let Syntax::Verbatim = syntax {
            components.push(PathComponent::CurDir);
        }
    } else if double_dot {
        components.push(PathComponent::ParentDir);
    } else {
        components.push(PathComponent::Normal(text_between(text, from, to)));
    }
    assert(component_views(components@) =~= component_views(old(components)@) + piece_components(
        syntax,
        piece,
    ));
}

/// Append what `text` contributes from index `start` on.
fn push_names(
    components: &mut Vec<PathComponent>,
    syntax: Syntax,
    text: &Vec<char>,
    start: usize,
)
    requires
        start <= text@.len(),
    ensures
        component_views(final(components)@) == component_views(old(components)@)
            + named_components(syntax, pieces(syntax, text@.skip(start as int))),
{
    let ghost before = component_views(components@);
    let ghost mut cut: Seq<Seq<char>> = seq![Seq::<char>::empty()];
    let mut from: usize = start;
    let mut i: usize = start;
    proof {
        assert(text@.subrange(start as int, start as int) =~= Seq::<char>::empty());
        assert(cut.drop_last() =~= Seq::<Seq<char>>::empty());
        assert(before =~= before + named_components(syntax, cut.drop_last()));
    }
    while i < text.len()
        invariant
            start <= from <= i <= text@.len(),
            cut.len() > 0,
            cut == pieces(syntax, text@.subrange(start as int, i as int)),
            cut.last() == text@.subrange(from as int, i as int),
            component_views(components@) == before + named_components(syntax, cut.drop_last()),
        decreases text@.len() - i,
    {
        let ghost next = text@.subrange(start as int, i + 1);
        assert(next.drop_last() =~= text@.subrange(start as int, i as int));
        if is_separator(syntax, text[i]) {
            push_piece(components, syntax, text, from, i);
            proof {
                let grown = cut.push(Seq::<char>::empty());
                assert(grown.drop_last() =~= cut);
                assert(component_views(components@) =~= before + named_components(syntax, cut));
                assert(text@.subrange(i + 1, i + 1) =~= Seq::<char>::empty());
                cut = grown;
            }
            from = i + 1;
        } else {
            proof {
                let grown = cut.drop_last().push(cut.last().push(text@[i as int]));
                assert(grown.drop_last() =~= cut.drop_last());
                assert(text@.subrange(from as int, i + 1) =~= text@.subrange(
                    from as int,
                    i as int,
                ).push(text@[i as int]));
                cut = grown;
            }
        }
        i = i + 1;
    }
    push_piece(components, syntax, text, from, i);
    assert(text@.subrange(start as int, i as int) =~= text@.skip(start as int));
    assert(component_views(components@) =~= before + named_components(syntax, cut));
}

fn key_char(name: &Vec<char>, i: usize) -> (r: char)
    requires
        i < name@.len(),
    ensures
        r == prefix_key_char(name@, i as int),
{
    let c = name[i];
    let drive_letter = if is_verbatim_text(name) {
        i == 4 && name.len() == 6 && has_drive_at(name, 4)
    } else {
        i == 0 && has_drive_at(name, 0)
    };
    if drive_letter && 'a' <= c && c <= 'z' {
        return (c as u8 - 32) as char;
    }
    let separator = if is_verbatim_text(name) {
        i == 7 && name[4] == 'U' && name[5] == 'N' && name[6] == 'C' && is_separator(
            Syntax::Both,
            c,
        )
    } else {
        !drive_letter && c == '/'
    };
    if separator {
        '\\'
    } else {
        c
    }
}

fn prefixes_match(a: &str, b: &str) -> (r: bool)
    ensures
        r == (verbatim_text(a@) == verbatim_text(b@) && prefix_key(a@) == prefix_key(b@)),
{
    let x = chars_of(a);
    let y = chars_of(b);
    if is_verbatim_text(&x) != is_verbatim_text(&y) {
        return false;
    }
    if x.len() != y.len() {
        assert(prefix_key(a@).len() != prefix_key(b@).len());
        return false;
    }
    for i in 0..x.len()
        invariant
            x@ == a@,
            y@ == b@,
            x@.len() == y@.len(),
            verbatim_text(a@) == verbatim_text(b@),
            forall|j: int| 0 <= j < i ==> prefix_key(a@)[j] == prefix_key(b@)[j],
    {
        if key_char(&x, i) != key_char(&y, i) {
            assert(prefix_key(a@)[i as int] != prefix_key(b@)[i as int]);
            return false;
        }
    }
    assert(prefix_key(a@) =~= prefix_key(b@));
    true
}

fn components_match(a: &PathComponent, b: &PathComponent) -> (r: bool)
    ensures
        r == same_component(a@, b@),
{
    match (a, b) {
        (PathComponent::Prefix(x), PathComponent::Prefix(y)) => prefixes_match(
            x.as_str(),
            y.as_str(),
        ),
        (PathComponent::RootDir, PathComponent::RootDir) => true,
        (PathComponent::CurDir, PathComponent::CurDir) => true,
        (PathComponent::ParentDir, PathComponent::ParentDir) => true,
        (PathComponent::Normal(x), PathComponent::Normal(y)) => same_text(x.as_str(), y.as_str()),
        (
            PathComponent::Foreign { shown: x, bytes: p },
            PathComponent::Foreign { shown: y, bytes: q },
        ) => same_text(x.as_str(), y.as_str()) && same_bytes(p, q),
        _ => false,
    }
}

impl PathComponent {
    fn is_named(&self) -> (r: bool)
        ensures
            r == takes_separator(self@),
    {
        match self {
            PathComponent::Prefix(_) => false,
            PathComponent::RootDir => false,
            _ => true,
        }
    }

    fn is_entry(&self) -> (r: bool)
        ensures
            r == is_name(self@),
    {
        match self {
            PathComponent::Normal(_) => true,
            PathComponent::Foreign { .. } => true,
            _ => false,
        }
    }

    /// The component that the name of an entry makes.
    fn of_name(name: &OsText) -> (r: PathComponent)
        ensures
            r@ == name_component(name@),
    {
        let name = name.clone();
        if name.is_decodable() {
            PathComponent::Normal(name.shown)
        } else {
            PathComponent::Foreign { shown: name.shown, bytes: name.bytes }
        }
    }
}

fn takes_gap(a: &PathComponent, b: &PathComponent) -> (r: bool)
    ensures
        r == gap_between(a@, b@),
{
    if !b.is_named() {
        return false;
    }
    match a {
        PathComponent::Prefix(name) => {
            let chars = chars_of(name.as_str());
            !(chars.len() == 2 && has_drive_at(&chars, 0))
        },
        other => other.is_named(),
    }
}

impl Clone for RepoPath {
    fn clone(&self) -> (r: Self)
        ensures
            r@ == self@,
    {
        self.part(0, self.components.len())
    }
}

impl RepoPath {
    /// The path that has no components.
    pub fn empty() -> (r: RepoPath)
        ensures
            r@ == PathView::empty(),
    {
        let r = RepoPath { components: Vec::new() };
        assert(r@ =~= PathView::empty());
        r
    }

    /// The components that `text` names on `platform`.
    pub fn parse(text: &str, platform: Platform) -> (r: RepoPath)
        ensures
            r@ == components_of(platform, text@),
    {
        let chars = chars_of(text);
        let windows = platform == Platform::Windows;
        let cut: usize = if windows {
            find_windows_prefix_len(&chars)
        } else {
            0
        };
        proof {
            lemma_prefix_len_bounds(platform, text@);
        }
        let syntax: Syntax = if !windows {
            Syntax::Slash
        } else if is_verbatim_text(&chars) {
            Syntax::Verbatim
        } else {
            Syntax::Both
        };
        let roots: Syntax = if windows {
            Syntax::Both
        } else {
            Syntax::Slash
        };
        let ghost rest = text@.skip(cut as int);
        let mut components: Vec<PathComponent> = Vec::new();
        assert(component_views(components@) =~= PathView::empty());
        if cut > 0 {
            components.push(PathComponent::Prefix(text_between(&chars, 0, cut)));
        }
        let ghost prefix = component_views(components@);
        assert(prefix =~= if cut > 0 {
            seq![Component::Prefix(text@.take(cut as int))]
        } else {
            seq![]
        });
        if cut < chars.len() && is_separator(roots, chars[cut]) {
            components.push(PathComponent::RootDir);
            assert(component_views(components@) =~= prefix + seq![Component::RootDir]);
            assert(rest.skip(1) =~= text@.skip(cut + 1));
            push_names(&mut components, syntax, &chars, cut + 1);
        } else if cut > 0 && syntax != Syntax::Verbatim && is_separator(Syntax::Both, chars[0]) {
            components.push(PathComponent::RootDir);
            assert(component_views(components@) =~= prefix + seq![Component::RootDir]);
            push_names(&mut components, syntax, &chars, cut);
        } else if cut == 0 && chars.len() > 0 && chars[0] == '.' && (chars.len() == 1
            || is_separator(syntax, chars[1])) {
            components.push(PathComponent::CurDir);
            assert(component_views(components@) =~= seq![Component::CurDir]);
            push_names(&mut components, syntax, &chars, cut);
        } else {
            push_names(&mut components, syntax, &chars, cut);
        }
        RepoPath { components }
    }

    fn encoded_prefix(&self) -> (r: Vec<u8>)
        ensures
            r@ == prefix_bytes(self@),
    {
        if self.components.len() > 0 {
            if let PathComponent::Prefix(name) = &self.components[0] {
                return name.as_str().as_bytes_vec();
            }
        }
        Vec::new()
    }

    /// The components that a text of the system names on `platform`.
    pub fn read(text: &OsText, platform: Platform) -> (r: RepoPath)
        ensures
            r@ == os_components(platform, text@),
    {
        let path = RepoPath::parse(text.shown.as_str(), platform);
        if text.is_decodable() {
            return path;
        }
        let chars = chars_of(text.shown.as_str());
        let syntax: Syntax = if platform != Platform::Windows {
            Syntax::Slash
        } else if is_verbatim_text(&chars) {
            Syntax::Verbatim
        } else {
            Syntax::Both
        };
        let names = naming_bytes(&without_head(&text.bytes, &path.encoded_prefix()), syntax);
        let len = path.components.len();
        let mut components: Vec<PathComponent> = Vec::new();
        for i in 0..len
            invariant
                len == path.components@.len(),
                path@ == components_of(platform, text@.shown),
                byte_views(names@) == os_names(platform, text@, path@),
                !decodable(text@),
                component_views(components@) == os_components(platform, text@).take(i as int),
        {
            let ghost before = component_views(components@);
            let behind: usize = len - i;
            let component = match &path.components[i] {
                PathComponent::Normal(shown) => if names.len() >= behind {
                    let piece = &names[names.len() - behind];
                    let bytes = bytes_between(piece, 0, piece.len());
                    assert(bytes@ =~= byte_views(names@)[names@.len() - behind]);
                    PathComponent::of_name(&OsText { shown: shown.clone(), bytes })
                } else {
                    path.components[i].clone()
                },
                other => other.clone(),
            };
            let ghost value = component@;
            assert(value == marked_component(path@, byte_views(names@), i as int));
            components.push(component);
            assert(component_views(components@) =~= before.push(value));
            assert(os_components(platform, text@).take(i + 1) =~= before.push(value));
        }
        let r = RepoPath { components };
        assert(r@ =~= os_components(platform, text@));
        r
    }

    /// How the path is written on `platform`.
    pub fn to_text(&self, platform: Platform) -> (r: String)
        ensures
            r@ == text_of(platform, self@),
    {
        let windows = platform == Platform::Windows;
        let mut text = String::new();
        for i in 0..self.components.len()
            invariant
                windows == (platform == Platform::Windows),
                text@ == text_of(platform, self@.take(i as int)),
        {
            let ghost done = self@.take(i + 1);
            assert(done.drop_last() =~= self@.take(i as int));
            if i > 0 && takes_gap(&self.components[i - 1], &self.components[i]) {
                text.push(
                    if windows {
                        '\\'
                    } else {
                        '/'
                    },
                );
            }
            let ghost gapped = text@;
            match &self.components[i] {
                PathComponent::Prefix(name) => text.append(name.as_str()),
                PathComponent::RootDir => text.push(
                    if windows {
                        '\\'
                    } else {
                        '/'
                    },
                ),
                PathComponent::CurDir => text.push('.'),
                PathComponent::ParentDir => {
                    text.push('.');
                    text.push('.');
                },
                PathComponent::Normal(name) => text.append(name.as_str()),
                PathComponent::Foreign { shown, .. } => text.append(shown.as_str()),
            }
            assert(text@ =~= gapped + component_text(platform, self@[i as int]));
            assert(text@ =~= text_of(platform, done));
        }
        assert(self@.take(self.components@.len() as int) =~= self@);
        text
    }

    /// The components `from..to`.
    fn part(&self, from: usize, to: usize) -> (r: RepoPath)
        requires
            from <= to <= self.components@.len(),
        ensures
            r@ == self@.subrange(from as int, to as int),
    {
        let mut components: Vec<PathComponent> = Vec::new();
        for i in from..to
            invariant
                from <= to <= self.components@.len(),
                component_views(components@) == self@.subrange(from as int, i as int),
        {
            let ghost before = component_views(components@);
            components.push(self.components[i].clone());
            assert(component_views(components@) =~= before.push(self@[i as int]));
            assert(self@.subrange(from as int, i + 1) =~= before.push(self@[i as int]));
        }
        RepoPath { components }
    }

    /// The components from index `from` on.
    pub fn behind(&self, from: usize) -> (r: RepoPath)
        requires
            from <= self.components@.len(),
        ensures
            r@ == self@.skip(from as int),
    {
        let r = self.part(from, self.components.len());
        assert(r@ =~= self@.skip(from as int));
        r
    }

    /// Whether two paths have the same components.
    pub fn same_as(&self, other: &RepoPath) -> (r: bool)
        ensures
            r == same_path(self@, other@),
    {
        if self.components.len() != other.components.len() {
            return false;
        }
        assert(self@.take(self@.len() as int) =~= self@);
        self.starts_with(other)
    }

    /// Whether the path begins with all the components of `base`.
    pub fn starts_with(&self, base: &RepoPath) -> (r: bool)
        ensures
            r == path_starts_with(self@, base@),
    {
        if base.components.len() > self.components.len() {
            return false;
        }
        let ghost head = self@.take(base@.len() as int);
        for i in 0..base.components.len()
            invariant
                base@.len() <= self@.len(),
                head == self@.take(base@.len() as int),
                forall|j: int| 0 <= j < i ==> #[trigger] same_component(head[j], base@[j]),
        {
            if !components_match(&self.components[i], &base.components[i]) {
                assert(!same_component(head[i as int], base@[i as int]));
                return false;
            }
        }
        true
    }

    /// What is left of the path behind `base`, if it begins with `base`.
    pub fn strip_prefix(&self, base: &RepoPath) -> (r: Option<RepoPath>)
        ensures
            path_opt(r) == (if path_starts_with(self@, base@) {
                Some(self@.skip(base@.len() as int))
            } else {
                None
            }),
    {
        if self.starts_with(base) {
            Some(self.behind(base.components.len()))
        } else {
            None
        }
    }

    /// Put in the root that the text of the path implies.
    fn imply_root(&mut self)
        ensures
            final(self)@ == with_implied_root(old(self)@),
    {
        let ghost start = self@;
        let due = self.components.len() > 1 && matches!(
            self.components[0],
            PathComponent::Prefix(_)
        ) && takes_gap(&self.components[0], &self.components[1]);
        if due {
            self.components.insert(1, PathComponent::RootDir);
            assert(self@ =~= seq![start[0], Component::RootDir] + start.skip(1));
        }
    }

    /// The path with one more name behind it.
    pub fn child(&self, name: &str) -> (r: RepoPath)
        ensures
            r@ == child_of(self@, name@),
    {
        let mut r = self.clone();
        r.components.push(PathComponent::Normal(name.to_owned()));
        assert(r@ =~= self@.push(Component::Normal(name@)));
        r.imply_root();
        r
    }

    /// The entry `name` of the directory at this path.
    pub fn entry(&self, name: &OsText) -> (r: RepoPath)
        ensures
            r@ == entry_of(self@, name@),
    {
        let mut r = self.clone();
        let component = PathComponent::of_name(name);
        let ghost value = component@;
        r.components.push(component);
        assert(r@ =~= self@.push(value));
        r.imply_root();
        r
    }

    /// The path without its last component; none for the empty path, a root or a prefix.
    pub fn parent(&self) -> (r: Option<RepoPath>)
        ensures
            path_opt(r) == parent_of(self@),
    {
        let len = self.components.len();
        if len > 0 && self.components[len - 1].is_named() {
            let r = self.part(0, len - 1);
            assert(r@ =~= self@.drop_last());
            Some(r)
        } else {
            None
        }
    }

    /// The last component, if it is a name and Unicode.
    pub fn file_name(&self) -> (r: Option<&str>)
        ensures
            r is Some <==> file_name_of(self@) is Some,
            r is Some ==> r->0@ == file_name_of(self@)->0,
    {
        let len = self.components.len();
        if len > 0 {
            if let PathComponent::Normal(name) = &self.components[len - 1] {
                return Some(name.as_str());
            }
        }
        None
    }

    /// Whether the path leads to a fixed place, whatever the current directory is.
    pub fn is_absolute(&self, platform: Platform) -> (r: bool)
        ensures
            r == absolute(platform, self@),
    {
        if self.components.len() == 0 {
            return false;
        }
        if platform == Platform::Windows {
            if let PathComponent::Prefix(name) = &self.components[0] {
                if self.components.len() > 1 {
                    if let PathComponent::RootDir = self.components[1] {
                        return true;
                    }
                }
                let chars = chars_of(name.as_str());
                chars.len() > 0 && is_separator(Syntax::Both, chars[0])
            } else {
                false
            }
        } else {
            matches!(self.components[0], PathComponent::RootDir)
        }
    }

    /// Whether the path begins with a `\\?\` prefix.
    pub fn has_verbatim_prefix(&self) -> (r: bool)
        ensures
            r == verbatim(self@),
    {
        if self.components.len() == 0 {
            return false;
        }
        if let PathComponent::Prefix(name) = &self.components[0] {
            let chars = chars_of(name.as_str());
            is_verbatim_text(&chars)
        } else {
            false
        }
    }

    /// Take the components of `tail` into the path, carrying out every `.` and `..`.
    fn collapse_in(&mut self, tail: &RepoPath)
        ensures
            final(self)@ == collapse_onto(old(self)@, tail@),
    {
        let ghost start = self@;
        for i in 0..tail.components.len()
            invariant
                self@ == collapse_onto(start, tail@.take(i as int)),
        {
            let ghost before = self@;
            assert(tail@.take(i + 1).drop_last() =~= tail@.take(i as int));
            match &tail.components[i] {
                PathComponent::CurDir => {},
                PathComponent::ParentDir => {
                    let len = self.components.len();
                    if len > 0 && self.components[len - 1].is_entry() {
                        self.components.pop();
                        assert(self@ =~= before.drop_last());
                    }
                },
                other => {
                    self.components.push(other.clone());
                    assert(self@ =~= before.push(other@));
                },
            }
            assert(self@ == collapse_step(before, tail@[i as int]));
        }
        assert(tail@.take(tail.components@.len() as int) =~= tail@);
    }

    /// The path with every `.` and `..` carried out.
    pub fn collapsed(&self) -> (r: RepoPath)
        ensures
            r@ == collapse(self@),
    {
        let mut r = RepoPath::empty();
        r.collapse_in(self);
        r
    }

    /// `tail` as seen from this path.
    pub fn join(&self, tail: &RepoPath, platform: Platform) -> (r: RepoPath)
        ensures
            r@ == joined(platform, self@, tail@),
    {
        let mut r = self.attach(tail, platform);
        r.imply_root();
        r
    }

    fn attach(&self, tail: &RepoPath, platform: Platform) -> (r: RepoPath)
        ensures
            r@ == attached(platform, self@, tail@),
    {
        let windows = platform == Platform::Windows;
        let tail_rooted = tail.components.len() > 0 && matches!(
            tail.components[0],
            PathComponent::RootDir
        );
        let tail_prefixed = tail.components.len() > 0 && matches!(
            tail.components[0],
            PathComponent::Prefix(_)
        );
        let prefixed = self.components.len() > 0 && matches!(
            self.components[0],
            PathComponent::Prefix(_)
        );
        if windows && tail_prefixed {
            tail.clone()
        } else if windows && self.has_verbatim_prefix() && tail.components.len() > 0 {
            let mut r = if tail_rooted {
                self.part(0, 1)
            } else {
                self.clone()
            };
            assert(self@.take(1) =~= self@.subrange(0, 1));
            r.collapse_in(tail);
            r
        } else if tail_rooted {
            if windows && prefixed {
                let mut r = self.part(0, 1);
                assert(self@.take(1) =~= self@.subrange(0, 1));
                r.append(tail, 0);
                assert(tail@.skip(0) =~= tail@);
                r
            } else {
                tail.clone()
            }
        } else if self.components.len() == 0 {
            tail.clone()
        } else {
            let from: usize = if tail.components.len() > 0 && matches!(
                tail.components[0],
                PathComponent::CurDir
            ) {
                1
            } else {
                0
            };
            let mut r = self.clone();
            r.append(tail, from);
            assert(tail@.skip(0) =~= tail@);
            r
        }
    }

    /// Append the components of `tail` from index `from` on.
    fn append(&mut self, tail: &RepoPath, from: usize)
        requires
            from <= tail.components@.len(),
        ensures
            final(self)@ == old(self)@ + tail@.skip(from as int),
    {
        let ghost start = self@;
        for i in from..tail.components.len()
            invariant
                from <= tail.components@.len(),
                self@ == start + tail@.subrange(from as int, i as int),
        {
            let ghost before = self@;
            self.components.push(tail.components[i].clone());
            assert(self@ =~= before.push(tail@[i as int]));
            assert(self@ =~= start + tail@.subrange(from as int, i + 1));
        }
        assert(tail@.subrange(from as int, tail@.len() as int) =~= tail@.skip(from as int));
    }
}

/// `path` with `.` and `..` resolved without touching the file system: a `..` cancels a
/// name, is dropped behind a root or a prefix, and is kept anywhere else.
pub fn lexically_normalize(path: &RepoPath) -> (r: RepoPath)
    ensures
        r@ == lexical(path@),
{
    let mut out = RepoPath::empty();
    for i in 0..path.components.len()
        invariant
            out@ == lexical(path@.take(i as int)),
    {
        let ghost before = out@;
        assert(path@.take(i + 1).drop_last() =~= path@.take(i as int));
        match &path.components[i] {
            PathComponent::CurDir => {},
            PathComponent::ParentDir => {
                let len = out.components.len();
                if len > 0 && out.components[len - 1].is_entry() {
                    out.components.pop();
                    assert(out@ =~= before.drop_last());
                } else if len > 0 && !out.components[len - 1].is_named() {
                } else {
                    out.components.push(PathComponent::ParentDir);
                    assert(out@ =~= before.push(Component::ParentDir));
                }
            },
            other => {
                out.components.push(other.clone());
                assert(out@ =~= before.push(other@));
            },
        }
        assert(out@ == lexical_step(before, path@[i as int]));
    }
    assert(path@.take(path.components@.len() as int) =~= path@);
    out
}

} // verus!
