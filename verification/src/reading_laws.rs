//! How texts are read as paths, how paths are written, and how paths are taken apart and put
//! together.

use vstd::prelude::*;

use crate::os_text::{decodable, OsTextView};
use crate::path_laws::{
    law_same_path_reflexive, lemma_collapse_onto_append, lemma_named_components_around,
    lemma_piece_end_stops, lemma_pieces_append, lemma_pieces_next, lemma_single_piece, valid_path,
    well_placed,
};
use crate::paths::{
    absolute, child_of, collapse, collapse_onto, component_text, components_of, drive_at,
    file_name_of, implies_root, is_name, joined, leading_dot, lemma_piece_end_bounds,
    lemma_prefix_len_bounds, main_separator, named_components, os_components, parent_of,
    path_starts_with, piece_components, piece_end, pieces, plain_drive, prefix_key, prefix_len,
    rooted, same_component, same_path, separates, syntax_of, takes_separator, text_of, verbatim,
    verbatim_server, verbatim_text, windows_prefix_len, without_leading_dot, Component, PathView,
    Platform, Syntax,
};
use crate::places::{child_place, PlaceView};

verus! {

// ---------------------------------------------------------------------------------------
// Reading
// ---------------------------------------------------------------------------------------

/// What a piece without separators adds to a path that is being read, other than a verbatim one:
/// nothing if it is empty or a `.`, a `..`, or the name that it is.
pub open spec fn added_by(piece: Seq<char>) -> PathView {
    if piece.len() == 0 || (piece.len() == 1 && piece[0] == '.') {
        seq![]
    } else if piece.len() == 2 && piece[0] == '.' && piece[1] == '.' {
        seq![Component::ParentDir]
    } else {
        seq![Component::Normal(piece)]
    }
}

proof fn lemma_added_by(syntax: Syntax, piece: Seq<char>)
    ensures
        syntax != Syntax::Verbatim ==> piece_components(syntax, piece) == added_by(piece),
{
    if piece.len() == 1 && piece[0] == '.' {
        assert(piece =~= seq!['.']);
    }
    if piece.len() == 2 && piece[0] == '.' && piece[1] == '.' {
        assert(piece =~= seq!['.', '.']);
    }
    if piece == seq!['.'] {
        assert(piece[0] == '.');
    }
    if piece == seq!['.', '.'] {
        assert(piece[0] == '.' && piece[1] == '.');
    }
}

proof fn lemma_piece_behind(
    syntax: Syntax,
    body: Seq<char>,
    separator: char,
    piece: Seq<char>,
)
    requires
        separates(syntax, separator),
        forall|i: int| 0 <= i < piece.len() ==> !separates(syntax, piece[i]),
    ensures
        named_components(syntax, pieces(syntax, body + seq![separator] + piece))
            == named_components(syntax, pieces(syntax, body)) + piece_components(syntax, piece),
{
    let list = pieces(syntax, body);
    lemma_pieces_next(syntax, body, separator, piece);
    lemma_single_piece(syntax, piece);
    lemma_named_components_around(syntax, list, seq![piece]);
    assert(list + seq![piece] =~= list.push(piece));
}

/// Law: a piece behind a separator adds what it stands for, whatever the text before it: nothing if
/// it is empty or a `.`, so that repeated and trailing separators and inner dots vanish. On Windows
/// the text before it holds more than its prefix, the prefix does not change, and it is no verbatim
/// one.
pub proof fn law_reading_goes_piece_by_piece(
    platform: Platform,
    text: Seq<char>,
    separator: char,
    piece: Seq<char>,
)
    requires
        separator == '/' || (platform == Platform::Windows && separator == '\\'),
        forall|i: int|
            0 <= i < piece.len() ==> piece[i] != '/' && (platform == Platform::Windows ==> piece[i]
                != '\\'),
        text.len() > prefix_len(platform, text),
        prefix_len(platform, text + seq![separator] + piece) == prefix_len(platform, text),
        platform == Platform::Windows ==> syntax_of(platform, text) == Syntax::Both && syntax_of(
            platform,
            text + seq![separator] + piece,
        ) == Syntax::Both,
    ensures
        components_of(platform, text + seq![separator] + piece) == components_of(platform, text)
            + added_by(piece),
{
    let whole = text + seq![separator] + piece;
    let cut = prefix_len(platform, text);
    let syntax = syntax_of(platform, text);
    let rest = text.skip(cut);
    lemma_prefix_len_bounds(platform, text);
    lemma_added_by(syntax, piece);
    assert(whole.skip(cut) =~= rest + seq![separator] + piece);
    assert(whole.take(cut) =~= text.take(cut));
    assert(whole[0] == text[0]);
    let whole_rest = whole.skip(cut);
    assert(whole_rest[0] == rest[0]);
    if rooted(platform, rest) {
        assert(whole_rest.skip(1) =~= rest.skip(1) + seq![separator] + piece);
        lemma_piece_behind(syntax, rest.skip(1), separator, piece);
    } else {
        lemma_piece_behind(syntax, rest, separator, piece);
        assert(leading_dot(syntax, whole_rest) == leading_dot(syntax, rest)) by {
            if rest.len() > 1 {
                assert(whole_rest[1] == rest[1]);
            } else {
                assert(whole_rest[1] == separator);
            }
        }
    }
    assert(components_of(platform, whole) =~= components_of(platform, text) + added_by(piece));
}

/// Law: on every platform but Windows, reading begins with a root where the text begins with `/`,
/// with a `.` where its first piece is one, and with what its first piece stands for otherwise.
pub proof fn law_reading_begins_at_the_root_or_the_first_piece(
    platform: Platform,
    piece: Seq<char>,
)
    requires
        platform != Platform::Windows,
        forall|i: int| 0 <= i < piece.len() ==> piece[i] != '/',
    ensures
        components_of(platform, seq!['/'] + piece) == seq![Component::RootDir] + added_by(piece),
        components_of(platform, piece) == (if piece.len() == 1 && piece[0] == '.' {
            seq![Component::CurDir]
        } else {
            added_by(piece)
        }),
{
    let syntax = Syntax::Slash;
    let rooted_text = seq!['/'] + piece;
    let none = Seq::<char>::empty();
    lemma_added_by(syntax, piece);
    assert(piece.skip(0) =~= piece);
    assert(rooted_text.skip(0) =~= rooted_text);
    assert(rooted_text.skip(1) =~= piece);
    lemma_pieces_append(syntax, none, piece);
    assert(none + piece =~= piece);
    assert(pieces(syntax, none) =~= seq![none]);
    assert(pieces(syntax, piece) =~= seq![piece]);
    lemma_single_piece(syntax, piece);
    assert(components_of(platform, rooted_text) =~= seq![Component::RootDir] + added_by(piece));
    assert(components_of(platform, piece) =~= if piece.len() == 1 && piece[0] == '.' {
        seq![Component::CurDir]
    } else {
        added_by(piece)
    });
}

/// Law: on Windows a letter with a colon behind it is a prefix of its own, whatever follows; a text
/// that begins neither with such a drive nor with two separators has no prefix. Elsewhere no text
/// has one.
pub proof fn law_drives_are_prefixes(platform: Platform, text: Seq<char>)
    ensures
        platform != Platform::Windows ==> prefix_len(platform, text) == 0,
        text.len() >= 2 && ('a' <= text[0] <= 'z' || 'A' <= text[0] <= 'Z') && text[1] == ':'
            ==> windows_prefix_len(text) == 2,
        text.len() > 0 && text[0] != '/' && text[0] != '\\' && !(text.len() >= 2 && ('a' <= text[0]
            <= 'z' || 'A' <= text[0] <= 'Z') && text[1] == ':') ==> windows_prefix_len(text) == 0,
        text.len() <= 1 ==> windows_prefix_len(text) == 0,
        text.len() >= 2 && (text[0] == '/' || text[0] == '\\') && text[1] != '/' && text[1] != '\\'
            ==> windows_prefix_len(text) == 0,
{
}

/// Law: on Windows, reading behind a drive begins with a root where a separator stands there, and
/// with the first piece otherwise; without a prefix it begins as elsewhere, with either separator.
pub proof fn law_windows_reading_begins_behind_the_drive(
    letter: char,
    separator: char,
    piece: Seq<char>,
)
    requires
        'a' <= letter <= 'z' || 'A' <= letter <= 'Z',
        separator == '/' || separator == '\\',
        forall|i: int| 0 <= i < piece.len() ==> piece[i] != '/' && piece[i] != '\\',
    ensures
        ({
            let drive = seq![letter, ':'];
            &&& components_of(Platform::Windows, drive + piece) == seq![Component::Prefix(drive)]
                + added_by(piece)
            &&& components_of(Platform::Windows, drive + seq![separator] + piece) == seq![
                Component::Prefix(drive),
                Component::RootDir,
            ] + added_by(piece)
            &&& components_of(Platform::Windows, seq![separator] + piece) == seq![
                Component::RootDir,
            ] + added_by(piece)
        }),
{
    let platform = Platform::Windows;
    let syntax = Syntax::Both;
    let drive = seq![letter, ':'];
    let none = Seq::<char>::empty();
    lemma_added_by(syntax, piece);
    lemma_pieces_append(syntax, none, piece);
    assert(none + piece =~= piece);
    assert(pieces(syntax, none) =~= seq![none]);
    assert(pieces(syntax, piece) =~= seq![piece]);
    lemma_single_piece(syntax, piece);
    let plain = drive + piece;
    assert(plain.skip(2) =~= piece);
    assert(plain.take(2) =~= drive);
    assert(components_of(platform, plain) =~= seq![Component::Prefix(drive)] + added_by(piece));
    let whole = drive + seq![separator] + piece;
    assert(whole.skip(2) =~= seq![separator] + piece);
    assert(whole.skip(2).skip(1) =~= piece);
    assert(whole.take(2) =~= drive);
    assert(components_of(platform, whole) =~= seq![Component::Prefix(drive), Component::RootDir]
        + added_by(piece));
    let bare = seq![separator] + piece;
    assert(bare.skip(0) =~= bare);
    assert(bare.skip(1) =~= piece);
    assert(components_of(platform, bare) =~= seq![Component::RootDir] + added_by(piece));
}

/// Law: on Windows, two separators with a server and a share behind them are a prefix, up to the
/// next separator; without both a server and a share they are none. Verbatim texts and devices are
/// left out.
pub proof fn law_shares_are_prefixes(text: Seq<char>)
    requires
        text.len() >= 2,
        text[0] == '/' || text[0] == '\\',
        text[1] == '/' || text[1] == '\\',
        !verbatim_text(text),
        !(text.len() >= 4 && text[2] == '.' && (text[3] == '/' || text[3] == '\\')),
    ensures
        ({
            let n = windows_prefix_len(text);
            let k = piece_end(Syntax::Both, text, 2);
            &&& 0 <= n <= text.len()
            &&& n > 0 ==> {
                &&& 2 < k && k + 1 < n
                &&& text[k] == '/' || text[k] == '\\'
                &&& forall|i: int|
                    2 <= i < n && i != k ==> #[trigger] text[i] != '/' && text[i] != '\\'
                &&& n < text.len() ==> text[n] == '/' || text[n] == '\\'
            }
        }),
{
    let k = piece_end(Syntax::Both, text, 2);
    lemma_prefix_len_bounds(Platform::Windows, text);
    lemma_piece_end_bounds(Syntax::Both, text, 2);
    lemma_piece_end_bounds(Syntax::Both, text, k + 1);
    lemma_piece_end_stops(Syntax::Both, text, 2);
    lemma_piece_end_stops(Syntax::Both, text, k + 1);
    lemma_no_separator_in_piece(Syntax::Both, text, 2);
    lemma_no_separator_in_piece(Syntax::Both, text, k + 1);
}

proof fn lemma_no_separator_in_piece(syntax: Syntax, text: Seq<char>, from: int)
    requires
        0 <= from,
    ensures
        forall|i: int|
            from <= i < piece_end(syntax, text, from) ==> !separates(syntax, #[trigger] text[i]),
    decreases text.len() - from,
{
    if from < text.len() && !separates(syntax, text[from]) {
        lemma_no_separator_in_piece(syntax, text, from + 1);
    }
}

/// Law: on Windows, a device is a prefix up to the end of its name.
pub proof fn law_devices_are_prefixes(text: Seq<char>)
    requires
        text.len() >= 4,
        text[0] == '/' || text[0] == '\\',
        text[1] == '/' || text[1] == '\\',
        text[2] == '.',
        text[3] == '/' || text[3] == '\\',
    ensures
        ({
            let n = windows_prefix_len(text);
            &&& 4 <= n <= text.len()
            &&& forall|i: int| 4 <= i < n ==> #[trigger] text[i] != '/' && text[i] != '\\'
            &&& n < text.len() ==> text[n] == '/' || text[n] == '\\'
        }),
{
    lemma_piece_end_bounds(Syntax::Both, text, 4);
    lemma_piece_end_stops(Syntax::Both, text, 4);
    lemma_no_separator_in_piece(Syntax::Both, text, 4);
}

/// Law: a verbatim text has a prefix that goes on to the end of the first name behind `\\?\`, of
/// the drive that stands there, or of the share if a server is named.
pub proof fn law_verbatim_texts_have_a_prefix(text: Seq<char>)
    requires
        verbatim_text(text),
    ensures
        ({
            let n = windows_prefix_len(text);
            &&& 4 <= n <= text.len()
            &&& syntax_of(Platform::Windows, text) == Syntax::Verbatim
            &&& !verbatim_server(text) && drive_at(text, 4) && (text.len() == 6 || (text.len() > 6
                && (text[6] == '/' || text[6] == '\\'))) ==> n == 6
            &&& n < text.len() ==> text[n] == '\\' || text[n] == '/'
        }),
{
    let server = piece_end(Syntax::Verbatim, text, 8);
    lemma_prefix_len_bounds(Platform::Windows, text);
    lemma_piece_end_bounds(Syntax::Verbatim, text, 4);
    lemma_piece_end_bounds(Syntax::Verbatim, text, 8);
    lemma_piece_end_bounds(Syntax::Verbatim, text, server + 1);
    lemma_piece_end_stops(Syntax::Verbatim, text, 4);
    lemma_piece_end_stops(Syntax::Verbatim, text, 8);
    lemma_piece_end_stops(Syntax::Verbatim, text, server + 1);
}

/// Law: a text of the system that is Unicode is read as that text; of one that is not, every
/// component is that of the text as it is shown, or a name that is shown so.
pub proof fn law_texts_of_the_system_are_read_as_they_are_shown(
    platform: Platform,
    text: OsTextView,
    i: int,
)
    requires
        0 <= i < components_of(platform, text.shown).len(),
    ensures
        decodable(text) ==> os_components(platform, text) == components_of(platform, text.shown),
        os_components(platform, text)[i] == components_of(platform, text.shown)[i] || (
        os_components(platform, text)[i] matches Component::Foreign { shown, .. }
            && components_of(platform, text.shown)[i] == Component::Normal(shown)),
{
}

// ---------------------------------------------------------------------------------------
// Writing
// ---------------------------------------------------------------------------------------

/// Law: a component is written behind a path with a separator if both are named, and without one
/// behind a root or a plain drive, and in front of a root.
pub proof fn law_writing_goes_component_by_component(
    platform: Platform,
    path: PathView,
    c: Component,
)
    ensures
        text_of(platform, PathView::empty()) == Seq::<char>::empty(),
        text_of(platform, seq![c]) == component_text(platform, c),
        path.len() > 0 && is_name(c) && takes_separator(path.last()) ==> text_of(
            platform,
            path.push(c),
        ) == text_of(platform, path).push(main_separator(platform)) + component_text(platform, c),
        path.len() > 0 && (path.last() is RootDir || c is RootDir) ==> text_of(
            platform,
            path.push(c),
        ) == text_of(platform, path) + component_text(platform, c),
        path.len() > 0 && (path.last() matches Component::Prefix(name) && plain_drive(name))
            ==> text_of(platform, path.push(c)) == text_of(platform, path) + component_text(
            platform,
            c,
        ),
{
    assert(path.push(c).drop_last() =~= path);
    assert(seq![c].drop_last() =~= PathView::empty());
    assert(text_of(platform, PathView::empty()) =~= Seq::<char>::empty());
    assert(text_of(platform, seq![c]) =~= component_text(platform, c));
    if path.len() > 0 {
        let text = text_of(platform, path);
        let last = component_text(platform, c);
        assert(text + seq![main_separator(platform)] + last =~= text.push(
            main_separator(platform),
        ) + last);
        assert(text + seq![] + last =~= text + last);
    }
}

/// Law: components are written as they are called: names as they are or as they are shown, and the
/// root as the separator of the platform.
pub proof fn law_components_are_written_as_they_are_called(platform: Platform, c: Component)
    ensures
        match c {
            Component::Prefix(name) => component_text(platform, c) == name,
            Component::RootDir => component_text(platform, c) == (if platform == Platform::Windows {
                seq!['\\']
            } else {
                seq!['/']
            }),
            Component::CurDir => component_text(platform, c) == seq!['.'],
            Component::ParentDir => component_text(platform, c) == seq!['.', '.'],
            Component::Normal(name) => component_text(platform, c) == name,
            Component::Foreign { shown, .. } => component_text(platform, c) == shown,
        },
{
}

/// Law: a place below another one is spelled as that one, a separator unless one stands there
/// already, and the name. Behind a verbatim prefix it is spelled anew; a bare drive and the empty
/// text take no separator.
pub proof fn law_places_are_spelled_name_by_name(
    platform: Platform,
    place: PlaceView,
    name: Seq<char>,
)
    ensures
        child_place(platform, place, name).path == child_of(place.path, name),
        platform != Platform::Windows && place.text.len() > 0 && place.text.last() != '/'
            ==> child_place(platform, place, name).text == place.text + seq!['/'] + name,
        platform != Platform::Windows && (place.text.len() == 0 || place.text.last() == '/')
            ==> child_place(platform, place, name).text == place.text + name,
        platform == Platform::Windows && verbatim(place.path) ==> child_place(
            platform,
            place,
            name,
        ).text == text_of(platform, child_of(place.path, name)),
        platform == Platform::Windows && !verbatim(place.path) && place.path.len() > 1
            && place.text.len() > 0 && place.text.last() != '/' && place.text.last() != '\\'
            ==> child_place(platform, place, name).text == place.text + seq!['\\'] + name,
        platform == Platform::Windows && place.path.len() == 1 && (
        place.path[0] matches Component::Prefix(drive) && plain_drive(drive)) && !verbatim(
            place.path,
        ) ==> child_place(platform, place, name).text == place.text + name,
        platform == Platform::Windows && !verbatim(place.path) && (place.text.len() == 0
            || place.text.last() == '/' || place.text.last() == '\\') ==> child_place(
            platform,
            place,
            name,
        ).text == place.text + name,
{
    let sep = main_separator(platform);
    assert(place.text.push(sep) + name =~= place.text + seq![sep] + name);
}

// ---------------------------------------------------------------------------------------
// Taking apart and putting together
// ---------------------------------------------------------------------------------------

/// Law: a name behind a path has that path as its parent, and is its last name if it is Unicode. A
/// `..` or a `.` has a parent as well, but no name; a root, a prefix and the empty path have
/// neither.
pub proof fn law_parents_and_names(path: PathView, c: Component)
    ensures
        parent_of(PathView::empty()) is None,
        file_name_of(PathView::empty()) is None,
        is_name(c) || c is ParentDir || c is CurDir ==> parent_of(path.push(c)) == Some(path),
        c is RootDir || c is Prefix ==> parent_of(path.push(c)) is None,
        c matches Component::Normal(name) ==> file_name_of(path.push(c)) == Some(name),
        !(c is Normal) ==> file_name_of(path.push(c)) is None,
{
    assert(path.push(c).drop_last() =~= path);
}

/// Law: an entry of a directory has the directory as its parent and its own name, and lies below
/// it. A bare prefix that is no plain drive is left out: it comes with a root.
pub proof fn law_entries_lie_in_their_directory(path: PathView, name: Seq<char>)
    requires
        !(path.len() == 1 && path[0] is Prefix),
        !implies_root(path),
    ensures
        child_of(path, name) == path.push(Component::Normal(name)),
        parent_of(child_of(path, name)) == Some(path),
        file_name_of(child_of(path, name)) == Some(name),
        path_starts_with(child_of(path, name), path),
{
    let child = path.push(Component::Normal(name));
    if path.len() > 1 {
        assert(child[0] == path[0] && child[1] == path[1]);
    }
    assert(child.drop_last() =~= path);
    assert(child.take(path.len() as int) =~= path);
    law_same_path_reflexive(path);
}

/// Law: behind a bare prefix a name takes a root, unless the prefix is a plain drive.
pub proof fn law_prefixes_take_a_root_in_front_of_names(prefix: Seq<char>, name: Seq<char>)
    ensures
        plain_drive(prefix) ==> child_of(seq![Component::Prefix(prefix)], name) == seq![
            Component::Prefix(prefix),
            Component::Normal(name),
        ],
        !plain_drive(prefix) ==> child_of(seq![Component::Prefix(prefix)], name) == seq![
            Component::Prefix(prefix),
            Component::RootDir,
            Component::Normal(name),
        ],
{
    let path = seq![Component::Prefix(prefix)].push(Component::Normal(name));
    assert(path =~= seq![Component::Prefix(prefix), Component::Normal(name)]);
    assert(path.skip(1) =~= seq![Component::Normal(name)]);
    assert(child_of(seq![Component::Prefix(prefix)], name) =~= if plain_drive(prefix) {
        path
    } else {
        seq![Component::Prefix(prefix), Component::RootDir, Component::Normal(name)]
    });
}

/// Law: prefixes that are the same are so character by character, but for the kind of a separator
/// and the case of a drive's letter.
pub proof fn law_prefixes_are_compared_by_what_they_say(a: Seq<char>, b: Seq<char>, i: int)
    requires
        same_component(Component::Prefix(a), Component::Prefix(b)),
        0 <= i < a.len(),
    ensures
        a.len() == b.len(),
        a[i] == b[i] || ((a[i] == '/' || a[i] == '\\') && (b[i] == '/' || b[i] == '\\')) || (i + 1
            < a.len() && (drive_at(a, i) || drive_at(b, i)) && (a[i] as int == b[i] as int + 32
            || b[i] as int == a[i] as int + 32)),
{
    assert(prefix_key(a).len() == a.len());
    assert(prefix_key(b).len() == b.len());
    assert(prefix_key(a)[i] == prefix_key(b)[i]);
}

/// Law: a path begins with another one if and only if it is that one with more components behind
/// it. On Windows this holds up to how prefixes are written.
pub proof fn law_beginnings_are_whole_components(
    platform: Platform,
    path: PathView,
    base: PathView,
    tail: PathView,
)
    ensures
        path_starts_with(base + tail, base),
        path_starts_with(path, base) ==> base.len() <= path.len() && same_path(
            path.take(base.len() as int),
            base,
        ),
        platform != Platform::Windows && valid_path(platform, base) && path_starts_with(path, base)
            ==> path == base + path.skip(base.len() as int),
{
    assert((base + tail).take(base.len() as int) =~= base);
    law_same_path_reflexive(base);
    if platform != Platform::Windows && valid_path(platform, base) && path_starts_with(path, base) {
        let head = path.take(base.len() as int);
        assert forall|i: int| 0 <= i < base.len() implies head[i] == base[i] by {
            assert(same_component(head[i], base[i]));
            assert(well_placed(platform, base, i));
        }
        assert(head =~= base);
        assert(path =~= base + path.skip(base.len() as int));
    }
}

/// Law: components that are no prefixes are the same if and only if they are equal, names to the
/// letter; a prefix is never the same as anything else.
pub proof fn law_components_are_compared_to_the_letter(a: Component, b: Component)
    ensures
        !(a is Prefix) ==> (same_component(a, b) <==> a == b),
        a is Prefix && !(b is Prefix) ==> !same_component(a, b),
        same_component(a, a),
{
}

/// Law: two drives are the same if and only if their letters are, in whatever case.
pub proof fn law_drives_are_compared_without_case(a: Seq<char>, b: Seq<char>)
    requires
        plain_drive(a),
        plain_drive(b),
    ensures
        same_component(Component::Prefix(a), Component::Prefix(b)) <==> a[0] == b[0] || a[0] as int
            == b[0] as int + 32 || b[0] as int == a[0] as int + 32,
{
    let x = prefix_key(a);
    let y = prefix_key(b);
    assert(a[1] == ':' && b[1] == ':');
    assert(x[1] == ':' && y[1] == ':');
    if x[0] == y[0] {
        assert(x =~= y);
    }
}

/// Law: verbatim drives are compared without case as well, and no verbatim prefix is the same as
/// one that is not.
pub proof fn law_verbatim_drives_are_compared_without_case(a: Seq<char>, b: Seq<char>)
    requires
        verbatim_text(a),
        a.len() == 6,
        drive_at(a, 4),
    ensures
        verbatim_text(b) && b.len() == 6 && drive_at(b, 4) ==> (same_component(
            Component::Prefix(a),
            Component::Prefix(b),
        ) <==> a[4] == b[4] || a[4] as int == b[4] as int + 32 || b[4] as int == a[4] as int + 32),
        !verbatim_text(b) ==> !same_component(Component::Prefix(a), Component::Prefix(b)),
{
    let x = prefix_key(a);
    let y = prefix_key(b);
    assert(x.len() == 6);
    assert(y.len() == b.len());
    if b.len() == 6 && verbatim_text(b) && drive_at(b, 4) {
        assert(x[0] == y[0] && x[1] == y[1] && x[2] == y[2] && x[3] == y[3] && x[5] == y[5]);
        if x[4] == y[4] {
            assert(x =~= y);
        }
    }
}

/// Law: a `.` has no effect when dots are carried out, a `..` takes back the name before it, and
/// one that follows a root has no effect.
pub proof fn law_dots_are_carried_out(path: PathView, name: Component, tail: PathView)
    requires
        is_name(name),
    ensures
        collapse(path + seq![Component::CurDir] + tail) == collapse(path + tail),
        collapse(path + seq![name, Component::ParentDir] + tail) == collapse(path + tail),
        collapse(seq![Component::RootDir, Component::ParentDir] + tail) == collapse(
            seq![Component::RootDir] + tail,
        ),
{
    let none = PathView::empty();
    let dot: PathView = seq![Component::CurDir];
    let back: PathView = seq![name, Component::ParentDir];
    let before = collapse(path);
    lemma_collapse_onto_append(none, path, tail);
    lemma_collapse_onto_append(none, path + dot, tail);
    lemma_collapse_onto_append(none, path, dot);
    assert(dot.drop_last() =~= none);
    assert(collapse_onto(before, none) == before);
    assert(collapse_onto(before, dot) == before);
    lemma_collapse_onto_append(none, path + back, tail);
    lemma_collapse_onto_append(none, path, back);
    let named: PathView = seq![name];
    assert(back.drop_last() =~= named);
    assert(named.drop_last() =~= none);
    assert(collapse_onto(before, named) == before.push(name));
    assert(before.push(name).drop_last() =~= before);
    assert(collapse_onto(before, back) == before);
    let root: PathView = seq![Component::RootDir];
    let above: PathView = seq![Component::RootDir, Component::ParentDir];
    lemma_collapse_onto_append(none, root, tail);
    lemma_collapse_onto_append(none, above, tail);
    assert(above.drop_last() =~= root);
    assert(root.drop_last() =~= none);
    assert(collapse_onto(none, none) == none);
    assert(none.push(Component::RootDir) =~= root);
    assert(collapse(root) == root);
    assert(collapse(above) == collapse(root));
}

/// Law: on every platform but Windows, a tail with a root is where it leads, wherever it is seen
/// from; any other is appended, without a `.` at its beginning, and the empty one leads nowhere
/// else.
pub proof fn law_tails_are_seen_from_a_path(platform: Platform, path: PathView, tail: PathView)
    requires
        platform != Platform::Windows,
        !(path.len() > 0 && path[0] is Prefix),
        !(tail.len() > 0 && tail[0] is Prefix),
    ensures
        tail.len() > 0 && tail[0] is RootDir ==> joined(platform, path, tail) == tail,
        tail.len() == 0 ==> joined(platform, path, tail) == path,
        path.len() > 0 && tail.len() > 0 && tail[0] is CurDir ==> joined(platform, path, tail)
            == path + tail.skip(1),
        path.len() > 0 && tail.len() > 0 && !(tail[0] is CurDir) && !(tail[0] is RootDir)
            ==> joined(platform, path, tail) == path + tail,
        path.len() == 0 ==> joined(platform, path, tail) == tail,
{
    assert(path + without_leading_dot(tail) =~= if tail.len() == 0 {
        path
    } else {
        path + without_leading_dot(tail)
    });
    if path.len() == 0 {
        assert(joined(platform, path, tail) =~= tail);
    }
    if tail.len() == 0 {
        assert(joined(platform, path, tail) =~= path);
    }
}

/// Law: on Windows, a tail with a prefix is where it leads; one with a root keeps the prefix of the
/// path that it is seen from, and nothing else of it.
pub proof fn law_windows_tails_keep_the_drive(path: PathView, tail: PathView)
    requires
        tail.len() > 0,
        !implies_root(tail),
    ensures
        tail[0] is Prefix ==> joined(Platform::Windows, path, tail) == tail,
        tail[0] is RootDir && !verbatim(path) && path.len() > 0 && path[0] is Prefix ==> joined(
            Platform::Windows,
            path,
            tail,
        ) == seq![path[0]] + tail,
        tail[0] is RootDir && !(path.len() > 0 && path[0] is Prefix) ==> joined(
            Platform::Windows,
            path,
            tail,
        ) == tail,
{
    if path.len() > 0 {
        assert(path.take(1) =~= seq![path[0]]);
        let whole = path.take(1) + tail;
        assert(whole[1] == tail[0]);
    }
}

/// Law: on Windows, a tail without a prefix and without a root is appended; behind a verbatim
/// prefix names are appended as well, and a `..` takes back the name before it.
pub proof fn law_windows_tails_are_appended(path: PathView, tail: PathView, name: Component)
    requires
        path.len() > 1,
        !implies_root(path),
        is_name(name),
        tail.len() > 0,
        !(tail[0] is Prefix),
        !(tail[0] is RootDir),
    ensures
        !verbatim(path) && !(tail[0] is CurDir) ==> joined(Platform::Windows, path, tail) == path
            + tail,
        !verbatim(path) && tail[0] is CurDir ==> joined(Platform::Windows, path, tail) == path
            + tail.skip(1),
        verbatim(path) ==> joined(Platform::Windows, path, seq![name]) == path.push(name),
        verbatim(path) ==> joined(Platform::Windows, path.push(name), seq![Component::ParentDir])
            == path,
{
    let whole = path + without_leading_dot(tail);
    assert(whole[0] == path[0] && whole[1] == path[1]);
    let one: PathView = seq![name];
    let back: PathView = seq![Component::ParentDir];
    let none = PathView::empty();
    assert(one.drop_last() =~= none);
    assert(back.drop_last() =~= none);
    let grown = path.push(name);
    assert(grown[0] == path[0] && grown[1] == path[1]);
    assert(collapse_onto(path, none) == path);
    assert(collapse_onto(path, one) == grown);
    assert(collapse_onto(grown, none) == grown);
    assert(grown.drop_last() =~= path);
    assert(collapse_onto(grown, back) == path);
}

/// Law: a path leads to a fixed place if and only if it begins with a root; on Windows it needs a
/// prefix as well, and one that names a server or a device is enough.
pub proof fn law_what_is_absolute(platform: Platform, path: PathView)
    ensures
        platform != Platform::Windows ==> (absolute(platform, path) <==> path.len() > 0
            && path[0] is RootDir),
        platform == Platform::Windows ==> (absolute(platform, path) <==> path.len() > 0 && (
        path[0] matches Component::Prefix(name) && ((path.len() > 1 && path[1] is RootDir) || (
        name.len() > 0 && (name[0] == '\\' || name[0] == '/'))))),
{
}

} // verus!
