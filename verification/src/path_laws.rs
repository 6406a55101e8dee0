//! What holds of paths: reading, writing and normalizing them.

use vstd::prelude::*;

use crate::central_repo::{expanded, normalized, PathError};
use crate::environment::EnvironmentView;
use crate::os_text::{decodable, OsTextView};
use crate::paths::{
    absolute, attached, collapse, collapse_onto, collapse_step, component_text, components_of,
    entry_of, implies_root, is_name, joined, leading_dot, lemma_piece_end_bounds,
    lemma_prefix_len_bounds, lexical, main_separator, name_component, named_components,
    os_components, path_starts_with, piece_components, piece_end, pieces, plain_drive, prefix_len,
    rooted, same_component, same_path, separates, syntax_of, takes_separator, text_of, verbatim,
    verbatim_server, verbatim_text, windows_prefix_len, with_implied_root, without_leading_dot,
    Component, PathView, Platform, Syntax,
};
use crate::text::{trim_end, trim_start, trimmed, white_space};

verus! {

/// Whether `name` can stand between separators: it is not empty, not `.` or `..`, and holds no
/// separator that paths are written with.
pub open spec fn plain_name(platform: Platform, name: Seq<char>) -> bool {
    &&& name.len() > 0
    &&& name != seq!['.']
    &&& name != seq!['.', '.']
    &&& forall|i: int| 0 <= i < name.len() ==> name[i] != main_separator(platform)
}

/// Whether `name` can be the name of an entry: one that is Unicode is a plain name.
pub open spec fn plain_os_name(platform: Platform, name: OsTextView) -> bool {
    decodable(name) ==> plain_name(platform, name.shown)
}

/// Whether the component at place `i` of `path` may stand there.
pub open spec fn well_placed(platform: Platform, path: PathView, i: int) -> bool {
    match path[i] {
        Component::Prefix(_) => platform == Platform::Windows && i == 0,
        Component::RootDir => i == 0 || (i == 1 && path[0] is Prefix),
        Component::CurDir => platform == Platform::Windows || i == 0,
        Component::ParentDir => true,
        Component::Normal(name) => plain_name(platform, name),
        Component::Foreign { .. } => true,
    }
}

/// Whether every component of `path` may stand where it stands.
pub open spec fn placed(platform: Platform, path: PathView) -> bool {
    forall|i: int| 0 <= i < path.len() ==> #[trigger] well_placed(platform, path, i)
}

/// Whether `path` has the shape of a path that was read from text: a prefix first, the root
/// behind it, then names. Only a plain drive stands in front of a name without a root.
pub open spec fn valid_path(platform: Platform, path: PathView) -> bool {
    placed(platform, path) && !implies_root(path)
}

/// Whether all names of `path` are Unicode. Text holds no others.
pub open spec fn unicode_path(path: PathView) -> bool {
    forall|i: int| 0 <= i < path.len() ==> !(#[trigger] path[i] is Foreign)
}

/// Whether `path` holds no `.` and no `..`.
pub open spec fn dot_free(path: PathView) -> bool {
    forall|i: int|
        0 <= i < path.len() ==> !(#[trigger] path[i] is CurDir) && !(path[i] is ParentDir)
}

// ---------------------------------------------------------------------------------------
// Pieces
// ---------------------------------------------------------------------------------------

proof fn lemma_pieces_shape(syntax: Syntax, text: Seq<char>)
    ensures
        pieces(syntax, text).len() > 0,
        forall|i: int, j: int|
            0 <= i < pieces(syntax, text).len() && 0 <= j < pieces(syntax, text)[i].len()
                ==> !separates(syntax, #[trigger] pieces(syntax, text)[i][j]),
    decreases text.len(),
{
    if text.len() > 0 {
        lemma_pieces_shape(syntax, text.drop_last());
    }
}

/// A text without separators extends the last piece.
pub proof fn lemma_pieces_append(syntax: Syntax, text: Seq<char>, tail: Seq<char>)
    requires
        forall|i: int| 0 <= i < tail.len() ==> !separates(syntax, tail[i]),
    ensures
        pieces(syntax, text + tail) == pieces(syntax, text).drop_last().push(
            pieces(syntax, text).last() + tail,
        ),
    decreases tail.len(),
{
    lemma_pieces_shape(syntax, text);
    if tail.len() == 0 {
        assert(text + tail =~= text);
        assert(pieces(syntax, text).last() + tail =~= pieces(syntax, text).last());
        assert(pieces(syntax, text) =~= pieces(syntax, text).drop_last().push(
            pieces(syntax, text).last(),
        ));
    } else {
        lemma_pieces_append(syntax, text, tail.drop_last());
        assert((text + tail).drop_last() =~= text + tail.drop_last());
        assert((text + tail).last() == tail.last());
        let before = pieces(syntax, text + tail.drop_last());
        assert(before.last().push(tail.last()) =~= pieces(syntax, text).last() + tail);
        assert(before.drop_last() =~= pieces(syntax, text).drop_last());
    }
}

/// A separator and a text without separators add one piece.
pub proof fn lemma_pieces_next(syntax: Syntax, text: Seq<char>, separator: char, tail: Seq<char>)
    requires
        separates(syntax, separator),
        forall|i: int| 0 <= i < tail.len() ==> !separates(syntax, tail[i]),
    ensures
        pieces(syntax, text + seq![separator] + tail) == pieces(syntax, text).push(tail),
{
    let cut = text + seq![separator];
    assert(cut.drop_last() =~= text);
    assert(cut.last() == separator);
    assert(pieces(syntax, cut) == pieces(syntax, text).push(Seq::<char>::empty()));
    lemma_pieces_append(syntax, cut, tail);
    assert(pieces(syntax, cut).drop_last() =~= pieces(syntax, text));
    assert(Seq::<char>::empty() + tail =~= tail);
}

/// What pieces contribute are names that can stand between separators, and `..`.
proof fn lemma_named_components_plain(platform: Platform, syntax: Syntax, list: Seq<Seq<char>>)
    requires
        separates(syntax, main_separator(platform)),
        forall|i: int, j: int|
            0 <= i < list.len() && 0 <= j < list[i].len() ==> !separates(
                syntax,
                #[trigger] list[i][j],
            ),
    ensures
        forall|i: int|
            0 <= i < named_components(syntax, list).len() ==> (match #[trigger] named_components(
                syntax,
                list,
            )[i] {
                Component::ParentDir => true,
                Component::CurDir => syntax == Syntax::Verbatim,
                Component::Normal(name) => plain_name(platform, name),
                _ => false,
            }),
    decreases list.len(),
{
    if list.len() > 0 {
        let init = list.drop_last();
        assert forall|i: int, j: int| 0 <= i < init.len() && 0 <= j < init[i].len() implies
            !separates(syntax, #[trigger] init[i][j]) by {
            assert(init[i] == list[i]);
            assert(!separates(syntax, list[i][j]));
        }
        lemma_named_components_plain(platform, syntax, init);
        let piece = list.last();
        assert forall|j: int| 0 <= j < piece.len() implies piece[j] != main_separator(platform) by {
            assert(!separates(syntax, list[list.len() - 1][j]));
        }
        let before = named_components(syntax, init);
        let whole = named_components(syntax, list);
        assert forall|i: int| 0 <= i < whole.len() implies (match #[trigger] whole[i] {
            Component::ParentDir => true,
            Component::CurDir => syntax == Syntax::Verbatim,
            Component::Normal(name) => plain_name(platform, name),
            _ => false,
        }) by {
            if i < before.len() {
                assert(whole[i] == before[i]);
            }
        }
    }
}

/// A piece that does not reach the end of the text ends at a separator.
pub proof fn lemma_piece_end_stops(syntax: Syntax, text: Seq<char>, from: int)
    requires
        0 <= from,
    ensures
        piece_end(syntax, text, from) < text.len() ==> separates(
            syntax,
            text[piece_end(syntax, text, from)],
        ),
    decreases text.len() - from,
{
    if from < text.len() && !separates(syntax, text[from]) {
        lemma_piece_end_stops(syntax, text, from + 1);
    }
}

/// Behind a verbatim prefix stands a root, or nothing.
proof fn lemma_behind_prefix(text: Seq<char>)
    requires
        verbatim_text(text),
        windows_prefix_len(text) < text.len(),
    ensures
        0 <= windows_prefix_len(text),
        separates(Syntax::Both, text[windows_prefix_len(text)]),
{
    lemma_prefix_len_bounds(Platform::Windows, text);
    lemma_piece_end_stops(Syntax::Verbatim, text, 4);
    lemma_piece_end_bounds(Syntax::Verbatim, text, 8);
    lemma_piece_end_stops(Syntax::Verbatim, text, 8);
    let server = piece_end(Syntax::Verbatim, text, 8);
    lemma_piece_end_stops(Syntax::Verbatim, text, server + 1);
}

/// Law: every text names a path of the right shape.
pub proof fn law_read_paths_are_valid(platform: Platform, text: Seq<char>)
    ensures
        valid_path(platform, components_of(platform, text)),
{
    lemma_prefix_len_bounds(platform, text);
    let cut = prefix_len(platform, text);
    let rest = text.skip(cut);
    let syntax = syntax_of(platform, text);
    let path = components_of(platform, text);
    let body = if rooted(platform, rest) {
        rest.skip(1)
    } else {
        rest
    };
    let list = pieces(syntax, body);
    let names = named_components(syntax, list);
    lemma_pieces_shape(syntax, body);
    lemma_named_components_plain(platform, syntax, list);
    let lead = path.len() - names.len();
    assert forall|i: int| 0 <= i < path.len() implies #[trigger] well_placed(
        platform,
        path,
        i,
    ) by {
        if i >= lead {
            assert(path[i] == names[i - lead]);
        }
    }
    if cut > 0 && !rooted(platform, rest) {
        if verbatim_text(text) {
            if cut < text.len() {
                lemma_behind_prefix(text);
                assert(rest[0] == text[cut]);
            }
            assert(rest =~= Seq::<char>::empty());
            lemma_single_piece(syntax, Seq::<char>::empty());
            assert(pieces(syntax, rest) =~= seq![Seq::<char>::empty()]);
            assert(names =~= PathView::empty());
        } else if !separates(Syntax::Both, text[0]) {
            assert(plain_drive(text.take(cut)));
        }
    }
}

/// Law: every name that is read from text is Unicode.
pub proof fn law_read_paths_are_unicode(platform: Platform, text: Seq<char>)
    ensures
        unicode_path(components_of(platform, text)),
{
    let syntax = syntax_of(platform, text);
    let rest = text.skip(prefix_len(platform, text));
    lemma_named_components_unicode(syntax, pieces(syntax, rest));
    lemma_named_components_unicode(syntax, pieces(syntax, rest.skip(1)));
}

proof fn lemma_named_components_unicode(syntax: Syntax, list: Seq<Seq<char>>)
    ensures
        unicode_path(named_components(syntax, list)),
    decreases list.len(),
{
    if list.len() > 0 {
        lemma_named_components_unicode(syntax, list.drop_last());
    }
}

/// Law: what is read from a text of the system has the shape of a path, also where the text is not
/// Unicode. The names that are Unicode are those of the text as it is shown.
pub proof fn law_os_paths_are_valid(platform: Platform, text: OsTextView)
    ensures
        valid_path(platform, os_components(platform, text)),
        os_components(platform, text).len() == components_of(platform, text.shown).len(),
        text_of(platform, os_components(platform, text)) == text_of(
            platform,
            components_of(platform, text.shown),
        ),
{
    let shown = components_of(platform, text.shown);
    let path = os_components(platform, text);
    law_read_paths_are_valid(platform, text.shown);
    assert forall|i: int| 0 <= i < path.len() implies #[trigger] well_placed(
        platform,
        path,
        i,
    ) by {
        assert(well_placed(platform, shown, i));
    }
    if path.len() > 1 {
        assert(takes_separator(path[1]) == takes_separator(shown[1]));
    }
    lemma_shown_alike(platform, path, shown);
}

/// Two paths that differ only in how their names are encoded are written alike.
proof fn lemma_shown_alike(platform: Platform, a: PathView, b: PathView)
    requires
        a.len() == b.len(),
        forall|i: int|
            0 <= i < a.len() ==> (#[trigger] a[i] == b[i] || (b[i] matches Component::Normal(name)
                && (a[i] matches Component::Foreign { shown, .. } && shown == name))),
    ensures
        text_of(platform, a) == text_of(platform, b),
    decreases a.len(),
{
    if a.len() > 0 {
        assert forall|i: int| 0 <= i < a.drop_last().len() implies (#[trigger] a.drop_last()[i]
            == b.drop_last()[i] || (b.drop_last()[i] matches Component::Normal(name) && (
        a.drop_last()[i] matches Component::Foreign { shown, .. } && shown == name))) by {
            assert(a.drop_last()[i] == a[i]);
        }
        lemma_shown_alike(platform, a.drop_last(), b.drop_last());
        assert(a.last() == a[a.len() - 1]);
        if a.len() > 1 {
            assert(a.drop_last().last() == a[a.len() - 2]);
        }
    }
}

/// Law: two entries of a directory with different names are different paths, however they are
/// shown.
pub proof fn law_names_are_told_apart(dir: PathView, a: OsTextView, b: OsTextView)
    requires
        a != b,
    ensures
        !same_path(entry_of(dir, a), entry_of(dir, b)),
{
    let x = entry_of(dir, a);
    let y = entry_of(dir, b);
    assert(x.last() == name_component(a));
    assert(y.last() == name_component(b));
    if same_path(x, y) {
        assert(same_component(x[x.len() - 1], y[x.len() - 1]));
    }
}

// ---------------------------------------------------------------------------------------
// Writing and reading back
// ---------------------------------------------------------------------------------------

/// One piece contributes what it stands for.
pub proof fn lemma_single_piece(syntax: Syntax, piece: Seq<char>)
    ensures
        named_components(syntax, seq![piece]) == piece_components(syntax, piece),
{
    let list = seq![piece];
    assert(list.drop_last() =~= Seq::<Seq<char>>::empty());
    assert(named_components(syntax, list.drop_last()) =~= PathView::empty());
    assert(named_components(syntax, list) =~= piece_components(syntax, piece));
}

/// One component is written as it is.
proof fn lemma_single_text(platform: Platform, c: Component)
    ensures
        text_of(platform, seq![c]) == component_text(platform, c),
{
    let path: PathView = seq![c];
    assert(path.drop_last() =~= PathView::empty());
    assert(text_of(platform, path.drop_last()) =~= Seq::<char>::empty());
    assert(text_of(platform, path) =~= component_text(platform, c));
}

/// The pieces of a written list of names are the texts of the names.
proof fn lemma_written_names(platform: Platform, syntax: Syntax, path: PathView)
    requires
        separates(syntax, main_separator(platform)),
        path.len() > 0,
        forall|i: int|
            0 <= i < path.len() ==> (match #[trigger] path[i] {
                Component::ParentDir => true,
                Component::Normal(name) => plain_name(platform, name) && forall|j: int|
                    0 <= j < name.len() ==> !separates(syntax, name[j]),
                _ => false,
            }),
    ensures
        named_components(syntax, pieces(syntax, text_of(platform, path))) == path,
        text_of(platform, path).len() > 0,
        !separates(syntax, text_of(platform, path)[0]),
        !leading_dot(syntax, text_of(platform, path)),
    decreases path.len(),
{
    let before = path.drop_last();
    let last = path.last();
    assert(last == path[path.len() - 1]);
    let word = component_text(platform, last);
    assert(word.len() > 0);
    assert forall|j: int| 0 <= j < word.len() implies !separates(syntax, word[j]) by {}
    assert(piece_components(syntax, word) =~= seq![last]);
    if before.len() == 0 {
        assert(text_of(platform, before) =~= Seq::<char>::empty());
        assert(text_of(platform, path) =~= word);
        lemma_pieces_append(syntax, Seq::<char>::empty(), word);
        assert(Seq::<char>::empty() + word =~= word);
        assert(pieces(syntax, word) =~= seq![word]);
        lemma_single_piece(syntax, word);
        assert(named_components(syntax, pieces(syntax, word)) =~= seq![last]);
        assert(path =~= seq![last]);
        if leading_dot(syntax, word) {
            assert(word =~= seq!['.']);
        }
    } else {
        assert forall|i: int| 0 <= i < before.len() implies (match #[trigger] before[i] {
            Component::ParentDir => true,
            Component::Normal(name) => plain_name(platform, name) && forall|j: int|
                0 <= j < name.len() ==> !separates(syntax, name[j]),
            _ => false,
        }) by {
            assert(before[i] == path[i]);
        }
        lemma_written_names(platform, syntax, before);
        assert(before.last() == path[path.len() - 2]);
        let text = text_of(platform, before);
        let separator = main_separator(platform);
        assert(text_of(platform, path) =~= text + seq![separator] + word);
        lemma_pieces_next(syntax, text, separator, word);
        let list = pieces(syntax, text).push(word);
        assert(list.drop_last() =~= pieces(syntax, text));
        assert(named_components(syntax, list) =~= before.push(last));
        assert(before.push(last) =~= path);
        let whole = text_of(platform, path);
        assert(whole[0] == text[0]);
        if leading_dot(syntax, whole) {
            if text.len() == 1 {
                assert(leading_dot(syntax, text));
            } else {
                assert(whole[1] == text[1]);
                assert(leading_dot(syntax, text));
            }
        }
    }
}

/// Writing names behind a root writes what ends in the root first.
proof fn lemma_written_behind(platform: Platform, lead: PathView, names: PathView)
    requires
        lead.len() > 0,
        lead.last() is RootDir,
        forall|i: int| 0 <= i < names.len() ==> takes_separator(#[trigger] names[i]),
    ensures
        text_of(platform, lead + names) == text_of(platform, lead) + text_of(platform, names),
    decreases names.len(),
{
    if names.len() == 0 {
        assert(lead + names =~= lead);
        assert(text_of(platform, lead) + text_of(platform, names) =~= text_of(platform, lead));
    } else {
        let init = names.drop_last();
        assert forall|i: int| 0 <= i < init.len() implies takes_separator(#[trigger] init[i]) by {
            assert(init[i] == names[i]);
        }
        lemma_written_behind(platform, lead, init);
        assert((lead + names).drop_last() =~= lead + init);
        assert((lead + names).last() == names.last());
        assert(names.last() == names[names.len() - 1]);
        if init.len() > 0 {
            assert((lead + init).last() == init.last());
            assert(init.last() == names[names.len() - 2]);
        } else {
            assert((lead + init) =~= lead);
        }
        assert(text_of(platform, lead + names) =~= text_of(platform, lead) + text_of(
            platform,
            names,
        ));
    }
}

/// The pieces on both sides of a separator are those of the parts.
proof fn lemma_pieces_around(syntax: Syntax, text: Seq<char>, separator: char, tail: Seq<char>)
    requires
        separates(syntax, separator),
    ensures
        pieces(syntax, text + seq![separator] + tail) == pieces(syntax, text) + pieces(
            syntax,
            tail,
        ),
    decreases tail.len(),
{
    let cut = text + seq![separator];
    lemma_pieces_shape(syntax, tail);
    if tail.len() == 0 {
        assert(cut + tail =~= cut);
        assert(cut.drop_last() =~= text);
        assert(pieces(syntax, cut) =~= pieces(syntax, text) + pieces(syntax, tail));
    } else {
        let init = tail.drop_last();
        lemma_pieces_around(syntax, text, separator, init);
        lemma_pieces_shape(syntax, init);
        assert((cut + tail).drop_last() =~= cut + init);
        assert((cut + tail).last() == tail.last());
        let before = pieces(syntax, text) + pieces(syntax, init);
        if separates(syntax, tail.last()) {
            assert(pieces(syntax, cut + tail) =~= pieces(syntax, text) + pieces(syntax, tail));
        } else {
            assert(before.last() == pieces(syntax, init).last());
            assert(pieces(syntax, cut + tail) =~= pieces(syntax, text) + pieces(syntax, tail));
        }
    }
}

/// What two lists of pieces contribute together is what they contribute one after the other.
pub proof fn lemma_named_components_around(syntax: Syntax, a: Seq<Seq<char>>, b: Seq<Seq<char>>)
    ensures
        named_components(syntax, a + b) == named_components(syntax, a) + named_components(
            syntax,
            b,
        ),
    decreases b.len(),
{
    if b.len() == 0 {
        assert(a + b =~= a);
        assert(named_components(syntax, b) =~= PathView::empty());
        assert(named_components(syntax, a) + PathView::empty() =~= named_components(syntax, a));
    } else {
        lemma_named_components_around(syntax, a, b.drop_last());
        assert((a + b).drop_last() =~= a + b.drop_last());
        assert((a + b).last() == b.last());
        assert(named_components(syntax, a + b) =~= named_components(syntax, a) + named_components(
            syntax,
            b,
        ));
    }
}

/// A `.` in front of names is written in front of their text.
proof fn lemma_dot_in_front(platform: Platform, names: PathView)
    requires
        names.len() > 0,
        forall|i: int| 0 <= i < names.len() ==> takes_separator(#[trigger] names[i]),
    ensures
        text_of(platform, seq![Component::CurDir] + names) == seq!['.'] + seq![
            main_separator(platform),
        ] + text_of(platform, names),
    decreases names.len(),
{
    let dot: PathView = seq![Component::CurDir];
    let init = names.drop_last();
    let whole = dot + names;
    assert(whole.drop_last() =~= dot + init);
    assert(whole.last() == names.last());
    assert(names.last() == names[names.len() - 1]);
    if init.len() == 0 {
        lemma_single_text(platform, Component::CurDir);
        assert(dot + init =~= dot);
        assert(init =~= PathView::empty());
        assert(text_of(platform, init) =~= Seq::<char>::empty());
    } else {
        assert forall|i: int| 0 <= i < init.len() implies takes_separator(#[trigger] init[i]) by {
            assert(init[i] == names[i]);
        }
        lemma_dot_in_front(platform, init);
        assert((dot + init).last() == init.last());
        assert(init.last() == names[names.len() - 2]);
    }
    assert(text_of(platform, whole) =~= seq!['.'] + seq![main_separator(platform)] + text_of(
        platform,
        names,
    ));
}

/// A root in front of names is read back with them.
proof fn lemma_rooted_text_reads_back(platform: Platform, names: PathView)
    requires
        platform != Platform::Windows,
        forall|i: int| 0 <= i < names.len() ==> takes_separator(#[trigger] names[i]),
        names.len() == 0 ==> text_of(platform, names) == Seq::<char>::empty(),
        names.len() > 0 ==> named_components(
            Syntax::Slash,
            pieces(Syntax::Slash, text_of(platform, names)),
        ) == names,
    ensures
        ({
            let path = seq![Component::RootDir] + names;
            let text = text_of(platform, path);
            &&& components_of(platform, text) == path
            &&& text.len() > 0 && text[0] == '/'
        }),
{
    let syntax = Syntax::Slash;
    let root: PathView = seq![Component::RootDir];
    let text = text_of(platform, root + names);
    let body = text_of(platform, names);
    assert(text.skip(0) =~= text);
    lemma_single_piece(syntax, Seq::<char>::empty());
    assert(pieces(syntax, Seq::<char>::empty()) =~= seq![Seq::<char>::empty()]);
    lemma_written_behind(platform, root, names);
    lemma_single_text(platform, Component::RootDir);
    assert(text =~= seq!['/'] + body);
    assert(text.skip(1) =~= body);
    assert(named_components(syntax, pieces(syntax, body)) =~= names);
    assert(components_of(platform, text) =~= root + names);
}

/// A `.` in front of names is read back with them.
proof fn lemma_dotted_text_reads_back(platform: Platform, names: PathView)
    requires
        platform != Platform::Windows,
        forall|i: int| 0 <= i < names.len() ==> takes_separator(#[trigger] names[i]),
        names.len() == 0 ==> text_of(platform, names) == Seq::<char>::empty(),
        names.len() > 0 ==> named_components(
            Syntax::Slash,
            pieces(Syntax::Slash, text_of(platform, names)),
        ) == names,
    ensures
        ({
            let path = seq![Component::CurDir] + names;
            components_of(platform, text_of(platform, path)) == path
        }),
{
    let syntax = Syntax::Slash;
    let dot: PathView = seq![Component::CurDir];
    let text = text_of(platform, dot + names);
    let body = text_of(platform, names);
    assert(text.skip(0) =~= text);
    lemma_single_text(platform, Component::CurDir);
    lemma_single_piece(syntax, seq!['.']);
    lemma_pieces_append(syntax, Seq::<char>::empty(), seq!['.']);
    assert(Seq::<char>::empty() + seq!['.'] =~= seq!['.']);
    assert(pieces(syntax, seq!['.']) =~= seq![seq!['.']]);
    if names.len() == 0 {
        assert(dot + names =~= dot);
        assert(text =~= seq!['.']);
        assert(components_of(platform, text) =~= dot + names);
    } else {
        lemma_dot_in_front(platform, names);
        lemma_pieces_around(syntax, seq!['.'], '/', body);
        lemma_named_components_around(syntax, pieces(syntax, seq!['.']), pieces(syntax, body));
        assert(text =~= seq!['.'] + seq!['/'] + body);
        assert(components_of(platform, text) =~= dot + names);
    }
}

/// Law: on every platform but Windows, the text of a path names that path, if its names are
/// Unicode.
pub proof fn law_text_reads_back(platform: Platform, path: PathView)
    requires
        platform != Platform::Windows,
        valid_path(platform, path),
        unicode_path(path),
    ensures
        components_of(platform, text_of(platform, path)) == path,
        absolute(platform, path) ==> text_of(platform, path).len() > 0 && text_of(platform, path)[0]
            == '/',
{
    let syntax = Syntax::Slash;
    let text = text_of(platform, path);
    assert(text.skip(0) =~= text);
    lemma_single_piece(syntax, Seq::<char>::empty());
    assert(pieces(syntax, Seq::<char>::empty()) =~= seq![Seq::<char>::empty()]);
    if path.len() == 0 {
        assert(text =~= Seq::<char>::empty());
        assert(components_of(platform, text) =~= path);
    } else {
        assert(well_placed(platform, path, 0));
        let leads = path[0] is RootDir || path[0] is CurDir;
        let names = if leads {
            path.skip(1)
        } else {
            path
        };
        assert forall|i: int| 0 <= i < names.len() implies (match #[trigger] names[i] {
            Component::ParentDir => true,
            Component::Normal(name) => plain_name(platform, name) && forall|j: int|
                0 <= j < name.len() ==> !separates(syntax, name[j]),
            _ => false,
        }) by {
            let k = if leads {
                i + 1
            } else {
                i
            };
            assert(well_placed(platform, path, k));
            assert(names[i] == path[k]);
        }
        assert forall|i: int| 0 <= i < names.len() implies takes_separator(#[trigger] names[i]) by {
        }
        let body = text_of(platform, names);
        if names.len() > 0 {
            lemma_written_names(platform, syntax, names);
        } else {
            assert(body =~= Seq::<char>::empty());
        }
        if path[0] is RootDir {
            assert(path =~= seq![Component::RootDir] + names);
            lemma_rooted_text_reads_back(platform, names);
        } else if path[0] is CurDir {
            assert(path =~= seq![Component::CurDir] + names);
            lemma_dotted_text_reads_back(platform, names);
        } else {
            assert(components_of(platform, text) =~= path);
        }
    }
}

/// A separator behind a text ends every piece that reaches the end of the text.
proof fn lemma_piece_end_before_separator(
    syntax: Syntax,
    text: Seq<char>,
    tail: Seq<char>,
    from: int,
)
    requires
        0 <= from <= text.len(),
        tail.len() > 0,
        separates(syntax, tail[0]),
    ensures
        piece_end(syntax, text + tail, from) == piece_end(syntax, text, from),
    decreases text.len() - from,
{
    let whole = text + tail;
    if from < text.len() {
        assert(whole[from] == text[from]);
        if !separates(syntax, text[from]) {
            lemma_piece_end_before_separator(syntax, text, tail, from + 1);
        }
    } else {
        assert(whole[from] == tail[0]);
    }
}

/// Whether `prefix` is a Windows prefix that is recognized whatever stands behind it. The verbatim
/// form of a server without a share is not: the next name would be taken for the share.
pub open spec fn closed_prefix(prefix: Seq<char>) -> bool {
    &&& prefix.len() > 0
    &&& windows_prefix_len(prefix) == prefix.len()
    &&& verbatim_text(prefix) ==> prefix != verbatim_text_of_unc() && (verbatim_server(prefix)
        ==> piece_end(Syntax::Verbatim, prefix, 8) < prefix.len())
}

/// The text `\\?\UNC`, which begins the verbatim form of a server.
pub open spec fn verbatim_text_of_unc() -> Seq<char> {
    seq!['\\', '\\', '?', '\\', 'U', 'N', 'C']
}

/// How names behind `prefix` are separated.
pub open spec fn syntax_behind(prefix: Seq<char>) -> Syntax {
    if verbatim_text(prefix) {
        Syntax::Verbatim
    } else {
        Syntax::Both
    }
}

/// A prefix is recognized in front of a `\`.
proof fn lemma_prefix_before_separator(prefix: Seq<char>, tail: Seq<char>)
    requires
        closed_prefix(prefix),
        tail.len() > 0,
        tail[0] == '\\',
    ensures
        windows_prefix_len(prefix + tail) == prefix.len(),
        verbatim_text(prefix + tail) == verbatim_text(prefix),
{
    let text = prefix + tail;
    let len = prefix.len() as int;
    assert(forall|i: int| 0 <= i < len ==> text[i] == prefix[i]);
    assert(text[len] == '\\');
    lemma_piece_end_bounds(Syntax::Both, prefix, 2);
    let server = piece_end(Syntax::Both, prefix, 2);
    lemma_piece_end_bounds(Syntax::Both, prefix, server + 1);
    assert(len >= 2);
    if separates(Syntax::Both, prefix[0]) && separates(Syntax::Both, prefix[1]) {
        if verbatim_text(prefix) {
            lemma_piece_end_before_separator(Syntax::Verbatim, prefix, tail, 4);
            if verbatim_server(prefix) {
                lemma_piece_end_bounds(Syntax::Verbatim, prefix, 8);
                let host = piece_end(Syntax::Verbatim, prefix, 8);
                lemma_piece_end_bounds(Syntax::Verbatim, prefix, host + 1);
                lemma_piece_end_before_separator(Syntax::Verbatim, prefix, tail, 8);
                lemma_piece_end_before_separator(Syntax::Verbatim, prefix, tail, host + 1);
            } else if len == 7 && prefix[4] == 'U' && prefix[5] == 'N' && prefix[6] == 'C' {
                assert(prefix =~= verbatim_text_of_unc());
            }
        } else {
            lemma_piece_end_before_separator(Syntax::Both, prefix, tail, 2);
            if len >= 4 && prefix[2] == '.' && separates(Syntax::Both, prefix[3]) {
                lemma_piece_end_before_separator(Syntax::Both, prefix, tail, 4);
            } else {
                assert(server + 1 < len);
                lemma_piece_end_before_separator(Syntax::Both, prefix, tail, server + 1);
            }
        }
    }
}

/// Whether `path` is one that Windows text can name without loss: a prefix that is recognized
/// whatever stands behind it, a root, and names without separators; or a verbatim prefix alone.
pub open spec fn windows_readable(path: PathView) -> bool {
    &&& path.len() > 0
    &&& path[0] matches Component::Prefix(prefix)
    &&& path.len() == 1 ==> verbatim_text(prefix) && windows_prefix_len(prefix) == prefix.len()
    &&& path.len() > 1 ==> closed_prefix(prefix) && path[1] is RootDir
    &&& forall|i: int|
        2 <= i < path.len() ==> (match #[trigger] path[i] {
            Component::ParentDir => true,
            Component::Normal(name) => plain_name(Platform::Windows, name) && forall|j: int|
                0 <= j < name.len() ==> !separates(syntax_behind(prefix), name[j]),
            _ => false,
        })
}

/// Behind a prefix that is recognized whatever stands behind it, a root and names are read back.
proof fn lemma_windows_rooted_text_reads_back(prefix: Seq<char>, names: PathView)
    requires
        closed_prefix(prefix),
        forall|i: int| 0 <= i < names.len() ==> takes_separator(#[trigger] names[i]),
        names.len() == 0 ==> text_of(Platform::Windows, names) == Seq::<char>::empty(),
        names.len() > 0 ==> named_components(
            syntax_behind(prefix),
            pieces(syntax_behind(prefix), text_of(Platform::Windows, names)),
        ) == names,
    ensures
        ({
            let path = seq![Component::Prefix(prefix), Component::RootDir] + names;
            components_of(Platform::Windows, text_of(Platform::Windows, path)) == path
        }),
{
    let platform = Platform::Windows;
    let syntax = syntax_behind(prefix);
    let lead: PathView = seq![Component::Prefix(prefix), Component::RootDir];
    let shown: PathView = seq![Component::Prefix(prefix)];
    let text = text_of(platform, lead + names);
    let body = text_of(platform, names);
    let tail = seq!['\\'] + body;
    lemma_single_text(platform, Component::Prefix(prefix));
    lemma_single_piece(syntax, Seq::<char>::empty());
    assert(pieces(syntax, Seq::<char>::empty()) =~= seq![Seq::<char>::empty()]);
    lemma_written_behind(platform, lead, names);
    assert(lead.drop_last() =~= shown);
    assert(text_of(platform, lead) =~= prefix + seq!['\\']);
    assert(text =~= prefix + tail);
    lemma_prefix_before_separator(prefix, tail);
    assert(text.skip(prefix.len() as int) =~= tail);
    assert(tail.skip(1) =~= body);
    assert(text.take(prefix.len() as int) =~= prefix);
    assert(named_components(syntax, pieces(syntax, body)) =~= names);
    assert(components_of(platform, text) =~= lead + names);
}

/// Law: on Windows, the text of an absolute path names that path, if it is one that text can name
/// without loss.
pub proof fn law_windows_text_reads_back(path: PathView)
    requires
        windows_readable(path),
    ensures
        components_of(Platform::Windows, text_of(Platform::Windows, path)) == path,
{
    let platform = Platform::Windows;
    let prefix = path[0]->Prefix_0;
    let syntax = syntax_behind(prefix);
    let text = text_of(platform, path);
    let shown: PathView = seq![Component::Prefix(prefix)];
    lemma_single_text(platform, path[0]);
    lemma_single_piece(syntax, Seq::<char>::empty());
    assert(pieces(syntax, Seq::<char>::empty()) =~= seq![Seq::<char>::empty()]);
    if path.len() == 1 {
        assert(path =~= shown);
        assert(text.skip(prefix.len() as int) =~= Seq::<char>::empty());
        assert(text.take(prefix.len() as int) =~= prefix);
        assert(components_of(platform, text) =~= path);
    } else {
        let names = path.skip(2);
        assert(path =~= seq![Component::Prefix(prefix), Component::RootDir] + names);
        assert forall|i: int| 0 <= i < names.len() implies (match #[trigger] names[i] {
            Component::ParentDir => true,
            Component::Normal(name) => plain_name(platform, name) && forall|j: int|
                0 <= j < name.len() ==> !separates(syntax, name[j]),
            _ => false,
        }) by {
            assert(names[i] == path[i + 2]);
        }
        assert forall|i: int| 0 <= i < names.len() implies takes_separator(#[trigger] names[i]) by {
        }
        if names.len() > 0 {
            lemma_written_names(platform, syntax, names);
        } else {
            assert(text_of(platform, names) =~= Seq::<char>::empty());
        }
        lemma_windows_rooted_text_reads_back(prefix, names);
    }
}

// ---------------------------------------------------------------------------------------
// Carrying out `.` and `..`
// ---------------------------------------------------------------------------------------

proof fn lemma_collapse_shape(platform: Platform, path: PathView)
    requires
        valid_path(platform, path),
    ensures
        valid_path(platform, collapse(path)),
        dot_free(collapse(path)),
        collapse(path).len() > 0 && collapse(path)[0] is Prefix ==> path[0] == collapse(path)[0]
            && collapse(path).len() <= path.len(),
        path.len() > 0 && (path[0] is Prefix || path[0] is RootDir) ==> collapse(path).len() > 0
            && collapse(path)[0] == path[0],
        path.len() > 1 && path[0] is Prefix && path[1] is RootDir ==> collapse(path).len() > 1
            && collapse(path)[1] == path[1],
    decreases path.len(),
{
    let whole = collapse(path);
    if path.len() > 0 {
        let init = path.drop_last();
        assert forall|i: int| 0 <= i < init.len() implies #[trigger] well_placed(
            platform,
            init,
            i,
        ) by {
            assert(well_placed(platform, path, i));
        }
        lemma_collapse_shape(platform, init);
        let before = collapse(init);
        assert(well_placed(platform, path, path.len() - 1));
        assert(whole == collapse_step(before, path.last()));
        if path.len() >= 2 && path[0] is Prefix && path[1] is RootDir {
            assert(path.len() > 2 ==> init[1] == path[1]);
            assert(init[0] == path[0]);
        }
        if path.len() >= 2 {
            assert(init[0] == path[0]);
        }
        assert forall|i: int| 0 <= i < whole.len() implies #[trigger] well_placed(
            platform,
            whole,
            i,
        ) by {
            if i < before.len() {
                assert(well_placed(platform, before, i));
                assert(whole[i] == before[i]);
                assert(whole[0] == before[0]);
            } else {
                assert(whole[i] == path.last());
                if path.len() == 1 {
                    assert(init =~= PathView::empty());
                    assert(before =~= PathView::empty());
                } else if path.last() is RootDir {
                    assert(path.len() == 2);
                    assert(init =~= seq![path[0]]);
                    assert(init.drop_last() =~= PathView::empty());
                    assert(collapse(init.drop_last()) =~= PathView::empty());
                    assert(before =~= seq![path[0]]);
                }
            }
        }
        assert forall|i: int| 0 <= i < whole.len() implies !(#[trigger] whole[i] is CurDir) && !(
        whole[i] is ParentDir) by {
            if i < before.len() {
                assert(whole[i] == before[i]);
            }
        }
        if path.len() == 1 {
            assert(init =~= PathView::empty());
            assert(before =~= PathView::empty());
        } else if path.len() == 2 && path[1] is RootDir {
            assert(init =~= seq![path[0]]);
            assert(init.drop_last() =~= PathView::empty());
            assert(collapse(init.drop_last()) =~= PathView::empty());
        }
        if whole.len() > 1 && whole[0] is Prefix {
            assert(path.len() > 1);
            assert(well_placed(platform, path, 1));
        }
    }
}

/// Law: carrying out `.` and `..` leaves none of them, and an absolute path stays one.
pub proof fn law_collapsed_paths_are_dot_free(platform: Platform, path: PathView)
    requires
        valid_path(platform, path),
    ensures
        valid_path(platform, collapse(path)),
        dot_free(collapse(path)),
        absolute(platform, path) ==> absolute(platform, collapse(path)),
{
    lemma_collapse_shape(platform, path);
}

/// Law: a path without `.` and `..` has nothing to carry out.
pub proof fn law_dot_free_paths_stay(path: PathView)
    requires
        dot_free(path),
    ensures
        collapse(path) == path,
    decreases path.len(),
{
    if path.len() > 0 {
        let init = path.drop_last();
        assert forall|i: int| 0 <= i < init.len() implies !(#[trigger] init[i] is CurDir) && !(
        init[i] is ParentDir) by {
            assert(init[i] == path[i]);
        }
        law_dot_free_paths_stay(init);
        assert(path.last() == path[path.len() - 1]);
        assert(init.push(path.last()) =~= path);
    } else {
        assert(collapse(path) =~= path);
    }
}

/// Whether every `..` stands in front of all names, and there is no `.`.
pub open spec fn lexical_form(path: PathView) -> bool {
    forall|i: int|
        0 <= i < path.len() ==> !(#[trigger] path[i] is CurDir) && (path[i] is ParentDir ==> i == 0
            || path[i - 1] is ParentDir)
}

proof fn lemma_lexical_shape(path: PathView)
    ensures
        lexical_form(lexical(path)),
    decreases path.len(),
{
    if path.len() > 0 {
        lemma_lexical_shape(path.drop_last());
        let before = lexical(path.drop_last());
        let whole = lexical(path);
        assert forall|i: int| 0 <= i < whole.len() implies !(#[trigger] whole[i] is CurDir) && (
        whole[i] is ParentDir ==> i == 0 || whole[i - 1] is ParentDir) by {
            if i < before.len() {
                assert(whole[i] == before[i]);
                if i > 0 {
                    assert(whole[i - 1] == before[i - 1]);
                }
            } else if before.len() > 0 {
                assert(before.last() == before[before.len() - 1]);
                assert(whole[i - 1] == before[i - 1]);
            }
        }
    }
}

proof fn lemma_lexical_form_stays(path: PathView)
    requires
        lexical_form(path),
    ensures
        lexical(path) == path,
    decreases path.len(),
{
    if path.len() > 0 {
        let init = path.drop_last();
        assert forall|i: int| 0 <= i < init.len() implies !(#[trigger] init[i] is CurDir) && (
        init[i] is ParentDir ==> i == 0 || init[i - 1] is ParentDir) by {
            assert(init[i] == path[i]);
        }
        lemma_lexical_form_stays(init);
        assert(path.last() == path[path.len() - 1]);
        if path.last() is ParentDir && init.len() > 0 {
            assert(init.last() == path[path.len() - 2]);
        }
        assert(init.push(path.last()) =~= path);
    } else {
        assert(lexical(path) =~= path);
    }
}

/// Normalizing lexically leaves every component where it may stand.
pub proof fn lemma_lexical_placed(platform: Platform, path: PathView)
    requires
        placed(platform, path),
    ensures
        placed(platform, lexical(path)),
    decreases path.len(),
{
    let whole = lexical(path);
    if path.len() > 0 {
        let init = path.drop_last();
        assert forall|i: int| 0 <= i < init.len() implies #[trigger] well_placed(
            platform,
            init,
            i,
        ) by {
            assert(well_placed(platform, path, i));
        }
        lemma_lexical_placed(platform, init);
        let before = lexical(init);
        assert(well_placed(platform, path, path.len() - 1));
        assert forall|i: int| 0 <= i < whole.len() implies #[trigger] well_placed(
            platform,
            whole,
            i,
        ) by {
            if i < before.len() {
                assert(well_placed(platform, before, i));
                assert(whole[i] == before[i]);
                assert(whole[0] == before[0]);
            } else {
                if path.len() == 1 {
                    assert(init =~= PathView::empty());
                    assert(before =~= PathView::empty());
                } else if path.last() is RootDir {
                    assert(path.len() == 2);
                    assert(init =~= seq![path[0]]);
                    assert(init.drop_last() =~= PathView::empty());
                    assert(lexical(init.drop_last()) =~= PathView::empty());
                    assert(before =~= seq![path[0]]);
                }
            }
        }
    }
}

/// Law: normalizing a path lexically leaves no `.`, and every `..` in front of all names; a
/// second time changes nothing.
pub proof fn law_lexical_normal_form(path: PathView)
    ensures
        lexical_form(lexical(path)),
        lexical(lexical(path)) == lexical(path),
{
    lemma_lexical_shape(path);
    lemma_lexical_form_stays(lexical(path));
}

/// Law: on a path with a root or a prefix, normalizing lexically carries out every `.` and
/// `..`.
pub proof fn law_lexical_of_rooted_paths(path: PathView)
    requires
        path.len() > 0,
        path[0] is RootDir || path[0] is Prefix,
    ensures
        lexical(path) == collapse(path),
        collapse(path).len() > 0,
        collapse(path)[0] == path[0],
    decreases path.len(),
{
    let init = path.drop_last();
    if path.len() == 1 {
        assert(init =~= PathView::empty());
        assert(collapse(init) =~= PathView::empty());
        assert(lexical(init) =~= PathView::empty());
        assert(path.last() == path[0]);
    } else {
        assert(init[0] == path[0]);
        law_lexical_of_rooted_paths(init);
        lemma_lexical_shape(init);
        let before = lexical(init);
        assert(before.last() == before[before.len() - 1]);
        lemma_no_parent_behind(before, before.len() - 1);
    }
}

/// In lexical form, a path that does not begin with a `..` holds none.
proof fn lemma_no_parent_behind(path: PathView, i: int)
    requires
        lexical_form(path),
        0 <= i < path.len(),
        !(path[0] is ParentDir),
    ensures
        !(path[i] is ParentDir),
    decreases i,
{
    if i > 0 {
        lemma_no_parent_behind(path, i - 1);
    }
}

/// Paths that normalize to the same path still do with more behind them.
pub proof fn lemma_lexical_append(a: PathView, b: PathView, tail: PathView)
    requires
        lexical(a) == lexical(b),
    ensures
        lexical(a + tail) == lexical(b + tail),
    decreases tail.len(),
{
    if tail.len() == 0 {
        assert(a + tail =~= a);
        assert(b + tail =~= b);
    } else {
        lemma_lexical_append(a, b, tail.drop_last());
        assert((a + tail).drop_last() =~= a + tail.drop_last());
        assert((b + tail).drop_last() =~= b + tail.drop_last());
        assert((a + tail).last() == tail.last());
        assert((b + tail).last() == tail.last());
    }
}

/// Law: neither a `.` nor a name that a `..` takes back makes a difference to the path that
/// normalizing lexically gives.
pub proof fn law_redundant_components_vanish(path: PathView, name: Seq<char>, tail: PathView)
    ensures
        lexical(path + seq![Component::CurDir] + tail) == lexical(path + tail),
        lexical(path + seq![Component::Normal(name), Component::ParentDir] + tail) == lexical(
            path + tail,
        ),
{
    let dotted = path + seq![Component::CurDir];
    assert(dotted.drop_last() =~= path);
    lemma_lexical_append(dotted, path, tail);
    let named = path + seq![Component::Normal(name)];
    let back = path + seq![Component::Normal(name), Component::ParentDir];
    assert(named.drop_last() =~= path);
    assert(back.drop_last() =~= named);
    assert(lexical(named) == lexical(path).push(Component::Normal(name)));
    assert(lexical(back) =~= lexical(path));
    lemma_lexical_append(back, path, tail);
}

// ---------------------------------------------------------------------------------------
// Comparing and joining
// ---------------------------------------------------------------------------------------

/// Law: every path is the same as itself.
pub proof fn law_same_path_reflexive(path: PathView)
    ensures
        same_path(path, path),
{
}

/// Law: sameness of paths is an equivalence.
pub proof fn law_same_path_equivalence(a: PathView, b: PathView, c: PathView)
    requires
        same_path(a, b),
    ensures
        same_path(b, a),
        same_path(b, c) ==> same_path(a, c),
{
    assert forall|i: int| 0 <= i < b.len() implies #[trigger] same_component(b[i], a[i]) by {
        assert(same_component(a[i], b[i]));
    }
    if same_path(b, c) {
        assert forall|i: int| 0 <= i < a.len() implies #[trigger] same_component(a[i], c[i]) by {
            assert(same_component(a[i], b[i]));
            assert(same_component(b[i], c[i]));
        }
    }
}

/// Law: on every platform but Windows, paths are the same only if they are equal.
pub proof fn law_same_path_is_equality(platform: Platform, a: PathView, b: PathView)
    requires
        platform != Platform::Windows,
        valid_path(platform, a),
        same_path(a, b),
    ensures
        a == b,
{
    assert forall|i: int| 0 <= i < a.len() implies a[i] == b[i] by {
        assert(well_placed(platform, a, i));
        assert(same_component(a[i], b[i]));
    }
    assert(a =~= b);
}

/// The root that a path implies stands behind what the path begins with.
proof fn lemma_implied_root_behind(path: PathView, tail: PathView)
    requires
        !implies_root(path),
    ensures
        path_starts_with(with_implied_root(path + tail), path),
{
    let whole = path + tail;
    law_same_path_reflexive(path);
    if implies_root(whole) && path.len() > 1 {
        assert(whole[0] == path[0] && whole[1] == path[1]);
    }
    assert(with_implied_root(whole).take(path.len() as int) =~= path);
}

/// Law: a relative path, seen from another path, lies below it. On Windows a path with a verbatim
/// prefix is left out, since a `..` is carried out there.
pub proof fn law_joined_paths_lie_below(platform: Platform, path: PathView, tail: PathView)
    requires
        path.len() > 0,
        !(platform == Platform::Windows && verbatim(path)),
        !implies_root(path),
        tail.len() > 0 ==> !(tail[0] is RootDir) && !(tail[0] is Prefix),
    ensures
        path_starts_with(joined(platform, path, tail), path),
        joined(platform, path, tail) == with_implied_root(path + without_leading_dot(tail)),
{
    lemma_implied_root_behind(path, without_leading_dot(tail));
    let whole = path + without_leading_dot(tail);
    assert(whole.take(path.len() as int) =~= path);
}

/// Whether `path` is made of names alone.
pub open spec fn all_names(path: PathView) -> bool {
    forall|i: int| 0 <= i < path.len() ==> is_name(#[trigger] path[i])
}

/// Taking in one list after another is taking in both.
pub proof fn lemma_collapse_onto_append(start: PathView, a: PathView, b: PathView)
    ensures
        collapse_onto(start, a + b) == collapse_onto(collapse_onto(start, a), b),
    decreases b.len(),
{
    if b.len() == 0 {
        assert(a + b =~= a);
    } else {
        lemma_collapse_onto_append(start, a, b.drop_last());
        assert((a + b).drop_last() =~= a + b.drop_last());
        assert((a + b).last() == b.last());
    }
}

/// Names are taken in as they are.
pub proof fn lemma_collapse_onto_names(start: PathView, names: PathView)
    requires
        all_names(names),
    ensures
        collapse_onto(start, names) == start + names,
    decreases names.len(),
{
    if names.len() == 0 {
        assert(start + names =~= start);
    } else {
        let init = names.drop_last();
        assert forall|i: int| 0 <= i < init.len() implies is_name(#[trigger] init[i]) by {
            assert(init[i] == names[i]);
        }
        lemma_collapse_onto_names(start, init);
        assert(names.last() == names[names.len() - 1]);
        assert((start + init).push(names.last()) =~= start + names);
    }
}

/// Law: names seen from a path are appended to it, on every platform. Behind a bare prefix that is
/// no plain drive they come with a root.
pub proof fn law_names_are_appended(platform: Platform, path: PathView, names: PathView)
    requires
        all_names(names),
    ensures
        joined(platform, path, names) == with_implied_root(path + names),
        !implies_root(path) ==> path_starts_with(joined(platform, path, names), path),
{
    if !implies_root(path) {
        lemma_implied_root_behind(path, names);
    }
    lemma_collapse_onto_names(path, names);
    if names.len() > 0 {
        assert(is_name(names[0]));
    }
    if path.len() == 0 {
        assert(path + names =~= names);
    }
    assert((path + names).take(path.len() as int) =~= path);
    law_same_path_reflexive(path);
}

/// Law: a path that begins with another one is the rest as seen from that one.
pub proof fn law_stripped_paths_join_back(platform: Platform, path: PathView, base: PathView)
    requires
        platform != Platform::Windows,
        valid_path(platform, path),
        path_starts_with(path, base),
    ensures
        joined(platform, base, path.skip(base.len() as int)) == path,
{
    if path.len() > 0 {
        assert(well_placed(platform, path, 0));
    }
    let rest = path.skip(base.len() as int);
    let head = path.take(base.len() as int);
    assert forall|i: int| 0 <= i < base.len() implies head[i] == base[i] by {
        assert(well_placed(platform, path, i));
        assert(same_component(head[i], base[i]));
    }
    assert(head =~= base);
    if rest.len() > 0 {
        assert(well_placed(platform, path, base.len() as int));
        assert(rest[0] == path[base.len() as int]);
    }
    assert(base + rest =~= path);
}

proof fn lemma_collapse_onto_valid(platform: Platform, start: PathView, tail: PathView)
    requires
        placed(platform, start),
        forall|i: int|
            0 <= i < tail.len() ==> (match #[trigger] tail[i] {
                Component::Prefix(_) => false,
                Component::RootDir => i == 0 && start.len() == 1 && start[0] is Prefix,
                Component::Normal(name) => plain_name(platform, name),
                _ => true,
            }),
        start.len() > 0 && start[0] is Prefix,
    ensures
        placed(platform, collapse_onto(start, tail)),
        collapse_onto(start, tail).len() > 0,
        collapse_onto(start, tail)[0] == start[0],
    decreases tail.len(),
{
    if tail.len() > 0 {
        let init = tail.drop_last();
        assert forall|i: int| 0 <= i < init.len() implies (match #[trigger] init[i] {
            Component::Prefix(_) => false,
            Component::RootDir => i == 0 && start.len() == 1 && start[0] is Prefix,
            Component::Normal(name) => plain_name(platform, name),
            _ => true,
        }) by {
            assert(init[i] == tail[i]);
        }
        lemma_collapse_onto_valid(platform, start, init);
        let before = collapse_onto(start, init);
        let whole = collapse_onto(start, tail);
        assert(tail.last() == tail[tail.len() - 1]);
        assert forall|i: int| 0 <= i < whole.len() implies #[trigger] well_placed(
            platform,
            whole,
            i,
        ) by {
            if i < before.len() {
                assert(well_placed(platform, before, i));
                assert(whole[i] == before[i]);
                assert(whole[0] == before[0]);
            } else if tail.last() is RootDir {
                assert(init =~= PathView::empty());
            }
        }
    }
}

/// A path seen from another one has the shape of a path that was read from text.
pub proof fn lemma_joined_valid(platform: Platform, path: PathView, tail: PathView)
    requires
        valid_path(platform, path),
        valid_path(platform, tail),
    ensures
        valid_path(platform, joined(platform, path, tail)),
{
    let whole = attached(platform, path, tail);
    if tail.len() > 0 {
        assert(well_placed(platform, tail, 0));
    }
    if path.len() > 0 {
        assert(well_placed(platform, path, 0));
    }
    if platform == Platform::Windows && tail.len() > 0 && tail[0] is Prefix {
    } else if platform == Platform::Windows && verbatim(path) && tail.len() > 0 {
        let start = if tail[0] is RootDir {
            path.take(1)
        } else {
            path
        };
        assert forall|i: int| 0 <= i < start.len() implies #[trigger] well_placed(
            platform,
            start,
            i,
        ) by {
            assert(well_placed(platform, path, i));
        }
        assert forall|i: int| 0 <= i < tail.len() implies (match #[trigger] tail[i] {
            Component::Prefix(_) => false,
            Component::RootDir => i == 0 && start.len() == 1 && start[0] is Prefix,
            Component::Normal(name) => plain_name(platform, name),
            _ => true,
        }) by {
            assert(well_placed(platform, tail, i));
        }
        lemma_collapse_onto_valid(platform, start, tail);
    } else {
        assert forall|i: int| 0 <= i < whole.len() implies #[trigger] well_placed(
            platform,
            whole,
            i,
        ) by {
            if tail.len() > 0 && tail[0] is RootDir {
                if platform == Platform::Windows && path.len() > 0 && path[0] is Prefix {
                    if i > 0 {
                        assert(well_placed(platform, tail, i - 1));
                        assert(whole[i] == tail[i - 1]);
                    }
                } else {
                    assert(well_placed(platform, tail, i));
                }
            } else if path.len() == 0 {
                assert(well_placed(platform, tail, i));
            } else if i < path.len() {
                assert(well_placed(platform, path, i));
                assert(whole[i] == path[i]);
                assert(whole[0] == path[0]);
            } else {
                let shift = if tail.len() > 0 && tail[0] is CurDir {
                    1int
                } else {
                    0int
                };
                let j = i - path.len() + shift;
                assert(well_placed(platform, tail, j));
                assert(whole[i] == tail[j]);
            }
        }
    }
    if implies_root(whole) {
        let full = with_implied_root(whole);
        assert forall|i: int| 0 <= i < full.len() implies #[trigger] well_placed(
            platform,
            full,
            i,
        ) by {
            if i == 0 {
                assert(well_placed(platform, whole, 0));
            } else if i > 1 {
                assert(well_placed(platform, whole, i - 1));
                assert(full[i] == whole[i - 1]);
                if i == 2 {
                    assert(takes_separator(whole[1]));
                }
            }
        }
    }
}

// ---------------------------------------------------------------------------------------
// What the user wrote
// ---------------------------------------------------------------------------------------

/// Law: a path that the user wrote, once normalized, is absolute and holds no `.` and no `..`.
pub proof fn law_normalized_paths_are_absolute(env: EnvironmentView, raw: Seq<char>)
    requires
        env.home matches Some(home) ==> valid_path(env.platform, home.path),
    ensures
        normalized(env, raw) matches Ok(path) ==> valid_path(env.platform, path) && absolute(
            env.platform,
            path,
        ) && dot_free(path),
{
    let text = trimmed(raw);
    law_read_paths_are_valid(env.platform, text);
    law_read_paths_are_valid(env.platform, text.skip(2));
    if let Some(home) = env.home {
        lemma_joined_valid(env.platform, home.path, components_of(env.platform, text.skip(2)));
    }
    if let Ok(path) = expanded(env, text) {
        law_collapsed_paths_are_dot_free(env.platform, path);
    }
}

/// Whether `text`, once it is stored, stands for `path`.
pub open spec fn stands_for(env: EnvironmentView, text: Seq<char>, path: PathView) -> bool {
    normalized(env, text) == Ok::<PathView, PathError>(path)
}

/// Whether `path` is stored as a text that stands for it.
pub open spec fn reads_back(env: EnvironmentView, path: PathView) -> bool {
    stands_for(env, text_of(env.platform, path), path)
}

/// A text with no white space at either end is trimmed already.
proof fn lemma_trimmed_stays(text: Seq<char>)
    requires
        text.len() > 0,
        !white_space(text[0]),
        !white_space(text.last()),
    ensures
        trimmed(text) == text,
{
}

/// The text of a path ends as its last component does.
proof fn lemma_text_end(platform: Platform, path: PathView)
    requires
        path.len() > 0,
        component_text(platform, path.last()).len() > 0,
    ensures
        text_of(platform, path).len() > 0,
        text_of(platform, path).last() == component_text(platform, path.last()).last(),
{
}

/// Law: on every platform but Windows, an absolute path without `.` and `..` is stored as a text
/// that stands for it, if its names are Unicode, and unless the last one ends in white space.
pub proof fn law_normalized_paths_read_back(env: EnvironmentView, path: PathView)
    requires
        env.platform != Platform::Windows,
        valid_path(env.platform, path),
        unicode_path(path),
        absolute(env.platform, path),
        dot_free(path),
        !white_space(component_text(env.platform, path.last()).last()),
    ensures
        reads_back(env, path),
{
    law_text_reads_back(env.platform, path);
    assert(well_placed(env.platform, path, path.len() - 1));
    lemma_text_end(env.platform, path);
    lemma_trimmed_stays(text_of(env.platform, path));
    law_dot_free_paths_stay(path);
}

/// Law: on Windows, an absolute path without `.` and `..` is stored as a text that stands for it,
/// if it is one that text can name without loss, and unless it ends in white space.
pub proof fn law_normalized_windows_paths_read_back(env: EnvironmentView, path: PathView)
    requires
        env.platform == Platform::Windows,
        windows_readable(path),
        absolute(env.platform, path),
        dot_free(path),
        !white_space(component_text(env.platform, path.last()).last()),
    ensures
        reads_back(env, path),
{
    law_windows_text_reads_back(path);
    assert(path.last() == path[path.len() - 1]);
    lemma_text_end(env.platform, path);
    lemma_text_begin(env.platform, path);
    lemma_trimmed_stays(text_of(env.platform, path));
    law_dot_free_paths_stay(path);
}

/// The text of a path begins as its first component does.
proof fn lemma_text_begin(platform: Platform, path: PathView)
    requires
        path.len() > 0,
        component_text(platform, path[0]).len() > 0,
    ensures
        text_of(platform, path).len() > 0,
        text_of(platform, path)[0] == component_text(platform, path[0])[0],
    decreases path.len(),
{
    if path.len() == 1 {
        lemma_single_text(platform, path[0]);
        assert(path =~= seq![path[0]]);
    } else {
        assert(path.drop_last()[0] == path[0]);
        lemma_text_begin(platform, path.drop_last());
    }
}

/// Whether a text begins with a `~` that stands for home.
pub open spec fn begins_at_home(text: Seq<char>) -> bool {
    text == seq!['~'] || (text.len() >= 2 && text[0] == '~' && (text[1] == '/' || text[1] == '\\'))
}

proof fn lemma_trim_end_shortens(text: Seq<char>)
    ensures
        trim_end(text).len() <= text.len(),
    decreases text.len(),
{
    if text.len() > 0 && white_space(text.last()) {
        lemma_trim_end_shortens(text.drop_last());
    }
}

/// On every platform but Windows, a text names an absolute path if and only if it begins with `/`.
proof fn lemma_absolute_texts(platform: Platform, text: Seq<char>)
    requires
        platform != Platform::Windows,
    ensures
        absolute(platform, components_of(platform, text)) <==> text.len() > 0 && text[0] == '/',
{
    let syntax = Syntax::Slash;
    assert(text.skip(0) =~= text);
    let path = components_of(platform, text);
    if !rooted(platform, text) {
        let names = named_components(syntax, pieces(syntax, text));
        lemma_pieces_shape(syntax, text);
        lemma_named_components_plain(platform, syntax, pieces(syntax, text));
        if leading_dot(syntax, text) {
            assert(path[0] is CurDir);
        } else {
            assert(path =~= names);
        }
    }
}

/// A path seen from an absolute one is absolute, unless it comes with a prefix of its own.
pub proof fn lemma_joined_absolute(platform: Platform, path: PathView, tail: PathView)
    requires
        valid_path(platform, path),
        valid_path(platform, tail),
        absolute(platform, path),
        tail.len() > 0 && tail[0] is Prefix ==> absolute(platform, tail),
    ensures
        absolute(platform, joined(platform, path, tail)),
{
    assert(well_placed(platform, path, 0));
    if tail.len() > 0 {
        assert(well_placed(platform, tail, 0));
    }
    if platform == Platform::Windows && verbatim(path) && tail.len() > 0 && !(tail[0] is Prefix) {
        let start = if tail[0] is RootDir {
            path.take(1)
        } else {
            path
        };
        assert forall|i: int| 0 <= i < start.len() implies #[trigger] well_placed(
            platform,
            start,
            i,
        ) by {
            assert(well_placed(platform, path, i));
        }
        assert forall|i: int| 0 <= i < tail.len() implies (match #[trigger] tail[i] {
            Component::Prefix(_) => false,
            Component::RootDir => i == 0 && start.len() == 1 && start[0] is Prefix,
            Component::Normal(name) => plain_name(platform, name),
            _ => true,
        }) by {
            assert(well_placed(platform, tail, i));
        }
        lemma_collapse_onto_valid(platform, start, tail);
    }
}

/// Law: with home known, a path that the user wrote is refused if and only if nothing but white
/// space is left of it, or it is not absolute and does not begin at home. What is accepted is
/// absolute and holds no `.` and no `..`. On Windows a drive behind the `~` is left out: it stands
/// for a place of its own.
pub proof fn law_which_paths_are_accepted(env: EnvironmentView, raw: Seq<char>)
    requires
        env.home matches Some(home) && valid_path(env.platform, home.path) && absolute(
            env.platform,
            home.path,
        ),
        env.platform == Platform::Windows && trimmed(raw).len() >= 2 && begins_at_home(trimmed(raw))
            ==> prefix_len(env.platform, trimmed(raw).skip(2)) == 0,
    ensures
        ({
            let text = trimmed(raw);
            let result = normalized(env, raw);
            &&& result is Err <==> text.len() == 0 || !(begins_at_home(text) || absolute(
                env.platform,
                components_of(env.platform, text),
            ))
            &&& result is Err ==> result->Err_0 == (if text.len() == 0 {
                PathError::Empty
            } else {
                PathError::NotAbsolute
            })
            &&& result matches Ok(path) ==> {
                &&& valid_path(env.platform, path)
                &&& absolute(env.platform, path)
                &&& dot_free(path)
            }
        }),
{
    let platform = env.platform;
    let text = trimmed(raw);
    let home = env.home->0.path;
    law_normalized_paths_are_absolute(env, raw);
    if text.len() >= 2 && begins_at_home(text) {
        let tail_text = text.skip(2);
        let tail = components_of(platform, tail_text);
        law_read_paths_are_valid(platform, tail_text);
        if tail.len() > 0 {
            assert(well_placed(platform, tail, 0));
            if tail[0] is Prefix {
                lemma_pieces_shape(syntax_of(platform, tail_text), tail_text);
                lemma_named_components_plain(
                    platform,
                    syntax_of(platform, tail_text),
                    pieces(syntax_of(platform, tail_text), tail_text),
                );
                assert(tail_text.skip(0) =~= tail_text);
                assert(false);
            }
        }
        lemma_joined_absolute(platform, home, tail);
    }
    if text == seq!['~'] {
        assert(begins_at_home(text));
    }
}

/// Law: on every platform but Windows, a text is absolute if and only if it begins with `/`, and
/// what is accepted is stored as a text that stands for it, unless that text ends in white space
/// or home holds a name that is not Unicode.
pub proof fn law_accepted_paths_can_be_stored(env: EnvironmentView, raw: Seq<char>)
    requires
        env.platform != Platform::Windows,
        env.home matches Some(home) ==> valid_path(env.platform, home.path),
    ensures
        absolute(env.platform, components_of(env.platform, raw)) <==> raw.len() > 0 && raw[0]
            == '/',
        normalized(env, raw) matches Ok(path) ==> (unicode_path(path) && trimmed(
            text_of(env.platform, path),
        ) == text_of(env.platform, path) ==> reads_back(env, path)),
{
    let platform = env.platform;
    law_normalized_paths_are_absolute(env, raw);
    lemma_absolute_texts(platform, raw);
    if let Ok(path) = normalized(env, raw) {
        let written = text_of(platform, path);
        if unicode_path(path) && trimmed(written) == written {
            law_text_reads_back(platform, path);
            assert(well_placed(platform, path, path.len() - 1));
            lemma_text_end(platform, path);
            assert(trim_start(written) == written);
            lemma_trim_end_shortens(written.drop_last());
            law_normalized_paths_read_back(env, path);
        }
    }
}

} // verus!
