//! What holds of spellings: they name the paths that they stand for.

use vstd::prelude::*;
use vstd::utf8::encode_utf8;

use crate::environment::named_place;
use crate::file_manager_laws::{lemma_shortest_naming, lemma_some_beginning_names_parent};
use crate::os_text::{
    byte_pieces, bytes_behind, decodable, naming_pieces, separator_byte, OsTextView,
};
use crate::path_laws::{
    law_read_paths_are_unicode, law_read_paths_are_valid, law_same_path_is_equality,
    law_same_path_reflexive, lemma_named_components_around, lemma_pieces_append, lemma_pieces_next,
    lemma_single_piece, plain_name, well_placed,
};
use crate::paths::{
    child_of, components_of, entry_of, leading_dot, marked_component, name_component,
    named_components, os_components, os_names, parent_of, pieces, prefix_bytes, same_path,
    Component, PathView, Platform, Syntax,
};
use crate::places::{
    child_place, os_place, parent_text, shortest_naming, shown_path, spells_gap, PlaceView,
};
use crate::reading_laws::{added_by, law_reading_goes_piece_by_piece};

verus! {

/// Whether a place is spelled as a text that names its path.
pub open spec fn well_spelled(platform: Platform, place: PlaceView) -> bool {
    components_of(platform, place.text) == shown_path(place.path)
}

/// Law: what comes from the system is spelled as a text that names it, with its names as they are
/// shown.
pub proof fn law_places_of_the_system_are_well_spelled(platform: Platform, text: OsTextView)
    ensures
        well_spelled(platform, os_place(platform, text)),
{
    let path = components_of(platform, text.shown);
    law_read_paths_are_unicode(platform, text.shown);
    assert(shown_path(os_place(platform, text).path) =~= path);
}

/// Names behind a separator are read after those in front of it.
proof fn lemma_name_behind(body: Seq<char>, name: Seq<char>)
    requires
        plain_name(Platform::Other, name),
    ensures
        named_components(Syntax::Slash, pieces(Syntax::Slash, body + seq!['/'] + name))
            == named_components(Syntax::Slash, pieces(Syntax::Slash, body)).push(
            Component::Normal(name),
        ),
        named_components(Syntax::Slash, pieces(Syntax::Slash, body + seq!['/']))
            == named_components(Syntax::Slash, pieces(Syntax::Slash, body)),
{
    let syntax = Syntax::Slash;
    let list = pieces(syntax, body);
    let names = named_components(syntax, list);
    let none = Seq::<char>::empty();
    lemma_pieces_next(syntax, body, '/', name);
    lemma_single_piece(syntax, name);
    lemma_named_components_around(syntax, list, seq![name]);
    assert(list + seq![name] =~= list.push(name));
    assert(names + seq![Component::Normal(name)] =~= names.push(Component::Normal(name)));
    lemma_pieces_next(syntax, body, '/', none);
    lemma_single_piece(syntax, none);
    lemma_named_components_around(syntax, list, seq![none]);
    assert(list + seq![none] =~= list.push(none));
    assert(body + seq!['/'] + none =~= body + seq!['/']);
    assert(names + seq![] =~= names);
}

/// A single name is read as that name.
proof fn lemma_lone_name(name: Seq<char>)
    requires
        plain_name(Platform::Other, name),
    ensures
        named_components(Syntax::Slash, pieces(Syntax::Slash, name)) == seq![
            Component::Normal(name),
        ],
        named_components(Syntax::Slash, pieces(Syntax::Slash, Seq::<char>::empty()))
            == PathView::empty(),
        !leading_dot(Syntax::Slash, name),
        name[0] != '/',
{
    let syntax = Syntax::Slash;
    let none = Seq::<char>::empty();
    assert(pieces(syntax, none) =~= seq![none]);
    lemma_single_piece(syntax, none);
    lemma_single_piece(syntax, name);
    lemma_pieces_append(syntax, none, name);
    assert(none + name =~= name);
    assert(pieces(syntax, name) =~= seq![name]);
    if name.len() == 1 && name[0] == '.' {
        assert(name =~= seq!['.']);
    }
}

/// Law: on every platform but Windows, a place below a well spelled one is well spelled.
pub proof fn law_children_are_well_spelled(platform: Platform, place: PlaceView, name: Seq<char>)
    requires
        platform != Platform::Windows,
        well_spelled(platform, place),
        plain_name(platform, name),
    ensures
        well_spelled(platform, child_place(platform, place, name)),
{
    let syntax = Syntax::Slash;
    let text = place.text;
    let path = components_of(platform, text);
    let child = child_place(platform, place, name);
    let whole = child.text;
    law_read_paths_are_valid(platform, text);
    if path.len() > 0 {
        assert(well_placed(platform, path, 0));
        assert(path[0] == shown_path(place.path)[0]);
        assert(!(place.path[0] is Prefix));
    }
    assert(child.path =~= place.path.push(Component::Normal(name)));
    assert(shown_path(child.path) =~= path.push(Component::Normal(name)));
    lemma_lone_name(name);
    assert(text.skip(0) =~= text);
    assert(whole.skip(0) =~= whole);
    if text.len() == 0 {
        assert(text =~= Seq::<char>::empty());
        assert(whole =~= name);
        assert(path =~= PathView::empty());
        assert(components_of(platform, whole) =~= path.push(Component::Normal(name)));
    } else {
        let gap: Seq<char> = if spells_gap(platform, place) {
            seq!['/']
        } else {
            seq![]
        };
        assert(whole =~= text + gap + name);
        assert(whole[0] == text[0]);
        if text[0] == '/' {
            let body = text.skip(1);
            if text.len() == 1 {
                assert(body =~= Seq::<char>::empty());
                assert(whole.skip(1) =~= name);
            } else if text.last() == '/' {
                let front = body.drop_last();
                assert(body =~= front + seq!['/']);
                assert(whole.skip(1) =~= front + seq!['/'] + name);
                lemma_name_behind(front, name);
            } else {
                assert(whole.skip(1) =~= body + seq!['/'] + name);
                lemma_name_behind(body, name);
            }
            assert(components_of(platform, whole) =~= path.push(Component::Normal(name)));
        } else {
            if text.last() == '/' {
                let front = text.drop_last();
                assert(text =~= front + seq!['/']);
                assert(whole =~= front + seq!['/'] + name);
                lemma_name_behind(front, name);
            } else {
                assert(whole =~= text + seq!['/'] + name);
                lemma_name_behind(text, name);
            }
            assert(leading_dot(syntax, whole) == leading_dot(syntax, text)) by {
                if text.len() > 1 {
                    assert(whole[1] == text[1]);
                } else {
                    assert(whole[1] == '/');
                }
            }
            assert(components_of(platform, whole) =~= path.push(Component::Normal(name)));
        }
    }
}

/// Law: on every platform but Windows, the parent of a well spelled place is spelled as a beginning
/// of it that names the parent.
pub proof fn law_parents_are_well_spelled(platform: Platform, place: PlaceView)
    requires
        platform != Platform::Windows,
        well_spelled(platform, place),
        parent_of(place.path) is Some,
    ensures
        components_of(platform, parent_text(platform, place)) == shown_path(
            parent_of(place.path)->0,
        ),
{
    let text = place.text;
    let path = components_of(platform, text);
    let parent = shown_path(parent_of(place.path)->0);
    assert(components_of(Platform::Other, text) == path);
    assert(parent =~= path.drop_last());
    assert(path.last() == shown_path(place.path).last());
    let n = lemma_some_beginning_names_parent(text);
    assert(components_of(platform, text.take(n)) == components_of(Platform::Other, text.take(n)));
    law_read_paths_are_valid(platform, text.take(n));
    law_same_path_reflexive(parent);
    lemma_shortest_naming(platform, text, parent, 0, n);
    let found = text.take(shortest_naming(platform, text, parent, 0));
    law_read_paths_are_valid(platform, found);
    law_same_path_is_equality(platform, components_of(platform, found), parent);
}

/// Law: what comes from the system is known if and only if the system named it, and is spelled as
/// the system shows it.
pub proof fn law_places_of_the_system_keep_their_spelling(
    platform: Platform,
    text: Option<OsTextView>,
)
    ensures
        text is None <==> named_place(platform, text) is None,
        text matches Some(t) ==> {
            &&& named_place(platform, text)->0.text == t.shown
            &&& named_place(platform, text)->0.path == os_components(platform, t)
        },
{
}

/// Law: the parent of a place is spelled as the shortest beginning of the place that names the
/// parent, wherever there is one.
pub proof fn law_parents_are_spelled_as_short_as_can_be(
    platform: Platform,
    place: PlaceView,
    n: int,
)
    requires
        parent_of(place.path) is Some,
        0 <= n < place.text.len(),
        same_path(
            components_of(platform, place.text.take(n)),
            shown_path(parent_of(place.path)->0),
        ),
    ensures
        ({
            let spelled = parent_text(platform, place);
            &&& spelled.len() <= n
            &&& spelled == place.text.take(spelled.len() as int)
            &&& same_path(
                components_of(platform, spelled),
                shown_path(parent_of(place.path)->0),
            )
        }),
{
    let parent = shown_path(parent_of(place.path)->0);
    lemma_shortest_naming(platform, place.text, parent, 0, n);
}

/// Law: a place without a parent stands for itself where its parent is asked for.
pub proof fn law_places_without_a_parent(platform: Platform, place: PlaceView)
    requires
        parent_of(place.path) is None,
    ensures
        parent_text(platform, place) == place.text,
{
}

/// Law: names that are not Unicode are shown as they are shown, and all other components are what
/// they are.
pub proof fn law_paths_are_shown_name_by_name(path: PathView, i: int)
    requires
        0 <= i < path.len(),
    ensures
        shown_path(path).len() == path.len(),
        path[i] matches Component::Foreign { shown, .. } ==> shown_path(path)[i]
            == Component::Normal(shown),
        !(path[i] is Foreign) ==> shown_path(path)[i] == path[i],
{
}

// ---------------------------------------------------------------------------------------
// Names that are not Unicode
// ---------------------------------------------------------------------------------------

/// Law: the name of an entry is told apart by its bytes if and only if it is not Unicode; one that
/// is Unicode is the name that is shown.
pub proof fn law_names_are_unicode_or_foreign(dir: PathView, name: OsTextView)
    ensures
        name.bytes == encode_utf8(name.shown) ==> name_component(name) == Component::Normal(
            name.shown,
        ) && entry_of(dir, name) == child_of(dir, name.shown),
        name.bytes != encode_utf8(name.shown) ==> name_component(name) == (Component::Foreign {
            shown: name.shown,
            bytes: name.bytes,
        }),
{
}

proof fn lemma_byte_pieces_append(syntax: Syntax, bytes: Seq<u8>, tail: Seq<u8>)
    requires
        forall|i: int| 0 <= i < tail.len() ==> !separator_byte(syntax, tail[i]),
    ensures
        byte_pieces(syntax, bytes).len() > 0,
        byte_pieces(syntax, bytes + tail) == byte_pieces(syntax, bytes).drop_last().push(
            byte_pieces(syntax, bytes).last() + tail,
        ),
    decreases bytes.len() + tail.len(),
{
    if tail.len() == 0 {
        assert(bytes + tail =~= bytes);
        if bytes.len() > 0 {
            lemma_byte_pieces_append(syntax, bytes.drop_last(), tail);
        }
        let list = byte_pieces(syntax, bytes);
        assert(list.last() + tail =~= list.last());
        assert(list.drop_last().push(list.last()) =~= list);
    } else {
        let init = tail.drop_last();
        lemma_byte_pieces_append(syntax, bytes, init);
        assert((bytes + tail).drop_last() =~= bytes + init);
        assert((bytes + tail).last() == tail.last());
        let list = byte_pieces(syntax, bytes);
        let before = byte_pieces(syntax, bytes + init);
        assert(before.drop_last() =~= list.drop_last());
        assert((list.last() + init).push(tail.last()) =~= list.last() + tail);
        assert(byte_pieces(syntax, bytes + tail) =~= list.drop_last().push(list.last() + tail));
    }
}

/// Law: on every platform but Windows, a name behind a separator is read as the name that it is,
/// whatever stands before it: by its bytes if it is not Unicode. The whole text is not Unicode.
pub proof fn law_foreign_names_are_read_by_their_bytes(
    platform: Platform,
    dir: OsTextView,
    name: OsTextView,
    whole: OsTextView,
)
    requires
        platform != Platform::Windows,
        dir.shown.len() > 0,
        plain_name(platform, name.shown),
        name.bytes.len() > 0,
        name.bytes != seq![0x2eu8],
        forall|i: int| 0 <= i < name.bytes.len() ==> name.bytes[i] != 0x2f,
        whole.shown == dir.shown + seq!['/'] + name.shown,
        whole.bytes == dir.bytes + seq![0x2fu8] + name.bytes,
        !decodable(whole),
    ensures
        os_components(platform, whole).last() == name_component(name),
        os_components(platform, whole).len() == components_of(platform, dir.shown).len() + 1,
{
    let syntax = Syntax::Slash;
    let path = components_of(platform, whole.shown);
    law_reading_goes_piece_by_piece(platform, dir.shown, '/', name.shown);
    if name.shown.len() == 1 && name.shown[0] == '.' {
        assert(name.shown =~= seq!['.']);
    }
    if name.shown.len() == 2 && name.shown[0] == '.' && name.shown[1] == '.' {
        assert(name.shown =~= seq!['.', '.']);
    }
    assert(added_by(name.shown) == seq![Component::Normal(name.shown)]);
    law_read_paths_are_valid(platform, whole.shown);
    assert(well_placed(platform, path, 0));
    assert(bytes_behind(whole.bytes, prefix_bytes(path)) =~= whole.bytes) by {
        assert(whole.bytes.take(0) =~= seq![]);
        assert(whole.bytes.skip(0) =~= whole.bytes);
    }
    let front = dir.bytes + seq![0x2fu8];
    let list = byte_pieces(syntax, dir.bytes);
    let empty = Seq::<u8>::empty();
    assert(front.drop_last() =~= dir.bytes);
    assert(byte_pieces(syntax, front) == list.push(empty));
    lemma_byte_pieces_append(syntax, front, name.bytes);
    assert(list.push(empty).drop_last() =~= list);
    assert(empty + name.bytes =~= name.bytes);
    let all = byte_pieces(syntax, whole.bytes);
    assert(all =~= list.push(name.bytes));
    assert(all.drop_last() =~= list);
    let names = os_names(platform, whole, path);
    assert(names == naming_pieces(syntax, list).push(name.bytes));
    assert(names.last() == name.bytes);
    assert(path.last() == Component::Normal(name.shown));
    let read = os_components(platform, whole);
    assert(read.last() == marked_component(path, names, path.len() - 1));
}

} // verus!
