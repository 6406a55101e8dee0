//! What holds of the commands for the file manager.

use vstd::prelude::*;

use crate::file_manager::{
    containing_dir, file_manager_arguments, file_manager_program, FileManagerAction,
};
use crate::path_laws::{
    law_read_paths_are_valid, law_same_path_is_equality, law_same_path_reflexive,
};
use crate::paths::{
    components_of, leading_dot, named_components, parent_of, piece_components, pieces, same_path,
    Component, PathView, Platform, Syntax,
};
use crate::places::shortest_naming;

verus! {

/// The part of a text that names are read from: all of it but a root.
pub open spec fn body_of(text: Seq<char>) -> Seq<char> {
    if text.len() > 0 && text[0] == '/' {
        text.skip(1)
    } else {
        text
    }
}

/// What stands in front of the names: a root or a `.`, if there is one.
pub open spec fn lead_of(text: Seq<char>) -> PathView {
    if text.len() > 0 && text[0] == '/' {
        seq![Component::RootDir]
    } else if leading_dot(Syntax::Slash, text) {
        seq![Component::CurDir]
    } else {
        seq![]
    }
}

/// What the names of a text contribute.
pub open spec fn names_of(text: Seq<char>) -> PathView {
    named_components(Syntax::Slash, pieces(Syntax::Slash, body_of(text)))
}

proof fn lemma_reading(text: Seq<char>)
    ensures
        components_of(Platform::Other, text) == lead_of(text) + names_of(text),
{
    assert(text.skip(0) =~= text);
    assert(components_of(Platform::Other, text) =~= lead_of(text) + names_of(text));
}

/// The pieces of a text that is not empty, seen from the text without its last character.
proof fn lemma_last_character(text: Seq<char>)
    requires
        text.len() > 0,
    ensures
        pieces(Syntax::Slash, text.drop_last()).len() > 0,
        ({
            let list = pieces(Syntax::Slash, text.drop_last());
            let before = named_components(Syntax::Slash, list.drop_last());
            let names = named_components(Syntax::Slash, pieces(Syntax::Slash, text));
            &&& named_components(Syntax::Slash, list) == before + piece_components(
                Syntax::Slash,
                list.last(),
            )
            &&& text.last() == '/' ==> names == named_components(Syntax::Slash, list)
            &&& text.last() != '/' ==> names == before + piece_components(
                Syntax::Slash,
                list.last().push(text.last()),
            )
        }),
    decreases text.len(),
{
    let init = text.drop_last();
    if init.len() > 0 {
        lemma_last_character(init);
    }
    let list = pieces(Syntax::Slash, init);
    let whole = pieces(Syntax::Slash, text);
    if text.last() == '/' {
        assert(whole.drop_last() =~= list);
        assert(named_components(Syntax::Slash, whole) =~= named_components(Syntax::Slash, list));
    } else {
        assert(whole.drop_last() =~= list.drop_last());
    }
}

/// Some beginning of a text names the directory that holds what the text names.
pub proof fn lemma_some_beginning_names_parent(text: Seq<char>) -> (n: int)
    requires
        parent_of(components_of(Platform::Other, text)) is Some,
    ensures
        0 <= n < text.len(),
        components_of(Platform::Other, text.take(n)) == parent_of(
            components_of(Platform::Other, text),
        )->0,
    decreases text.len(),
{
    let path = components_of(Platform::Other, text);
    let parent = path.drop_last();
    lemma_reading(text);
    lemma_reading(Seq::<char>::empty());
    lemma_no_names();
    if text.len() == 0 {
        assert(text =~= Seq::<char>::empty());
        assert(path =~= PathView::empty());
        0
    } else if text.len() == 1 {
        // A root has no parent, so it is a name or a dot.
        lemma_single_character(text);
        assert(text.take(0) =~= Seq::<char>::empty());
        assert(parent =~= PathView::empty());
        0
    } else {
        let init = text.drop_last();
        let shorter = components_of(Platform::Other, init);
        let body = body_of(text);
        lemma_reading(init);
        assert(init[0] == text[0]);
        assert(body_of(init) =~= body.drop_last());
        assert(body.last() == text.last());
        lemma_last_character(body);
        let list = pieces(Syntax::Slash, body.drop_last());
        let before = named_components(Syntax::Slash, list.drop_last());
        let old_names = piece_components(Syntax::Slash, list.last());
        let grown = list.last().push(text.last());
        let new_names = piece_components(Syntax::Slash, grown);
        assert(text.take(text.len() - 1) =~= init);
        if init == seq!['.'] && text.last() != '/' {
            // What stands behind the dot makes it a name.
            lemma_pieces_of_dot();
            assert(text.take(0) =~= Seq::<char>::empty());
            assert(list.drop_last() =~= Seq::<Seq<char>>::empty());
            assert(before =~= PathView::empty());
            assert(path =~= new_names);
            assert(parent =~= PathView::empty());
            0
        } else {
            assert(lead_of(text) == lead_of(init)) by {
                if text.len() == 2 {
                    if init[0] == '.' {
                        assert(init =~= seq!['.']);
                    }
                } else {
                    assert(init[1] == text[1]);
                }
            }
            if text.last() != '/' && new_names.len() > 0 && old_names.len() == 0 {
                assert(path =~= lead_of(text) + before + new_names);
                assert(shorter =~= parent);
                text.len() - 1
            } else {
                if text.last() == '/' {
                    assert(path =~= shorter);
                } else {
                    assert(path =~= lead_of(text) + before + new_names);
                    assert(shorter =~= lead_of(text) + before + old_names);
                    if new_names.len() == 0 {
                        assert(grown =~= seq!['.']);
                        assert(path =~= shorter);
                    } else {
                        assert(shorter.drop_last() =~= parent);
                        assert(shorter.last() == old_names[0]);
                    }
                }
                let n = lemma_some_beginning_names_parent(init);
                assert(text.take(n) =~= init.take(n));
                n
            }
        }
    }
}

/// One character names a root, the current directory or one name.
proof fn lemma_single_character(text: Seq<char>)
    requires
        text.len() == 1,
    ensures
        components_of(Platform::Other, text).len() == 1,
{
    lemma_reading(text);
    lemma_no_names();
    if text[0] == '/' {
        assert(body_of(text) =~= Seq::<char>::empty());
    } else {
        lemma_last_character(text);
        assert(text.drop_last() =~= Seq::<char>::empty());
        assert(pieces(Syntax::Slash, text.drop_last()) =~= seq![Seq::<char>::empty()]);
        let list = pieces(Syntax::Slash, text.drop_last());
        assert(list.drop_last() =~= Seq::<Seq<char>>::empty());
        assert(named_components(Syntax::Slash, list.drop_last()) =~= PathView::empty());
        assert(Seq::<char>::empty().push(text.last()) =~= text);
        if text[0] == '.' {
            assert(text =~= seq!['.']);
        } else if text == seq!['.'] {
            assert(text[0] == '.');
        }
    }
}

proof fn lemma_no_names()
    ensures
        named_components(Syntax::Slash, pieces(Syntax::Slash, Seq::<char>::empty()))
            == PathView::empty(),
{
    let list = pieces(Syntax::Slash, Seq::<char>::empty());
    assert(list =~= seq![Seq::<char>::empty()]);
    assert(list.drop_last() =~= Seq::<Seq<char>>::empty());
    assert(named_components(Syntax::Slash, list.drop_last()) =~= PathView::empty());
    assert(named_components(Syntax::Slash, list) =~= PathView::empty());
}

proof fn lemma_pieces_of_dot()
    ensures
        pieces(Syntax::Slash, seq!['.']) == seq![seq!['.']],
{
    let dot = seq!['.'];
    assert(dot.drop_last() =~= Seq::<char>::empty());
    assert(pieces(Syntax::Slash, Seq::<char>::empty()) =~= seq![Seq::<char>::empty()]);
    assert(Seq::<char>::empty().push('.') =~= dot);
    assert(pieces(Syntax::Slash, dot) =~= seq![dot]);
}

/// The search for the shortest beginning that names a path finds one where there is one.
pub proof fn lemma_shortest_naming(
    platform: Platform,
    text: Seq<char>,
    path: PathView,
    from: int,
    n: int,
)
    requires
        0 <= from <= n < text.len(),
        same_path(components_of(platform, text.take(n)), path),
    ensures
        from <= shortest_naming(platform, text, path, from) <= n,
        same_path(
            components_of(platform, text.take(shortest_naming(platform, text, path, from))),
            path,
        ),
    decreases text.len() - from,
{
    if !same_path(components_of(platform, text.take(from)), path) {
        lemma_shortest_naming(platform, text, path, from + 1, n);
    }
}

/// Law: where an entry cannot be selected, the directory that is opened is the one that holds it,
/// and the current directory for a single relative name; what nothing holds stands for itself.
pub proof fn law_revealing_opens_the_parent(text: Seq<char>)
    ensures
        match parent_of(components_of(Platform::Other, text)) {
            Some(parent) => if parent.len() == 0 {
                containing_dir(text) == seq!['.']
            } else {
                components_of(Platform::Other, containing_dir(text)) == parent
            },
            None => containing_dir(text) == text,
        },
{
    if let Some(parent) = parent_of(components_of(Platform::Other, text)) {
        if parent.len() > 0 {
            let n = lemma_some_beginning_names_parent(text);
            law_same_path_reflexive(parent);
            lemma_shortest_naming(Platform::Other, text, parent, 0, n);
            law_read_paths_are_valid(Platform::Other, containing_dir(text));
            law_same_path_is_equality(
                Platform::Other,
                components_of(Platform::Other, containing_dir(text)),
                parent,
            );
        }
    }
}

/// A directory that is not the empty path is not written as an empty text.
proof fn lemma_named_by_some_text(text: Seq<char>)
    requires
        components_of(Platform::Other, text).len() > 0,
    ensures
        text.len() > 0,
{
    if text.len() == 0 {
        assert(text =~= Seq::<char>::empty());
        lemma_reading(text);
        lemma_no_names();
    }
}

/// Law: every command has an argument, and none of its arguments is empty, on whatever platform
/// and for whatever path that is not empty itself.
pub proof fn law_arguments_are_never_empty(
    platform: Platform,
    action: FileManagerAction,
    path: Seq<char>,
)
    requires
        path.len() > 0,
    ensures
        file_manager_arguments(platform, action, path).len() > 0,
        forall|i: int|
            0 <= i < file_manager_arguments(platform, action, path).len() ==> (
            #[trigger] file_manager_arguments(platform, action, path)[i]).len() > 0,
{
    reveal_strlit("-R");
    reveal_strlit("/select,");
    if platform == Platform::Other && action == FileManagerAction::RevealItem {
        law_revealing_opens_the_parent(path);
        if let Some(parent) = parent_of(components_of(Platform::Other, path)) {
            if parent.len() > 0 {
                lemma_named_by_some_text(containing_dir(path));
            }
        }
    }
}

/// Law: each platform has its own program, and every path is handed over as it is, unquoted: to be
/// opened as the only argument, and to be revealed behind `-R` on macOS, in one argument behind
/// `/select,` on Windows, and by its containing directory elsewhere.
pub proof fn law_paths_are_handed_over_as_they_are(
    platform: Platform,
    action: FileManagerAction,
    path: Seq<char>,
)
    ensures
        file_manager_program(platform) == (match platform {
            Platform::MacOs => "open"@,
            Platform::Windows => "explorer"@,
            Platform::Other => "xdg-open"@,
        }),
        action == FileManagerAction::OpenDir ==> file_manager_arguments(platform, action, path)
            == seq![path],
        action == FileManagerAction::RevealItem && platform == Platform::MacOs
            ==> file_manager_arguments(platform, action, path) == seq!["-R"@, path],
        action == FileManagerAction::RevealItem && platform == Platform::Windows
            ==> file_manager_arguments(platform, action, path) == seq!["/select,"@ + path],
        action == FileManagerAction::RevealItem && platform == Platform::Other
            ==> file_manager_arguments(platform, action, path) == seq![containing_dir(path)],
{
}

/// Law: the directory that is opened in place of an entry is spelled as in the entry itself, unless
/// the entry is a single relative name.
pub proof fn law_the_containing_directory_keeps_its_spelling(text: Seq<char>)
    ensures
        containing_dir(text) == seq!['.'] || containing_dir(text) == text.take(
            containing_dir(text).len() as int,
        ),
        containing_dir(text).len() <= text.len() || containing_dir(text) == seq!['.'],
{
    if let Some(parent) = parent_of(components_of(Platform::Other, text)) {
        if parent.len() > 0 {
            let n = lemma_some_beginning_names_parent(text);
            law_same_path_reflexive(parent);
            lemma_shortest_naming(Platform::Other, text, parent, 0, n);
        }
    } else {
        assert(text.take(text.len() as int) =~= text);
    }
}

} // verus!
