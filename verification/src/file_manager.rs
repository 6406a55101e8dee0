//! Showing a path in the operating system's file manager.
//!
//! The command is put together here and run elsewhere, so that every platform's command can
//! be looked at without a file manager opening.

use vstd::prelude::*;
use vstd::string::*;

use crate::paths::{components_of, parent_of, Platform, RepoPath};
use crate::places::{beginning_naming, shortest_naming};
use crate::state::texts;

verus! {

/// What to do with the path.
#[derive(Debug, Clone, Copy, PartialEq, Eq, Structural)]
pub enum FileManagerAction {
    /// Show what a directory holds.
    OpenDir,
    /// Show the directory that holds this entry, with the entry selected where the file
    /// manager can do that.
    RevealItem,
}

/// The directory that holds the entry `text`, written as in `text` itself; the entry where
/// nothing holds it. A single relative name lies in the current directory, which is written `.`
/// so that there is something to open.
pub open spec fn containing_dir(text: Seq<char>) -> Seq<char> {
    match parent_of(components_of(Platform::Other, text)) {
        Some(parent) => if parent.len() == 0 {
            seq!['.']
        } else {
            text.take(shortest_naming(Platform::Other, text, parent, 0))
        },
        None => text,
    }
}

fn containing_dir_text(text: &str) -> (r: String)
    ensures
        r@ == containing_dir(text@),
{
    let parent = match RepoPath::parse(text, Platform::Other).parent() {
        Some(parent) => parent,
        None => {
            return text.to_owned();
        },
    };
    if parent.components.len() == 0 {
        proof {
            reveal_strlit(".");
        }
        assert("."@ =~= seq!['.']);
        return ".".to_owned();
    }
    beginning_naming(text, &parent, Platform::Other)
}

/// The program that opens directories on `platform`.
pub open spec fn file_manager_program(platform: Platform) -> Seq<char> {
    match platform {
        Platform::MacOs => "open"@,
        Platform::Windows => "explorer"@,
        Platform::Other => "xdg-open"@,
    }
}

/// The arguments that make the program carry out `action`. None of them is quoted.
pub open spec fn file_manager_arguments(
    platform: Platform,
    action: FileManagerAction,
    path: Seq<char>,
) -> Seq<Seq<char>> {
    match (platform, action) {
        (_, FileManagerAction::OpenDir) => seq![path],
        (Platform::MacOs, FileManagerAction::RevealItem) => seq!["-R"@, path],
        (Platform::Windows, FileManagerAction::RevealItem) => seq!["/select,"@ + path],
        (Platform::Other, FileManagerAction::RevealItem) => seq![containing_dir(path)],
    }
}

fn one_argument(text: String) -> (r: Vec<String>)
    ensures
        texts(r@) == seq![text@],
{
    let mut args: Vec<String> = Vec::new();
    args.push(text);
    assert(texts(args@) =~= seq![text@]);
    args
}

/// The program and the arguments for an action, without running anything. Arguments are not
/// quoted: whoever starts the program escapes them, and quotes put on here would end up in
/// the path.
pub fn file_manager_command(path: &str, action: FileManagerAction, platform: Platform) -> (r: (
    String,
    Vec<String>,
))
    ensures
        r.0@ == file_manager_program(platform),
        texts(r.1@) == file_manager_arguments(platform, action, path@),
{
    match platform {
        Platform::MacOs => match action {
            FileManagerAction::OpenDir => ("open".to_owned(), one_argument(path.to_owned())),
            FileManagerAction::RevealItem => {
                let mut args = one_argument("-R".to_owned());
                let ghost flag = texts(args@);
                args.push(path.to_owned());
                assert(texts(args@) =~= flag.push(path@));
                assert(texts(args@) =~= seq!["-R"@, path@]);
                ("open".to_owned(), args)
            },
        },
        Platform::Windows => match action {
            FileManagerAction::OpenDir => ("explorer".to_owned(), one_argument(path.to_owned())),
            FileManagerAction::RevealItem => {
                let mut selection = "/select,".to_owned();
                selection.append(path);
                ("explorer".to_owned(), one_argument(selection))
            },
        },
        Platform::Other => match action {
            FileManagerAction::OpenDir => ("xdg-open".to_owned(), one_argument(path.to_owned())),
            FileManagerAction::RevealItem => (
                "xdg-open".to_owned(),
                one_argument(containing_dir_text(path)),
            ),
        },
    }
}

} // verus!
