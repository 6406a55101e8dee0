//! Paths together with how they are spelled.
//!
//! A path that came from outside, such as the home directory or a library that the session was
//! pinned to, keeps its spelling: repeated separators and inner dots stay in the texts that are
//! stored or shown, though they mean nothing when paths are compared.

use vstd::prelude::*;
use vstd::string::*;

use crate::os_text::{OsText, OsTextView};
use crate::paths::{
    child_of, components_of, has_drive_at, main_separator, os_components, parent_of, plain_drive,
    root_syntax, same_path, separates, text_of, verbatim, Component, PathComponent, PathView,
    Platform, RepoPath,
};
use crate::text::{chars_of, text_between};

verus! {

/// A path and how it is spelled.
#[derive(Debug, PartialEq, Eq)]
pub struct Place {
    pub path: RepoPath,
    pub text: String,
}

/// The value of a [`Place`].
pub struct PlaceView {
    pub path: PathView,
    pub text: Seq<char>,
}

impl View for Place {
    type V = PlaceView;

    open spec fn view(&self) -> PlaceView {
        PlaceView { path: self.path@, text: self.text@ }
    }
}

/// The value of an optional place.
pub open spec fn place_opt(place: Option<Place>) -> Option<PlaceView> {
    match place {
        Some(p) => Some(p@),
        None => None,
    }
}

/// The path of an optional place.
pub open spec fn place_path(place: Option<PlaceView>) -> Option<PathView> {
    match place {
        Some(p) => Some(p.path),
        None => None,
    }
}

/// The place that a text of the system names, spelled as it is shown.
pub open spec fn os_place(platform: Platform, text: OsTextView) -> PlaceView {
    PlaceView { path: os_components(platform, text), text: text.shown }
}

/// The place of a path that is spelled as its components are written.
pub open spec fn plain_place(platform: Platform, path: PathView) -> PlaceView {
    PlaceView { path, text: text_of(platform, path) }
}

/// Whether a separator is spelled between `place` and a name behind it: not where one stands there
/// already, and not behind a bare drive.
pub open spec fn spells_gap(platform: Platform, place: PlaceView) -> bool {
    &&& place.text.len() > 0
    &&& !separates(root_syntax(platform), place.text.last())
    &&& !(platform == Platform::Windows && place.path.len() == 1 && (
    place.path[0] matches Component::Prefix(name) && plain_drive(name)))
}

/// The place `name` below `place`. Behind a verbatim prefix everything is spelled anew.
pub open spec fn child_place(platform: Platform, place: PlaceView, name: Seq<char>) -> PlaceView {
    let path = child_of(place.path, name);
    PlaceView {
        path,
        text: if platform == Platform::Windows && verbatim(place.path) {
            text_of(platform, path)
        } else if spells_gap(platform, place) {
            place.text.push(main_separator(platform)) + name
        } else {
            place.text + name
        },
    }
}

/// `path` with each name as it is shown.
pub open spec fn shown_path(path: PathView) -> PathView {
    Seq::new(
        path.len(),
        |i: int|
            match path[i] {
                Component::Foreign { shown, .. } => Component::Normal(shown),
                other => other,
            },
    )
}

/// The length of the shortest beginning of `text`, of at least `from` characters, that names
/// `path`; the length of `text` where none does.
pub open spec fn shortest_naming(
    platform: Platform,
    text: Seq<char>,
    path: PathView,
    from: int,
) -> int
    decreases text.len() - from,
{
    if from >= text.len() {
        text.len() as int
    } else if same_path(components_of(platform, text.take(from)), path) {
        from
    } else {
        shortest_naming(platform, text, path, from + 1)
    }
}

/// How the parent of `place` is spelled: as the beginning of the place itself. A place without a
/// parent is spelled as it is.
pub open spec fn parent_text(platform: Platform, place: PlaceView) -> Seq<char> {
    match parent_of(place.path) {
        Some(parent) => place.text.take(
            shortest_naming(platform, place.text, shown_path(parent), 0),
        ),
        None => place.text,
    }
}

/// The shortest beginning of `text` that names `path`, or `text` where none does.
pub fn beginning_naming(text: &str, path: &RepoPath, platform: Platform) -> (r: String)
    ensures
        r@ == text@.take(shortest_naming(platform, text@, path@, 0)),
{
    let chars = chars_of(text);
    let mut n: usize = 0;
    while n < chars.len()
        invariant
            n <= chars@.len(),
            chars@ == text@,
            shortest_naming(platform, text@, path@, 0) == shortest_naming(
                platform,
                text@,
                path@,
                n as int,
            ),
        decreases chars@.len() - n,
    {
        let beginning = text_between(&chars, 0, n);
        assert(beginning@ =~= text@.take(n as int));
        if RepoPath::parse(beginning.as_str(), platform).same_as(path) {
            return beginning;
        }
        n = n + 1;
    }
    assert(text@.take(text@.len() as int) =~= text@);
    text.to_owned()
}

fn as_shown(path: &RepoPath) -> (r: RepoPath)
    ensures
        r@ == shown_path(path@),
{
    let mut components: Vec<PathComponent> = Vec::new();
    let ghost mut done: PathView = seq![];
    for i in 0..path.components.len()
        invariant
            done == shown_path(path@).take(i as int),
            done.len() == components@.len(),
            forall|j: int| 0 <= j < components@.len() ==> #[trigger] components@[j]@ == done[j],
    {
        let component = match &path.components[i] {
            PathComponent::Foreign { shown, .. } => PathComponent::Normal(shown.clone()),
            other => other.clone(),
        };
        proof {
            done = done.push(component@);
            assert(done =~= shown_path(path@).take(i + 1));
        }
        components.push(component);
    }
    let r = RepoPath { components };
    assert(r@ =~= shown_path(path@));
    r
}

impl Clone for Place {
    fn clone(&self) -> (r: Self)
        ensures
            r@ == self@,
    {
        Place { path: self.path.clone(), text: self.text.clone() }
    }
}

impl Place {
    /// The place that a text of the system names, spelled as it is shown.
    pub fn read(text: &OsText, platform: Platform) -> (r: Place)
        ensures
            r@ == os_place(platform, text@),
    {
        Place { path: RepoPath::read(text, platform), text: text.shown.clone() }
    }

    /// The place of a path that is spelled as its components are written.
    pub fn plain(path: RepoPath, platform: Platform) -> (r: Place)
        ensures
            r@ == plain_place(platform, path@),
    {
        let text = path.to_text(platform);
        Place { path, text }
    }

    fn takes_gap(&self, platform: Platform) -> (r: bool)
        ensures
            r == spells_gap(platform, self@),
    {
        let windows = platform == Platform::Windows;
        let chars = chars_of(self.text.as_str());
        if chars.len() == 0 {
            return false;
        }
        let last = chars[chars.len() - 1];
        if last == '/' || (windows && last == '\\') {
            return false;
        }
        if windows && self.path.components.len() == 1 {
            if let PathComponent::Prefix(name) = &self.path.components[0] {
                let drive = chars_of(name.as_str());
                return !(drive.len() == 2 && has_drive_at(&drive, 0));
            }
        }
        true
    }

    /// The place `name` below this one.
    pub fn child(&self, name: &str, platform: Platform) -> (r: Place)
        ensures
            r@ == child_place(platform, self@, name@),
    {
        let path = self.path.child(name);
        let windows = platform == Platform::Windows;
        let text = if windows && self.path.has_verbatim_prefix() {
            path.to_text(platform)
        } else {
            let mut text = self.text.clone();
            if self.takes_gap(platform) {
                text.push(
                    if windows {
                        '\\'
                    } else {
                        '/'
                    },
                );
            }
            text.append(name);
            text
        };
        Place { path, text }
    }

    /// How the parent of the place is spelled.
    pub fn parent_text(&self, platform: Platform) -> (r: String)
        ensures
            r@ == parent_text(platform, self@),
    {
        match self.path.parent() {
            Some(parent) => beginning_naming(self.text.as_str(), &as_shown(&parent), platform),
            None => self.text.clone(),
        }
    }
}

} // verus!
