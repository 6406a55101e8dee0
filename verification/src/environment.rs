//! What the operating system says about the user: where home is, and where settings go.

use vstd::prelude::*;

use crate::os_text::{OsText, OsTextView};
use crate::paths::Platform;
use crate::places::{os_place, place_opt, Place, PlaceView};

verus! {

/// The directories that the operating system names for the user.
pub struct Environment {
    pub platform: Platform,
    /// The home directory, where it is known.
    pub home: Option<Place>,
    /// The directory for settings, where it is known.
    pub config_dir: Option<Place>,
}

/// The value of an [`Environment`].
pub struct EnvironmentView {
    pub platform: Platform,
    pub home: Option<PlaceView>,
    pub config_dir: Option<PlaceView>,
}

impl View for Environment {
    type V = EnvironmentView;

    open spec fn view(&self) -> EnvironmentView {
        EnvironmentView {
            platform: self.platform,
            home: place_opt(self.home),
            config_dir: place_opt(self.config_dir),
        }
    }
}

/// `dirs::home_dir` looks the home directory up in the process environment or the user
/// database. Nothing is promised of what it finds; the path is handed on as it is shown and as it
/// is encoded.
#[verifier::external_body]
fn home_dir_text() -> (r: Option<OsText>) {
    dirs::home_dir().map(|path| OsText {
        shown: path.to_string_lossy().into_owned(),
        bytes: path.into_os_string().into_encoded_bytes(),
    })
}

/// `dirs::config_dir` looks the settings directory up in the process environment. Nothing is
/// promised of what it finds; the path is handed on as it is shown and as it is encoded.
#[verifier::external_body]
fn config_dir_text() -> (r: Option<OsText>) {
    dirs::config_dir().map(|path| OsText {
        shown: path.to_string_lossy().into_owned(),
        bytes: path.into_os_string().into_encoded_bytes(),
    })
}

/// The place that an optional text of the system names.
pub open spec fn named_place(platform: Platform, text: Option<OsTextView>) -> Option<PlaceView> {
    match text {
        Some(t) => Some(os_place(platform, t)),
        None => None,
    }
}

/// The value of an optional text of the system.
pub open spec fn os_text_opt(text: Option<OsText>) -> Option<OsTextView> {
    match text {
        Some(t) => Some(t@),
        None => None,
    }
}

fn read_opt(text: Option<OsText>, platform: Platform) -> (r: Option<Place>)
    ensures
        place_opt(r) == named_place(platform, os_text_opt(text)),
{
    match text {
        Some(t) => Some(Place::read(&t, platform)),
        None => None,
    }
}

/// The user's directories, given what the operating system calls them.
pub fn environment_of(platform: Platform, home: Option<OsText>, config_dir: Option<OsText>) -> (r:
    Environment)
    ensures
        r@ == (EnvironmentView {
            platform,
            home: named_place(platform, os_text_opt(home)),
            config_dir: named_place(platform, os_text_opt(config_dir)),
        }),
{
    Environment {
        platform,
        home: read_opt(home, platform),
        config_dir: read_opt(config_dir, platform),
    }
}

/// Ask the operating system for the user's directories. What it answers differs from one
/// call to the next; the places are those that the answers name on `platform`.
pub fn read_environment(platform: Platform) -> (r: Environment)
    ensures
        exists|home: Option<OsTextView>, config_dir: Option<OsTextView>|
            r@ == (EnvironmentView {
                platform,
                home: #[trigger] named_place(platform, home),
                config_dir: #[trigger] named_place(platform, config_dir),
            }),
{
    environment_of(platform, home_dir_text(), config_dir_text())
}

} // verus!
