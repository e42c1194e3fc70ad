//! `mantle.applications`: the actions on installed `.desktop` entries, and why one failed.

use vstd::prelude::*;

use crate::text;

pub mod watch;

verus! {

#[derive(Debug, PartialEq, Eq)]
pub enum ApplicationsAction {
    /// Rescans installed desktop entries. The directories are watched, so only a failed watch
    /// needs this.
    Refresh,
    /// Launches `entries[].id`, detached; `Terminal=true` entries run in `$TERMINAL`.
    Launch { id: String },
    /// Opens an `http`, `https` or `mailto` URL with `xdg-open`. One over 2048 bytes or holding
    /// whitespace or a control character is refused.
    OpenUrl { url: String },
}

/// Why a launch did not happen.
#[derive(Debug, PartialEq, Eq)]
pub enum LaunchError {
    Unknown,
    NoTerminal,
    Spawn(String),
}

/// Why a URL was not opened.
#[derive(Debug, PartialEq, Eq)]
pub enum OpenUrlError {
    Refused(String),
    Spawn(String),
}

pub open spec fn launch_reason(id: Seq<char>, error: LaunchError) -> Seq<char> {
    match error {
        LaunchError::Unknown => "no application entry with id "@ + text::debug_text(id),
        LaunchError::NoTerminal => text::debug_text(id)
            + " declares Terminal=true and $TERMINAL is unset, so there is no emulator to run it in"@,
        LaunchError::Spawn(message) => "spawning "@ + text::debug_text(id) + " failed: "@ + message@,
    }
}

pub open spec fn open_url_reason(url: Seq<char>, error: OpenUrlError) -> Seq<char> {
    match error {
        OpenUrlError::Refused(why) => "refused "@ + text::debug_text(url) + ": "@ + why@,
        OpenUrlError::Spawn(message) => "spawning xdg-open for "@ + text::debug_text(url) + " failed: "@ + message@,
    }
}

/// What the log says of a failed launch, given how the id is quoted.
pub fn launch_failure_text(quoted: &str, error: &LaunchError) -> (reason: String)
    ensures
        reason@ == (match *error {
            LaunchError::Unknown => "no application entry with id "@ + quoted@,
            LaunchError::NoTerminal => quoted@
                + " declares Terminal=true and $TERMINAL is unset, so there is no emulator to run it in"@,
            LaunchError::Spawn(message) => "spawning "@ + quoted@ + " failed: "@ + message@,
        }),
{
    match error {
        LaunchError::Unknown => "no application entry with id ".to_owned().concat(quoted),
        LaunchError::NoTerminal => quoted.to_owned().concat(
            " declares Terminal=true and $TERMINAL is unset, so there is no emulator to run it in",
        ),
        LaunchError::Spawn(message) => "spawning ".to_owned().concat(quoted).concat(" failed: ").concat(
            message.as_str(),
        ),
    }
}

/// What the log says of a failed launch.
pub fn launch_failure(id: &str, error: &LaunchError) -> (reason: String)
    ensures
        reason@ == launch_reason(id@, *error),
{
    launch_failure_text(text::debug_of(id).as_str(), error)
}

/// What the log says of a URL that was not opened, given how the URL is quoted.
pub fn open_url_failure_text(quoted: &str, error: &OpenUrlError) -> (reason: String)
    ensures
        reason@ == (match *error {
            OpenUrlError::Refused(why) => "refused "@ + quoted@ + ": "@ + why@,
            OpenUrlError::Spawn(message) => "spawning xdg-open for "@ + quoted@ + " failed: "@ + message@,
        }),
{
    match error {
        OpenUrlError::Refused(why) => "refused ".to_owned().concat(quoted).concat(": ").concat(why.as_str()),
        OpenUrlError::Spawn(message) => "spawning xdg-open for ".to_owned().concat(quoted).concat(" failed: ").concat(
            message.as_str(),
        ),
    }
}

/// What the log says of a URL that was not opened.
pub fn open_url_failure(url: &str, error: &OpenUrlError) -> (reason: String)
    ensures
        reason@ == open_url_reason(url@, *error),
{
    open_url_failure_text(text::debug_of(url).as_str(), error)
}

/// A failure says what failed, by its id or its address, and why.
pub proof fn a_failure_says_what_and_why(id: Seq<char>, why: String)
    ensures
        launch_reason(id, LaunchError::Unknown) == "no application entry with id "@ + text::debug_text(id),
        launch_reason(id, LaunchError::NoTerminal) == text::debug_text(id)
            + " declares Terminal=true and $TERMINAL is unset, so there is no emulator to run it in"@,
        launch_reason(id, LaunchError::Spawn(why)) == "spawning "@ + text::debug_text(id) + " failed: "@ + why@,
        open_url_reason(id, OpenUrlError::Refused(why)) == "refused "@ + text::debug_text(id) + ": "@ + why@,
        open_url_reason(id, OpenUrlError::Spawn(why)) == "spawning xdg-open for "@ + text::debug_text(id) + " failed: "@
            + why@,
{
}

} // verus!
