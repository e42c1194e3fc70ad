//! The marker file behind `UpdatesState::reboot_required`.

use vstd::prelude::*;

use crate::path;
use crate::text;

verus! {

/// Written by anything the user sets up, a pacman hook for example; the directory empties on reboot.
pub const REBOOT_MARKER: &'static str = "/run/mantle-reboot-required";

/// What to watch for a marker: its directory, since a watch needs a file that exists, and its name
/// there.
#[derive(Debug, PartialEq, Eq)]
pub struct MarkerWatch {
    pub dir: String,
    pub name: String,
}

pub open spec fn watch_view(watch: Option<MarkerWatch>) -> Option<(Seq<char>, Seq<char>)> {
    match watch {
        Some(watch) => Some((watch.dir@, watch.name@)),
        None => None,
    }
}

pub open spec fn both(dir: Option<Seq<char>>, name: Option<Seq<char>>) -> Option<(Seq<char>, Seq<char>)> {
    match (dir, name) {
        (Some(dir), Some(name)) => Some((dir, name)),
        _ => None,
    }
}

/// The watch of a directory and a name, where the path has both.
pub fn watch_of(dir: Option<String>, name: Option<String>) -> (watch: Option<MarkerWatch>)
    ensures
        watch_view(watch) == both(text::optional(dir), text::optional(name)),
{
    match (dir, name) {
        (Some(dir), Some(name)) => Some(MarkerWatch { dir, name }),
        _ => None,
    }
}

/// What to watch for `marker`; `None` when it is not a file path, and the badge stays off.
pub fn watched(marker: &str) -> (watch: Option<MarkerWatch>)
    ensures
        watch_view(watch) == both(path::parent_text(marker@), path::file_name_text(marker@)),
{
    watch_of(path::parent_of(marker), path::file_name_of(marker))
}

impl MarkerWatch {
    /// Whether an event in the directory is about the marker: only this one name may move the badge.
    pub fn concerns(&self, event_name: Option<&str>) -> (concerned: bool)
        ensures
            concerned == (text::optional_str(event_name) == Some(self.name@)),
    {
        match event_name {
            Some(name) => text::same(name, self.name.as_str()),
            None => false,
        }
    }
}

/// A marker is watched by its name in its directory, and only where it has both.
pub proof fn a_marker_is_watched_in_its_directory(dir: Option<Seq<char>>, name: Option<Seq<char>>, watch: MarkerWatch)
    ensures
        both(dir, name) is Some <==> dir is Some && name is Some,
        both(dir, name) matches Some(found) ==> dir == Some(found.0) && name == Some(found.1),
        watch_view(Some(watch)) == Some((watch.dir@, watch.name@)),
        watch_view(None) is None,
{
}

} // verus!
