//! PNG spooling shared by tray and notifications.

use vstd::prelude::*;

use crate::path;
use crate::text;

verus! {

/// The shell's `subdir` under its instance directory.
pub fn icon_dir(instance_dir: Option<&str>, subdir: &str) -> (dir: Result<String, String>)
    ensures
        match instance_dir {
            Some(instance) => dir matches Ok(dir) && dir@ == path::joined(instance@, subdir@),
            None => dir matches Err(message) && message@ == "no instance directory"@,
        },
{
    match instance_dir {
        Some(instance) => Ok(path::join(instance, subdir)),
        None => Err("no instance directory".to_owned()),
    }
}

/// Where an encoded PNG goes: its directory, which may have to be made, and its path there.
pub fn write_png(instance_dir: Option<&str>, subdir: &str, filename: &str) -> (target: Result<(String, String), String>)
    ensures
        match instance_dir {
            Some(instance) => target matches Ok((dir, file)) && dir@ == path::joined(instance@, subdir@) && file@
                == path::joined(path::joined(instance@, subdir@), filename@),
            None => target matches Err(message) && message@ == "no instance directory"@,
        },
{
    match icon_dir(instance_dir, subdir) {
        Ok(dir) => {
            let file = path::join(dir.as_str(), filename);
            Ok((dir, file))
        },
        Err(message) => Err(message),
    }
}

/// Whether a file is under a directory, given what each resolves to with no `..` and no link left in
/// it; `None` for one that does not resolve.
pub fn is_within(resolved: Option<&str>, root: Option<&str>) -> (within: bool)
    ensures
        within == (match (resolved, root) {
            (Some(resolved), Some(root)) => path::path_within(resolved@, root@),
            _ => false,
        }),
{
    match (resolved, root) {
        (Some(resolved), Some(root)) => path::is_under(resolved, root),
        _ => false,
    }
}

/// Whether a spooled PNG is deleted. The path traveled through a snapshot and back, so one that is
/// not under the spool's directory stays.
pub fn remove_png(dir: &Result<String, String>, resolved: Option<&str>, root: Option<&str>) -> (removes: bool)
    ensures
        removes == (dir is Ok && (match (resolved, root) {
            (Some(resolved), Some(root)) => path::path_within(resolved@, root@),
            _ => false,
        })),
{
    match dir {
        Ok(_) => is_within(resolved, root),
        Err(_) => false,
    }
}

} // verus!
