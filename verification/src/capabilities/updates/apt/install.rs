//! Install progress from `apt-get`'s C-locale output. apt numbers nothing, so the step count comes
//! from its summary line and each `Setting up` line after it.

use vstd::prelude::*;

use crate::capabilities::updates::backend::{InstallStep, StepView};
use crate::text;

verus! {

/// How many packages `4 upgraded, 1 newly installed, ...` announces, wrapping at 32 bits.
pub open spec fn announced(line: Seq<char>) -> Option<u32> {
    match text::split_once(line, " upgraded, "@) {
        None => None,
        Some((upgraded, rest)) => match text::split_once(rest, " newly installed, "@) {
            None => None,
            Some((installed, _)) => match (
                text::parse_unsigned(upgraded, u32::MAX as nat),
                text::parse_unsigned(installed, u32::MAX as nat),
            ) {
                (Some(upgraded), Some(installed)) => Some((upgraded as u32).wrapping_add(installed as u32)),
                _ => None,
            },
        },
    }
}

/// The package that `Setting up gzip (1.12-1ubuntu3.2) ...` names.
pub open spec fn set_up(line: Seq<char>) -> Option<Seq<char>> {
    match text::strip_prefix(line, "Setting up "@) {
        None => None,
        Some(rest) => match text::split_once(rest, " "@) {
            Some((package, _)) => Some(package),
            None => Some(rest),
        },
    }
}

/// The count after one more package: never above the total. A package left unconfigured by an
/// earlier run is set up too, uncounted in the summary.
pub open spec fn counted(progress: (u32, u32)) -> u32 {
    let more = progress.0.wrapping_add(1u32);
    if more < progress.1 {
        more
    } else {
        progress.1
    }
}

/// The run's `(done, total)` after a line.
pub open spec fn progress_after(progress: (u32, u32), line: Seq<char>) -> (u32, u32) {
    match announced(line) {
        Some(total) => (0, total),
        None => match set_up(line) {
            Some(_) => (counted(progress), progress.1),
            None => progress,
        },
    }
}

/// The step a line stands for.
pub open spec fn step_of(progress: (u32, u32), line: Seq<char>) -> Option<StepView> {
    match announced(line) {
        Some(_) => None,
        None => match set_up(line) {
            Some(package) => Some(StepView { current: counted(progress), total: progress.1, package }),
            None => None,
        },
    }
}

/// `4 upgraded, 1 newly installed, 0 to remove and 2 not upgraded.` as `5`.
pub fn transaction_size(line: &str) -> (size: Option<u32>)
    ensures
        size == announced(line@),
{
    let (upgraded, rest) = match text::str_split_once(line, " upgraded, ") {
        Some(parts) => parts,
        None => return None,
    };
    let installed = match text::str_split_once(rest, " newly installed, ") {
        Some((installed, _)) => installed,
        None => return None,
    };
    match (text::str_parse_u32(upgraded), text::str_parse_u32(installed)) {
        (Some(upgraded), Some(installed)) => Some(upgraded.wrapping_add(installed)),
        _ => None,
    }
}

/// Reads `line` against `progress`, the run's `(done, total)`. The summary sets the total and
/// restarts the count; each package dpkg configures is one step.
pub fn parse_install_step(progress: &mut (u32, u32), line: &str) -> (step: Option<InstallStep>)
    ensures
        crate::capabilities::updates::backend::step_view(step) == step_of(*old(progress), line@),
        *final(progress) == progress_after(*old(progress), line@),
{
    if let Some(total) = transaction_size(line) {
        *progress = (0, total);
        return None;
    }
    let rest = match text::str_strip_prefix(line, "Setting up ") {
        Some(rest) => rest,
        None => return None,
    };
    let package = match text::str_split_once(rest, " ") {
        Some((package, _)) => package,
        None => rest,
    };
    let total: u32 = progress.1;
    let more: u32 = progress.0.wrapping_add(1);
    let done: u32 = if more < total {
        more
    } else {
        total
    };
    *progress = (done, total);
    Some(InstallStep { current: done, total, package: package.to_owned() })
}

/// A count that starts at or below its total stays there, whatever is read.
pub proof fn a_step_never_passes_the_total(progress: (u32, u32), line: Seq<char>)
    requires
        progress.0 <= progress.1,
    ensures
        progress_after(progress, line).0 <= progress_after(progress, line).1,
        step_of(progress, line) matches Some(step) ==> step.current <= step.total,
{
}

/// A transaction's size is announced as what is upgraded and what is newly installed, together.
pub proof fn a_transaction_is_upgraded_and_installed(upgraded: Seq<char>, installed: Seq<char>, rest: Seq<char>)
    requires
        !upgraded.contains(' '),
        !installed.contains(' '),
    ensures
        ({
            let size = announced(upgraded + " upgraded, "@ + (installed + " newly installed, "@ + rest));
            let first = text::parse_unsigned(upgraded, 0xffff_ffff);
            let second = text::parse_unsigned(installed, 0xffff_ffff);
            &&& size is Some <==> first is Some && second is Some
            &&& size is Some && first->Some_0 + second->Some_0 <= 0xffff_ffff ==> size->Some_0 == first->Some_0
                + second->Some_0
        }),
        announced(upgraded) is None,
{
    reveal_strlit(" upgraded, ");
    reveal_strlit(" newly installed, ");
    text::a_text_is_parted_at_the_first_place(upgraded, " upgraded, "@, installed + " newly installed, "@ + rest);
    text::a_text_is_parted_at_the_first_place(installed, " newly installed, "@, rest);
}

/// A package is set up where the line says so, and is the first word behind that.
pub proof fn a_package_is_set_up_by_its_name(package: Seq<char>, rest: Seq<char>, line: Seq<char>)
    requires
        !package.contains(' '),
    ensures
        set_up("Setting up "@ + (package + " "@ + rest)) == Some(package),
        set_up("Setting up "@ + package) == Some(package),
        !text::starts_with(line, "Setting up "@) ==> set_up(line) is None,
{
    reveal_strlit(" ");
    text::a_stripped_prefix_is_all_that_is_missing(line, "Setting up "@, package + " "@ + rest);
    text::a_stripped_prefix_is_all_that_is_missing(line, "Setting up "@, package);
    text::a_text_is_parted_at_the_first_place(package, " "@, rest);
}

/// An announcement starts the count anew, a package that is set up is one step more, and any other
/// line changes nothing.
pub proof fn a_package_set_up_is_one_step_more(progress: (u32, u32), line: Seq<char>)
    ensures
        announced(line) matches Some(total) ==> progress_after(progress, line) == (0u32, total) && step_of(
            progress,
            line,
        ) is None,
        announced(line) is None && set_up(line) is None ==> progress_after(progress, line) == progress && step_of(
            progress,
            line,
        ) is None,
        announced(line) is None && set_up(line) is Some && progress.0 < progress.1 ==> progress_after(progress, line) == (
            (progress.0 + 1) as u32,
            progress.1,
        ) && step_of(progress, line) == Some(
            StepView { current: (progress.0 + 1) as u32, total: progress.1, package: set_up(line)->Some_0 },
        ),
        announced(line) is None && set_up(line) is Some && progress.0 >= progress.1 && progress.0 < u32::MAX
            ==> progress_after(progress, line) == (progress.1, progress.1) && step_of(progress, line) == Some(
            StepView { current: progress.1, total: progress.1, package: set_up(line)->Some_0 },
        ),
{
}

} // verus!
