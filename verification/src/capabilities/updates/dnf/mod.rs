//! Fedora's `dnf`. dnf5 and dnf4 take the same `repoquery` flags; only their install progress lines
//! differ.

use vstd::prelude::*;

use super::backend::{Backend, CommandView, InstallCommand, InstallStep, StepView};
use crate::text;

pub mod check;
pub mod install;

verus! {

#[derive(Debug, Clone, Copy, PartialEq, Eq)]
pub struct DnfBackend;

impl Backend for DnfBackend {
    open spec fn spec_name(&self) -> Seq<char> {
        "dnf"@
    }

    open spec fn spec_install_command(&self) -> CommandView {
        CommandView {
            program: "pkexec"@,
            arguments: seq!["env"@, "LC_ALL=C"@, "dnf"@, "upgrade"@, "-y"@, "--refresh"@],
        }
    }

    open spec fn spec_aur_helper(&self) -> Option<Seq<char>> {
        None
    }

    open spec fn spec_aur_error(&self, enabled: bool) -> Option<Seq<char>> {
        None
    }

    open spec fn spec_command_with_aur(&self, enabled: bool) -> CommandView {
        self.spec_install_command()
    }

    open spec fn spec_install_step(&self, line: Seq<char>) -> Option<StepView> {
        install::step_of(line)
    }

    open spec fn spec_after_line(&self, line: Seq<char>) -> Self {
        *self
    }

    open spec fn spec_with_aur(&self, enabled: bool) -> Self {
        *self
    }

    proof fn aur_is_beside_the_output(&self, enabled: bool, line: Seq<char>) {
    }

    fn name(&self) -> (name: &'static str) {
        "dnf"
    }

    /// `--refresh` so root's cache sees what the user's check saw. `pkexec` keeps the caller's
    /// locale, which would translate the progress lines.
    fn install_command(&self) -> (command: InstallCommand) {
        let mut arguments: Vec<String> = Vec::new();
        arguments.push("env".to_owned());
        arguments.push("LC_ALL=C".to_owned());
        arguments.push("dnf".to_owned());
        arguments.push("upgrade".to_owned());
        arguments.push("-y".to_owned());
        arguments.push("--refresh".to_owned());
        assert(text::strings(arguments@) =~= self.spec_install_command().arguments);
        InstallCommand { program: "pkexec".to_owned(), arguments }
    }

    fn aur_helper(&self) -> (helper: Option<String>) {
        None
    }

    fn set_aur(&mut self, enabled: bool) -> (error: Option<String>) {
        None
    }

    fn parse_install_step(&mut self, line: &str) -> (step: Option<InstallStep>) {
        install::parse_install_step(line)
    }
}

/// Everything is upgraded with fresh lists and without a question, under `pkexec`; the AUR is nothing
/// to it.
pub proof fn everything_is_upgraded_afresh(backend: DnfBackend, enabled: bool, line: Seq<char>)
    ensures
        backend.spec_name() == "dnf"@,
        backend.spec_install_command() == (CommandView {
            program: "pkexec"@,
            arguments: seq!["env"@, "LC_ALL=C"@, "dnf"@, "upgrade"@, "-y"@, "--refresh"@],
        }),
        backend.spec_command_with_aur(enabled) == backend.spec_install_command(),
        backend.spec_aur_helper() is None,
        backend.spec_aur_error(enabled) is None,
        backend.spec_install_step(line) == install::step_of(line),
{
}

} // verus!
