//! Pending package updates (`mantle.updates`).

use vstd::prelude::*;

use apt::AptBackend;
use backend::{Backend, CommandView, InstallCommand, InstallStep, StepView};
use dnf::DnfBackend;
use pacman::PacmanBackend;

pub mod apt;
pub mod backend;
pub mod controller;
pub mod dnf;
pub mod pacman;
pub mod reboot;

verus! {

/// The package manager that owns the machine.
#[derive(Debug)]
pub enum PackageManager {
    Pacman(PacmanBackend),
    Apt(AptBackend),
    Dnf(DnfBackend),
}

impl Backend for PackageManager {
    open spec fn spec_name(&self) -> Seq<char> {
        match self {
            PackageManager::Pacman(backend) => backend.spec_name(),
            PackageManager::Apt(backend) => backend.spec_name(),
            PackageManager::Dnf(backend) => backend.spec_name(),
        }
    }

    open spec fn spec_install_command(&self) -> CommandView {
        match self {
            PackageManager::Pacman(backend) => backend.spec_install_command(),
            PackageManager::Apt(backend) => backend.spec_install_command(),
            PackageManager::Dnf(backend) => backend.spec_install_command(),
        }
    }

    open spec fn spec_aur_helper(&self) -> Option<Seq<char>> {
        match self {
            PackageManager::Pacman(backend) => backend.spec_aur_helper(),
            PackageManager::Apt(backend) => backend.spec_aur_helper(),
            PackageManager::Dnf(backend) => backend.spec_aur_helper(),
        }
    }

    open spec fn spec_aur_error(&self, enabled: bool) -> Option<Seq<char>> {
        match self {
            PackageManager::Pacman(backend) => backend.spec_aur_error(enabled),
            PackageManager::Apt(backend) => backend.spec_aur_error(enabled),
            PackageManager::Dnf(backend) => backend.spec_aur_error(enabled),
        }
    }

    open spec fn spec_command_with_aur(&self, enabled: bool) -> CommandView {
        match self {
            PackageManager::Pacman(backend) => backend.spec_command_with_aur(enabled),
            PackageManager::Apt(backend) => backend.spec_command_with_aur(enabled),
            PackageManager::Dnf(backend) => backend.spec_command_with_aur(enabled),
        }
    }

    open spec fn spec_install_step(&self, line: Seq<char>) -> Option<StepView> {
        match self {
            PackageManager::Pacman(backend) => backend.spec_install_step(line),
            PackageManager::Apt(backend) => backend.spec_install_step(line),
            PackageManager::Dnf(backend) => backend.spec_install_step(line),
        }
    }

    open spec fn spec_after_line(&self, line: Seq<char>) -> Self {
        match self {
            PackageManager::Pacman(backend) => PackageManager::Pacman(backend.spec_after_line(line)),
            PackageManager::Apt(backend) => PackageManager::Apt(backend.spec_after_line(line)),
            PackageManager::Dnf(backend) => PackageManager::Dnf(backend.spec_after_line(line)),
        }
    }

    open spec fn spec_with_aur(&self, enabled: bool) -> Self {
        match self {
            PackageManager::Pacman(backend) => PackageManager::Pacman(backend.spec_with_aur(enabled)),
            PackageManager::Apt(backend) => PackageManager::Apt(backend.spec_with_aur(enabled)),
            PackageManager::Dnf(backend) => PackageManager::Dnf(backend.spec_with_aur(enabled)),
        }
    }

    proof fn aur_is_beside_the_output(&self, enabled: bool, line: Seq<char>) {
        match self {
            PackageManager::Pacman(backend) => backend.aur_is_beside_the_output(enabled, line),
            PackageManager::Apt(backend) => backend.aur_is_beside_the_output(enabled, line),
            PackageManager::Dnf(backend) => backend.aur_is_beside_the_output(enabled, line),
        }
    }

    fn name(&self) -> (name: &'static str) {
        match self {
            PackageManager::Pacman(backend) => backend.name(),
            PackageManager::Apt(backend) => backend.name(),
            PackageManager::Dnf(backend) => backend.name(),
        }
    }

    fn install_command(&self) -> (command: InstallCommand) {
        match self {
            PackageManager::Pacman(backend) => backend.install_command(),
            PackageManager::Apt(backend) => backend.install_command(),
            PackageManager::Dnf(backend) => backend.install_command(),
        }
    }

    fn aur_helper(&self) -> (helper: Option<String>) {
        match self {
            PackageManager::Pacman(backend) => backend.aur_helper(),
            PackageManager::Apt(backend) => backend.aur_helper(),
            PackageManager::Dnf(backend) => backend.aur_helper(),
        }
    }

    fn set_aur(&mut self, enabled: bool) -> (error: Option<String>) {
        match self {
            PackageManager::Pacman(backend) => backend.set_aur(enabled),
            PackageManager::Apt(backend) => backend.set_aur(enabled),
            PackageManager::Dnf(backend) => backend.set_aur(enabled),
        }
    }

    fn parse_install_step(&mut self, line: &str) -> (step: Option<InstallStep>) {
        match self {
            PackageManager::Pacman(backend) => backend.parse_install_step(line),
            PackageManager::Apt(backend) => backend.parse_install_step(line),
            PackageManager::Dnf(backend) => backend.parse_install_step(line),
        }
    }
}

} // verus!
