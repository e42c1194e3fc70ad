//! Arch's `pacman`. Everything under here knows about `pacman.conf` and `pacman`'s own output;
//! nothing above the backend does.

use vstd::prelude::*;

use super::backend::{Backend, CheckReport, CommandView, InstallCommand, InstallStep, StepView, UpdateCandidate};
use crate::path;
use crate::text;

pub mod aur;
pub mod check;
pub mod install;

verus! {

/// Checks use a throwaway db root; installs use the real one.
#[derive(Debug)]
pub struct PacmanBackend {
    conf_path: String,
    db_root: String,
    aur_helper: Option<&'static str>,
    aur: bool,
}

impl PacmanBackend {
    pub closed spec fn spec_conf_path(self) -> Seq<char> {
        self.conf_path@
    }

    pub closed spec fn spec_db_root(self) -> Seq<char> {
        self.db_root@
    }

    pub closed spec fn helper(self) -> Option<Seq<char>> {
        text::optional_str(self.aur_helper)
    }

    /// Whether AUR packages were asked for.
    pub closed spec fn wants_aur(self) -> bool {
        self.aur
    }

    /// The helper to check and install through: detected and asked for.
    pub open spec fn active(self) -> Option<Seq<char>> {
        if self.wants_aur() {
            self.helper()
        } else {
            None
        }
    }

    /// What is reported while AUR packages are asked for and no helper was found.
    pub open spec fn missing(self) -> Option<Seq<char>> {
        if self.wants_aur() && self.helper() is None {
            Some(aur::NO_HELPER@)
        } else {
            None
        }
    }

    pub fn new(conf_path: String, db_root: String, aur_helper: Option<&'static str>) -> (backend: Self)
        ensures
            backend.spec_conf_path() == conf_path@,
            backend.spec_db_root() == db_root@,
            backend.helper() == text::optional_str(aur_helper),
            !backend.wants_aur(),
    {
        PacmanBackend { conf_path, db_root, aur_helper, aur: false }
    }

    pub fn conf_path(&self) -> (path: &str)
        ensures
            path@ == self.spec_conf_path(),
    {
        self.conf_path.as_str()
    }

    pub fn db_root(&self) -> (path: &str)
        ensures
            path@ == self.spec_db_root(),
    {
        self.db_root.as_str()
    }

    /// The helper to check and install through: detected and asked for.
    pub fn active_helper(&self) -> (helper: Option<&'static str>)
        ensures
            text::optional_str(helper) == self.active(),
    {
        if self.aur {
            self.aur_helper
        } else {
            None
        }
    }

    pub fn missing_helper(&self) -> (error: Option<String>)
        ensures
            text::optional(error) == self.missing(),
    {
        if self.aur && self.aur_helper.is_none() {
            Some(aur::NO_HELPER.to_owned())
        } else {
            None
        }
    }

    /// Finishes a check: an AUR half that failed says so itself, and one that could not run for want
    /// of a helper says that.
    pub fn check(&self, report: CheckReport) -> (finished: CheckReport)
        ensures
            finished.packages@ == report.packages@,
            text::optional(finished.aur_error) == (match report.aur_error {
                Some(error) => Some(error@),
                None => self.missing(),
            }),
    {
        let aur_error = match report.aur_error {
            Some(error) => Some(error),
            None => self.missing_helper(),
        };
        CheckReport { packages: report.packages, aur_error }
    }
}

/// The command of a real upgrade: the helper's, or pacman's as root.
pub open spec fn upgrade_command(helper: Option<Seq<char>>) -> CommandView {
    match helper {
        Some(helper) => CommandView { program: helper, arguments: aur::helper_arguments(helper) },
        None => CommandView { program: "pkexec"@, arguments: seq!["pacman"@, "-Syu"@, "--noconfirm"@] },
    }
}

impl Backend for PacmanBackend {
    open spec fn spec_name(&self) -> Seq<char> {
        "pacman"@
    }

    open spec fn spec_install_command(&self) -> CommandView {
        upgrade_command(self.active())
    }

    open spec fn spec_aur_helper(&self) -> Option<Seq<char>> {
        self.helper()
    }

    open spec fn spec_aur_error(&self, enabled: bool) -> Option<Seq<char>> {
        if enabled && self.helper() is None {
            Some(aur::NO_HELPER@)
        } else {
            None
        }
    }

    open spec fn spec_command_with_aur(&self, enabled: bool) -> CommandView {
        upgrade_command(
            if enabled {
                self.helper()
            } else {
                None
            },
        )
    }

    open spec fn spec_install_step(&self, line: Seq<char>) -> Option<StepView> {
        install::step_of(line)
    }

    open spec fn spec_after_line(&self, line: Seq<char>) -> Self {
        *self
    }

    closed spec fn spec_with_aur(&self, enabled: bool) -> Self {
        PacmanBackend { aur: enabled, ..*self }
    }

    proof fn aur_is_beside_the_output(&self, enabled: bool, line: Seq<char>) {
    }

    fn name(&self) -> (name: &'static str) {
        "pacman"
    }

    fn parse_install_step(&mut self, line: &str) -> (step: Option<InstallStep>) {
        install::parse_install_step(line)
    }

    /// A root upgrade against the real databases. `pkexec` asks through the shell's polkit agent
    /// instead of a terminal. An active AUR helper runs as the user instead and elevates itself.
    fn install_command(&self) -> (command: InstallCommand) {
        match self.active_helper() {
            Some(helper) => InstallCommand {
                program: helper.to_owned(),
                arguments: aur::install_arguments(helper),
            },
            None => {
                let mut arguments: Vec<String> = Vec::new();
                arguments.push("pacman".to_owned());
                arguments.push("-Syu".to_owned());
                arguments.push("--noconfirm".to_owned());
                assert(text::strings(arguments@) =~= self.spec_install_command().arguments);
                InstallCommand { program: "pkexec".to_owned(), arguments }
            },
        }
    }

    fn aur_helper(&self) -> (helper: Option<String>) {
        match self.aur_helper {
            Some(helper) => Some(helper.to_owned()),
            None => None,
        }
    }

    fn set_aur(&mut self, enabled: bool) -> (error: Option<String>)
        ensures
            final(self).wants_aur() == enabled,
            final(self).spec_conf_path() == old(self).spec_conf_path(),
            final(self).spec_db_root() == old(self).spec_db_root(),
            text::optional(error) == final(self).missing(),
    {
        self.aur = enabled;
        self.missing_helper()
    }
}

/// A check's packages with those the AUR offers. `aur` is what the AUR half came to, `None` where
/// it was not asked for.
pub fn report(packages: Vec<UpdateCandidate>, aur: Option<Result<Vec<UpdateCandidate>, String>>) -> (report: CheckReport)
    ensures
        match aur {
            None => report.packages@ == packages@ && report.aur_error is None,
            Some(Ok(found)) => report.packages@ == packages@ + found@ && report.aur_error is None,
            Some(Err(error)) => report.packages@ == packages@ && report.aur_error == Some(error),
        },
{
    let mut packages = packages;
    match aur {
        None => CheckReport { packages, aur_error: None },
        Some(Ok(found)) => {
            let mut found = found;
            packages.append(&mut found);
            CheckReport { packages, aur_error: None }
        },
        Some(Err(error)) => CheckReport { packages, aur_error: Some(error) },
    }
}

/// The variables that make a re-exec of this binary the child that checks.
pub fn check_env(conf_path: &str, db_root: &str, aur: bool) -> (env: Vec<(String, String)>)
    ensures
        crate::json::pairs(env@) == seq![
            ("MANTLE_PACMAN_CHECK"@, "1"@),
            ("MANTLE_PACMAN_CONF"@, conf_path@),
            ("MANTLE_PACMAN_DB_ROOT"@, db_root@),
        ] + (if aur {
            seq![("MANTLE_PACMAN_AUR"@, "1"@)]
        } else {
            Seq::empty()
        }),
{
    let mut env: Vec<(String, String)> = Vec::new();
    env.push(("MANTLE_PACMAN_CHECK".to_owned(), "1".to_owned()));
    env.push(("MANTLE_PACMAN_CONF".to_owned(), conf_path.to_owned()));
    env.push(("MANTLE_PACMAN_DB_ROOT".to_owned(), db_root.to_owned()));
    if aur {
        env.push(("MANTLE_PACMAN_AUR".to_owned(), "1".to_owned()));
    }
    assert(crate::json::pairs(env@) =~= seq![
        ("MANTLE_PACMAN_CHECK"@, "1"@),
        ("MANTLE_PACMAN_CONF"@, conf_path@),
        ("MANTLE_PACMAN_DB_ROOT"@, db_root@),
    ] + (if aur {
        seq![("MANTLE_PACMAN_AUR"@, "1"@)]
    } else {
        Seq::empty()
    }));
    env
}

/// How the child that checks ended.
#[derive(Debug, PartialEq, Eq)]
pub enum ChildEnd {
    NotSpawned(String),
    /// It failed, saying this on stderr.
    Failed { stderr: String, status: String },
    /// It wrote no result that could be read.
    Unreadable(String),
    Answered(Result<CheckReport, String>),
}

/// A check that ran in a child. One that said nothing is named by its status, so that a crash is not
/// a silent "no updates".
pub fn check_in_a_child(end: ChildEnd) -> (report: Result<CheckReport, String>)
    ensures
        match end {
            ChildEnd::Answered(answer) => report == answer,
            ChildEnd::NotSpawned(reason) => report matches Err(message) && message@
                == "failed to spawn the update check: "@ + reason@,
            ChildEnd::Failed { stderr, status } => report matches Err(message) && message@ == (if text::trim(
                stderr@,
            ).len() == 0 {
                "the update check exited with "@ + status@
            } else {
                text::trim(stderr@)
            }),
            ChildEnd::Unreadable(reason) => report matches Err(message) && message@
                == "the update check returned no readable result: "@ + reason@,
        },
{
    match end {
        ChildEnd::Answered(answer) => answer,
        ChildEnd::NotSpawned(reason) => Err(
            "failed to spawn the update check: ".to_owned().concat(reason.as_str()),
        ),
        ChildEnd::Failed { stderr, status } => {
            let detail = text::str_trim(stderr.as_str());
            if detail.is_empty() {
                Err("the update check exited with ".to_owned().concat(status.as_str()))
            } else {
                Err(detail.to_owned())
            }
        },
        ChildEnd::Unreadable(reason) => Err(
            "the update check returned no readable result: ".to_owned().concat(reason.as_str()),
        ),
    }
}

/// The link a throwaway db root needs: from the real `local` to its own, the one name pacman reads
/// installed packages from. A missing source is refused: a dangling link reads as no installed
/// packages and so as every package being an update.
pub fn link_local_db(db_root: &str, throwaway: &str, local_is_dir: bool) -> (link: Result<(String, String), String>)
    ensures
        if local_is_dir {
            link matches Ok((source, target)) && source@ == path::joined(db_root@, "local"@) && target@
                == path::joined(throwaway@, "local"@)
        } else {
            link matches Err(message) && message@ == path::joined(db_root@, "local"@)
                + " is not a directory; cannot check updates against it"@
        },
{
    let source = path::join(db_root, "local");
    if local_is_dir {
        Ok((source, path::join(throwaway, "local")))
    } else {
        Err(source.concat(" is not a directory; cannot check updates against it"))
    }
}

/// The helper is used exactly while the AUR is wanted; that it is wanted and missing is said.
pub proof fn a_wanted_helper_is_used_or_missed(backend: PacmanBackend)
    ensures
        backend.wants_aur() ==> backend.active() == backend.helper(),
        !backend.wants_aur() ==> backend.active() is None,
        backend.missing() is Some <==> backend.wants_aur() && backend.helper() is None,
        backend.missing() is Some ==> backend.missing() == Some("no AUR helper found (paru, yay)"@),
        backend.spec_aur_helper() == backend.helper(),
        backend.spec_name() == "pacman"@,
{
}

/// Everything is upgraded without a question: by the helper that is used, or by `pacman` under
/// `pkexec`.
pub proof fn an_upgrade_goes_through_the_helper(backend: PacmanBackend, helper: Seq<char>, enabled: bool)
    ensures
        upgrade_command(None) == (CommandView {
            program: "pkexec"@,
            arguments: seq!["pacman"@, "-Syu"@, "--noconfirm"@],
        }),
        upgrade_command(Some(helper)) == (CommandView { program: helper, arguments: aur::helper_arguments(helper) }),
        backend.wants_aur() ==> backend.spec_install_command() == upgrade_command(backend.helper()),
        !backend.wants_aur() ==> backend.spec_install_command() == upgrade_command(None),
        enabled ==> backend.spec_command_with_aur(enabled) == upgrade_command(backend.helper()),
        !enabled ==> backend.spec_command_with_aur(enabled) == upgrade_command(None),
        backend.spec_aur_error(enabled) is Some <==> enabled && backend.helper() is None,
        backend.spec_aur_error(enabled) is Some ==> backend.spec_aur_error(enabled) == Some(
            "no AUR helper found (paru, yay)"@,
        ),
        backend.spec_with_aur(enabled).wants_aur() == enabled,
        backend.spec_with_aur(enabled).helper() == backend.helper(),
        backend.spec_with_aur(enabled).spec_conf_path() == backend.spec_conf_path(),
        backend.spec_with_aur(enabled).spec_db_root() == backend.spec_db_root(),
{
}

} // verus!
