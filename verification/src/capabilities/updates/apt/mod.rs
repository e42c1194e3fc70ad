//! Debian and Ubuntu's `apt`. Runs `apt-get` and `apt-cache`, never `apt`, whose output is not a
//! stable interface.

use vstd::prelude::*;

use super::backend::{Backend, CheckReport, CommandView, InstallCommand, InstallStep, StepView, UpdateCandidate};
use crate::path;
use crate::text;

pub mod check;
pub mod install;

verus! {

/// Drops the `update` hooks, which run as the caller: a check is no `apt-get update` to announce to
/// anyone.
pub const NO_HOOKS: &'static str = "#clear APT::Update::Pre-Invoke;\n#clear APT::Update::Post-Invoke;\n#clear APT::Update::Post-Invoke-Success;\n";

#[derive(Debug)]
pub struct AptBackend {
    /// `(done, total)` of the running install, from its summary and `Setting up` lines.
    pub install: (u32, u32),
}

impl Default for AptBackend {
    fn default() -> (backend: Self)
        ensures
            backend.install == (0u32, 0u32),
    {
        AptBackend { install: (0, 0) }
    }
}

/// The upgrade that both the check simulates and the install runs: new dependencies come in, and
/// nothing is removed.
pub open spec fn upgrade_words() -> Seq<Seq<char>> {
    seq!["upgrade"@, "--with-new-pkgs"@]
}

pub open spec fn install_script() -> Seq<char> {
    "apt-get update && apt-get -y -o Dpkg::Options::=--force-confdef -o Dpkg::Options::=--force-confold "@ + text::join(
        upgrade_words(),
        " "@,
    )
}

fn upgrade_arguments() -> (words: Vec<&'static str>)
    ensures
        text::texts(words@) == upgrade_words(),
{
    let mut words: Vec<&'static str> = Vec::new();
    words.push("upgrade");
    words.push("--with-new-pkgs");
    assert(text::texts(words@) =~= upgrade_words());
    words
}

impl Backend for AptBackend {
    open spec fn spec_name(&self) -> Seq<char> {
        "apt"@
    }

    open spec fn spec_install_command(&self) -> CommandView {
        CommandView {
            program: "pkexec"@,
            arguments: seq![
                "env"@,
                "LC_ALL=C"@,
                "DEBIAN_FRONTEND=noninteractive"@,
                "sh"@,
                "-c"@,
                install_script(),
            ],
        }
    }

    open spec fn spec_aur_helper(&self) -> Option<Seq<char>> {
        None
    }

    open spec fn spec_aur_error(&self, enabled: bool) -> Option<Seq<char>> {
        None
    }

    open spec fn spec_command_with_aur(&self, enabled: bool) -> CommandView {
        self.spec_install_command()
    }

    open spec fn spec_install_step(&self, line: Seq<char>) -> Option<StepView> {
        install::step_of(self.install, line)
    }

    open spec fn spec_after_line(&self, line: Seq<char>) -> Self {
        AptBackend { install: install::progress_after(self.install, line) }
    }

    open spec fn spec_with_aur(&self, enabled: bool) -> Self {
        *self
    }

    proof fn aur_is_beside_the_output(&self, enabled: bool, line: Seq<char>) {
    }

    fn name(&self) -> (name: &'static str) {
        "apt"
    }

    /// `pkexec` elevates `env`, since it drops the caller's environment; `update` first, so the
    /// real lists match the ones the check read. Changed conffiles keep the local copy.
    fn install_command(&self) -> (command: InstallCommand) {
        let mut upgrade =
            "apt-get update && apt-get -y -o Dpkg::Options::=--force-confdef -o Dpkg::Options::=--force-confold ".to_owned();
        upgrade.append(text::join_strs(&upgrade_arguments(), " ").as_str());
        let mut arguments: Vec<String> = Vec::new();
        arguments.push("env".to_owned());
        arguments.push("LC_ALL=C".to_owned());
        arguments.push("DEBIAN_FRONTEND=noninteractive".to_owned());
        arguments.push("sh".to_owned());
        arguments.push("-c".to_owned());
        arguments.push(upgrade);
        assert(text::strings(arguments@) =~= self.spec_install_command().arguments);
        InstallCommand { program: "pkexec".to_owned(), arguments }
    }

    fn aur_helper(&self) -> (helper: Option<String>) {
        None
    }

    fn set_aur(&mut self, enabled: bool) -> (error: Option<String>) {
        None
    }

    fn parse_install_step(&mut self, line: &str) -> (step: Option<InstallStep>) {
        install::parse_install_step(&mut self.install, line)
    }
}

/// Where a check refreshes into, as the user: lists and a cache of its own under the runtime root.
#[derive(Debug, PartialEq, Eq)]
pub struct CheckPlace {
    pub lists: String,
    /// A directory `apt-get` wants under the lists.
    pub partial: String,
    pub cache: String,
    pub conf: String,
}

pub open spec fn place_under(runtime_root: Seq<char>) -> (Seq<char>, Seq<char>, Seq<char>, Seq<char>) {
    let root = path::joined(runtime_root, "apt"@);
    (
        path::joined(root, "lists"@),
        path::joined(path::joined(root, "lists"@), "partial"@),
        path::joined(root, "cache"@),
        path::joined(root, "apt.conf"@),
    )
}

pub fn check_place(runtime_root: &str) -> (place: CheckPlace)
    ensures
        (place.lists@, place.partial@, place.cache@, place.conf@) == place_under(runtime_root@),
{
    let root = path::join(runtime_root, "apt");
    let lists = path::join(root.as_str(), "lists");
    let partial = path::join(lists.as_str(), "partial");
    CheckPlace {
        lists,
        partial,
        cache: path::join(root.as_str(), "cache"),
        conf: path::join(root.as_str(), "apt.conf"),
    }
}

/// The options that keep a check to its own place.
pub open spec fn private_words(lists: Seq<char>, cache: Seq<char>, conf: Seq<char>) -> Seq<Seq<char>> {
    seq!["-c"@, conf, "-o"@, "Dir::State::Lists="@ + lists, "-o"@, "Dir::Cache="@ + cache]
}

/// A run's arguments, behind the options that keep it to the check's own place.
pub fn run_private(place: &CheckPlace, run: AptRun) -> (arguments: Vec<String>)
    ensures
        text::strings(arguments@) == private_words(place.lists@, place.cache@, place.conf@) + text::strings(
            run.arguments@,
        ),
{
    let mut arguments: Vec<String> = Vec::new();
    arguments.push("-c".to_owned());
    arguments.push(place.conf.clone());
    arguments.push("-o".to_owned());
    arguments.push("Dir::State::Lists=".to_owned().concat(place.lists.as_str()));
    arguments.push("-o".to_owned());
    arguments.push("Dir::Cache=".to_owned().concat(place.cache.as_str()));
    let ghost private = arguments@;
    assert(text::strings(private) =~= private_words(place.lists@, place.cache@, place.conf@));
    let mut rest = run.arguments;
    let ghost asked = rest@;
    arguments.append(&mut rest);
    assert(text::strings(arguments@) =~= text::strings(private) + text::strings(asked));
    arguments
}

/// How far a check has come.
#[derive(Debug, PartialEq, Eq)]
pub enum AptCheck {
    /// The lists are being refreshed.
    Updating,
    /// The upgrade is being simulated against them and the real dpkg status.
    Simulating,
    /// The sizes of these packages are being asked for.
    Showing(Vec<UpdateCandidate>),
}

/// What a check does next.
#[derive(Debug, PartialEq, Eq)]
pub enum AptNext {
    Run { run: AptRun, check: AptCheck },
    Done(Result<CheckReport, String>),
}

/// The next step of a check, once its last run gave this stdout or failed. A run that failed ends it.
pub fn check_next(check: AptCheck, stdout: Result<String, String>) -> (next: AptNext)
    ensures
        match (check, stdout) {
            (_, Err(reason)) => next matches AptNext::Done(Err(message)) && message@ == reason@,
            (AptCheck::Updating, Ok(_)) => next matches AptNext::Run { run, check: AptCheck::Simulating }
                && run.program@ == "apt-get"@ && text::strings(run.arguments@) == seq!["-s"@] + upgrade_words(),
            (AptCheck::Simulating, Ok(stdout)) => {
                let found = check::insts(text::lines(stdout@));
                if found.len() == 0 {
                    next matches AptNext::Done(Ok(report)) && report.packages@.len() == 0 && report.aur_error is None
                } else {
                    next matches AptNext::Run { run, check: AptCheck::Showing(packages) } && run.program@
                        == "apt-cache"@ && text::strings(run.arguments@) == seq!["show"@] + Seq::new(
                        found.len(),
                        |i: int| found[i].name + "="@ + found[i].new_version,
                    ) && super::backend::candidates(packages@) == found
                }
            },
            (AptCheck::Showing(packages), Ok(stdout)) => next matches AptNext::Done(Ok(report))
                && report.aur_error is None && super::backend::candidates(report.packages@) == Seq::new(
                packages@.len(),
                |i: int| check::sized(packages@[i]@, stdout@),
            ),
        },
{
    let stdout = match stdout {
        Ok(stdout) => stdout,
        Err(reason) => return AptNext::Done(Err(reason)),
    };
    match check {
        AptCheck::Updating => AptNext::Run { run: simulate_run(), check: AptCheck::Simulating },
        AptCheck::Simulating => {
            let packages = check::parse_simulation(stdout.as_str());
            let ghost found = super::backend::candidates(packages@);
            match show_run(&packages) {
                Some(run) => {
                    assert(text::strings(run.arguments@) =~= seq!["show"@] + Seq::new(
                        found.len(),
                        |i: int| found[i].name + "="@ + found[i].new_version,
                    ));
                    AptNext::Run { run, check: AptCheck::Showing(packages) }
                },
                None => AptNext::Done(Ok(CheckReport { packages, aur_error: None })),
            }
        },
        AptCheck::Showing(packages) => {
            let mut packages = packages;
            let ghost before = packages@;
            check::fill_sizes(&mut packages, stdout.as_str());
            assert(super::backend::candidates(packages@) =~= Seq::new(
                before.len(),
                |i: int| check::sized(before[i]@, stdout@),
            ));
            AptNext::Done(Ok(CheckReport { packages, aur_error: None }))
        },
    }
}

/// The next command of a check, which runs with the private lists.
#[derive(Debug, PartialEq, Eq)]
pub struct AptRun {
    pub program: String,
    pub arguments: Vec<String>,
}

/// What refreshes the private lists. A repo that fails to refresh fails the check, instead of old
/// lists being read as current.
pub fn update_run() -> (run: AptRun)
    ensures
        run.program@ == "apt-get"@,
        text::strings(run.arguments@) == seq!["-q"@, "update"@, "--error-on=any"@],
{
    let mut arguments: Vec<String> = Vec::new();
    arguments.push("-q".to_owned());
    arguments.push("update".to_owned());
    arguments.push("--error-on=any".to_owned());
    assert(text::strings(arguments@) =~= seq!["-q"@, "update"@, "--error-on=any"@]);
    AptRun { program: "apt-get".to_owned(), arguments }
}

/// What simulates the upgrade.
pub fn simulate_run() -> (run: AptRun)
    ensures
        run.program@ == "apt-get"@,
        text::strings(run.arguments@) == seq!["-s"@] + upgrade_words(),
{
    let mut words: Vec<&'static str> = Vec::new();
    words.push("-s");
    let mut rest = upgrade_arguments();
    words.append(&mut rest);
    assert(text::texts(words@) =~= seq!["-s"@] + upgrade_words());
    AptRun { program: "apt-get".to_owned(), arguments: text::owned(&words) }
}

/// How `apt-cache` is asked for one version of a package.
pub open spec fn wanted(package: UpdateCandidate) -> Seq<char> {
    package.name@ + "="@ + package.new_version@
}

/// What asks for the sizes of `packages`; nothing for no packages.
pub fn show_run(packages: &Vec<UpdateCandidate>) -> (run: Option<AptRun>)
    ensures
        run is None <==> packages@.len() == 0,
        run matches Some(run) ==> {
            &&& run.program@ == "apt-cache"@
            &&& text::strings(run.arguments@) == seq!["show"@] + Seq::new(
                packages@.len(),
                |i: int| wanted(packages@[i]),
            )
        },
{
    if packages.len() == 0 {
        return None;
    }
    let mut arguments: Vec<String> = Vec::new();
    arguments.push("show".to_owned());
    let mut i: usize = 0;
    while i < packages.len()
        invariant
            i <= packages@.len(),
            arguments@.len() == i + 1,
            arguments@[0]@ == "show"@,
            forall|j: int| 0 <= j < i ==> (#[trigger] arguments@[j + 1])@ == wanted(packages@[j]),
        decreases packages@.len() - i,
    {
        arguments.push(
            packages[i].name.clone().concat("=").concat(packages[i].new_version.as_str()),
        );
        i += 1;
    }
    assert(text::strings(arguments@) =~= seq!["show"@] + Seq::new(
        packages@.len(),
        |i: int| wanted(packages@[i]),
    )) by {
        assert forall|k: int| 0 < k < arguments@.len() implies (#[trigger] arguments@[k])@ == wanted(
            packages@[k - 1],
        ) by {
            assert(arguments@[(k - 1) + 1]@ == wanted(packages@[k - 1]));
        }
    }
    Some(AptRun { program: "apt-cache".to_owned(), arguments })
}

/// A check keeps its lists, its cache and its settings apart from the system's, under the runtime
/// directory, and every run is told so.
pub proof fn a_check_keeps_to_its_own_place(root: Seq<char>, lists: Seq<char>, cache: Seq<char>, conf: Seq<char>)
    ensures
        place_under(root).0 == path::joined(path::joined(root, "apt"@), "lists"@),
        place_under(root).1 == path::joined(path::joined(path::joined(root, "apt"@), "lists"@), "partial"@),
        place_under(root).2 == path::joined(path::joined(root, "apt"@), "cache"@),
        place_under(root).3 == path::joined(path::joined(root, "apt"@), "apt.conf"@),
        private_words(lists, cache, conf) == seq![
            "-c"@,
            conf,
            "-o"@,
            "Dir::State::Lists="@ + lists,
            "-o"@,
            "Dir::Cache="@ + cache,
        ],
        NO_HOOKS@
            == "#clear APT::Update::Pre-Invoke;\n#clear APT::Update::Post-Invoke;\n#clear APT::Update::Post-Invoke-Success;\n"@,
{
}

/// What is simulated is what is installed: an upgrade that may bring new packages. It asks nothing,
/// keeps changed settings and runs under `pkexec`.
pub proof fn what_is_simulated_is_installed(backend: AptBackend, enabled: bool, package: UpdateCandidate)
    ensures
        upgrade_words() == seq!["upgrade"@, "--with-new-pkgs"@],
        install_script()
            == "apt-get update && apt-get -y -o Dpkg::Options::=--force-confdef -o Dpkg::Options::=--force-confold "@ + (
        "upgrade"@ + " "@ + "--with-new-pkgs"@),
        backend.spec_install_command() == (CommandView {
            program: "pkexec"@,
            arguments: seq![
                "env"@,
                "LC_ALL=C"@,
                "DEBIAN_FRONTEND=noninteractive"@,
                "sh"@,
                "-c"@,
                install_script(),
            ],
        }),
        backend.spec_command_with_aur(enabled) == backend.spec_install_command(),
        backend.spec_name() == "apt"@,
        backend.spec_aur_helper() is None,
        backend.spec_aur_error(enabled) is None,
        backend.spec_with_aur(enabled) == backend,
        wanted(package) == package.name@ + "="@ + package.new_version@,
{
    assert(upgrade_words().drop_last() =~= seq!["upgrade"@]);
    assert(text::join(seq!["upgrade"@], " "@) == "upgrade"@);
}

/// Lines are read for steps one after the other, by what was announced before them.
pub proof fn a_line_is_read_after_those_before_it(backend: AptBackend, line: Seq<char>)
    ensures
        backend.spec_install_step(line) == install::step_of(backend.install, line),
        backend.spec_after_line(line).install == install::progress_after(backend.install, line),
{
}

} // verus!
