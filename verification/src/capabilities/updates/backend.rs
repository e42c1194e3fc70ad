//! What a package manager is to `mantle.updates`: how it is named, what installs the upgrades, and
//! how its output is read.

use vstd::prelude::*;

use crate::text;

verus! {

/// One installed package with a newer version.
#[derive(Debug, Clone, PartialEq, Eq)]
pub struct UpdateCandidate {
    /// Package name.
    pub name: String,
    /// Installed version.
    pub old_version: String,
    /// Version on offer.
    pub new_version: String,
    /// Bytes to fetch; `0` when already cached.
    pub download_size: i64,
    /// Bytes the new version occupies installed; not a delta.
    pub installed_size: i64,
    /// Source repository, e.g. `"extra"` or `"aur"`; empty in a seeded list that lacks it.
    pub repository: String,
}

/// One successful check. `aur_error` means the AUR half failed; `packages` still holds the repos'.
#[derive(Debug, Clone, PartialEq, Eq)]
pub struct CheckReport {
    pub packages: Vec<UpdateCandidate>,
    pub aur_error: Option<String>,
}

/// Parsed install progress: which package of how many.
#[derive(Debug, Clone, PartialEq, Eq)]
pub struct InstallStep {
    pub current: u32,
    pub total: u32,
    pub package: String,
}

/// Privileged upgrade command. Backends use `pkexec`, which routes the prompt to the shell's own
/// polkit agent instead of a terminal.
#[derive(Debug, PartialEq, Eq)]
pub struct InstallCommand {
    pub program: String,
    pub arguments: Vec<String>,
}

/// What an [`UpdateCandidate`] says.
pub struct CandidateView {
    pub name: Seq<char>,
    pub old_version: Seq<char>,
    pub new_version: Seq<char>,
    pub download_size: i64,
    pub installed_size: i64,
    pub repository: Seq<char>,
}

pub struct StepView {
    pub current: u32,
    pub total: u32,
    pub package: Seq<char>,
}

pub struct CommandView {
    pub program: Seq<char>,
    pub arguments: Seq<Seq<char>>,
}

impl View for UpdateCandidate {
    type V = CandidateView;

    open spec fn view(&self) -> CandidateView {
        CandidateView {
            name: self.name@,
            old_version: self.old_version@,
            new_version: self.new_version@,
            download_size: self.download_size,
            installed_size: self.installed_size,
            repository: self.repository@,
        }
    }
}

impl View for InstallStep {
    type V = StepView;

    open spec fn view(&self) -> StepView {
        StepView { current: self.current, total: self.total, package: self.package@ }
    }
}

impl View for InstallCommand {
    type V = CommandView;

    open spec fn view(&self) -> CommandView {
        CommandView { program: self.program@, arguments: text::strings(self.arguments@) }
    }
}

pub open spec fn candidates(list: Seq<UpdateCandidate>) -> Seq<CandidateView> {
    Seq::new(list.len(), |i: int| list[i]@)
}

pub open spec fn step_view(step: Option<InstallStep>) -> Option<StepView> {
    match step {
        Some(step) => Some(step@),
        None => None,
    }
}

/// A package manager.
pub trait Backend: Sized {
    spec fn spec_name(&self) -> Seq<char>;

    spec fn spec_install_command(&self) -> CommandView;

    /// The AUR helper it would install through, if it has one.
    spec fn spec_aur_helper(&self) -> Option<Seq<char>>;

    /// What `aur` being on or off leaves as `aur_error`.
    spec fn spec_aur_error(&self, enabled: bool) -> Option<Seq<char>>;

    /// The command that performs the real upgrade once `aur` is on or off.
    spec fn spec_command_with_aur(&self, enabled: bool) -> CommandView;

    /// The step a line of the install's stdout stands for, after the lines read so far.
    spec fn spec_install_step(&self, line: Seq<char>) -> Option<StepView>;

    /// The backend once it has read a line of the install's stdout.
    spec fn spec_after_line(&self, line: Seq<char>) -> Self;

    /// The backend with `aur` on or off.
    spec fn spec_with_aur(&self, enabled: bool) -> Self;

    /// Whether `aur` is on or off says nothing of how the install's stdout is read.
    proof fn aur_is_beside_the_output(&self, enabled: bool, line: Seq<char>)
        ensures
            self.spec_with_aur(enabled).spec_install_step(line) == self.spec_install_step(line),
            self.spec_with_aur(enabled).spec_after_line(line) == self.spec_after_line(line).spec_with_aur(enabled),
    ;

    /// Manager name in the payload, e.g. the lowercase command name `"pacman"`.
    fn name(&self) -> (name: &'static str)
        ensures
            name@ == self.spec_name(),
    ;

    /// The command that performs the real upgrade.
    fn install_command(&self) -> (command: InstallCommand)
        ensures
            command@ == self.spec_install_command(),
    ;

    /// The AUR helper this backend would install through, if it has one.
    fn aur_helper(&self) -> (helper: Option<String>)
        ensures
            text::optional(helper) == self.spec_aur_helper(),
    ;

    /// Applies `configure`'s `aur`, returning the `aur_error` it leaves.
    fn set_aur(&mut self, enabled: bool) -> (error: Option<String>)
        ensures
            *final(self) == old(self).spec_with_aur(enabled),
            final(self).spec_name() == old(self).spec_name(),
            final(self).spec_aur_helper() == old(self).spec_aur_helper(),
            text::optional(error) == old(self).spec_aur_error(enabled),
            final(self).spec_install_command() == old(self).spec_command_with_aur(enabled),
            forall|on: bool| #[trigger]
                final(self).spec_aur_error(on) == old(self).spec_aur_error(on),
            forall|on: bool| #[trigger]
                final(self).spec_command_with_aur(on) == old(self).spec_command_with_aur(on),
            forall|line: Seq<char>| #[trigger]
                final(self).spec_install_step(line) == old(self).spec_install_step(line),
            forall|line: Seq<char>| #[trigger]
                final(self).spec_after_line(line) == old(self).spec_after_line(line).spec_with_aur(enabled),
            forall|line: Seq<char>, next: Seq<char>| #[trigger]
                final(self).spec_after_line(line).spec_install_step(next) == old(self).spec_after_line(
                    line,
                ).spec_install_step(next),
    ;

    /// Reads one line of the install's stdout.
    fn parse_install_step(&mut self, line: &str) -> (step: Option<InstallStep>)
        ensures
            step_view(step) == old(self).spec_install_step(line@),
            *final(self) == old(self).spec_after_line(line@),
            final(self).spec_name() == old(self).spec_name(),
            final(self).spec_aur_helper() == old(self).spec_aur_helper(),
            final(self).spec_install_command() == old(self).spec_install_command(),
            forall|on: bool| #[trigger]
                final(self).spec_aur_error(on) == old(self).spec_aur_error(on),
            forall|on: bool| #[trigger]
                final(self).spec_command_with_aur(on) == old(self).spec_command_with_aur(on),
    ;
}

/// Whether every non-zero exit is a failure: for a manager that has no other use for it.
pub fn nonzero(code: Option<i32>, stderr: &str) -> (failed: bool)
    ensures
        failed == (code != Some(0i32)),
{
    match code {
        Some(code) => code != 0,
        None => true,
    }
}

/// What a failed run is reported as: what the program said, or how it ended.
pub open spec fn failure_text(program: Seq<char>, stderr: Seq<char>, status: Seq<char>) -> Seq<char> {
    if text::trim(stderr).len() == 0 {
        program + " exited with "@ + status
    } else {
        program + " failed: "@ + text::trim(stderr)
    }
}

pub fn run_failure(program: &str, stderr: &str, status: &str) -> (message: String)
    ensures
        message@ == failure_text(program@, stderr@, status@),
{
    let detail = text::str_trim(stderr);
    if detail.is_empty() {
        program.to_owned().concat(" exited with ").concat(status)
    } else {
        program.to_owned().concat(" failed: ").concat(detail)
    }
}

/// How a program's run in the C locale ended.
#[derive(Debug, Clone, PartialEq, Eq)]
pub struct Output {
    /// The exit code; `None` where a signal killed it.
    pub code: Option<i32>,
    /// The status as it reads.
    pub status: String,
    pub stdout: String,
    pub stderr: String,
}

/// What a run that did not fail gave.
#[derive(Debug, PartialEq, Eq)]
pub struct Ran {
    pub stdout: String,
    /// Its stderr lines, to log.
    pub warnings: Vec<String>,
}

/// The lines that are not blank.
pub open spec fn said(lines: Seq<Seq<char>>) -> Seq<Seq<char>>
    decreases lines.len(),
{
    if lines.len() == 0 {
        Seq::empty()
    } else if text::trim(lines.last()).len() == 0 {
        said(lines.drop_last())
    } else {
        said(lines.drop_last()).push(lines.last())
    }
}

/// The stderr lines of a success that are logged as warnings.
pub fn warnings(stderr: &str) -> (lines: Vec<String>)
    ensures
        text::strings(lines@) == said(text::lines(stderr@)),
{
    let all = text::str_lines(stderr);
    let ghost views = text::texts(all@);
    let mut lines: Vec<String> = Vec::new();
    let mut i: usize = 0;
    assert(views.subrange(0, 0) =~= Seq::<Seq<char>>::empty());
    assert(text::strings(lines@) =~= Seq::<Seq<char>>::empty());
    while i < all.len()
        invariant
            i <= all@.len(),
            views == text::texts(all@),
            text::strings(lines@) == said(views.subrange(0, i as int)),
        decreases all@.len() - i,
    {
        let ghost before = lines@;
        assert(views.subrange(0, i + 1).drop_last() =~= views.subrange(0, i as int));
        if !text::str_trim(all[i]).is_empty() {
            lines.push(all[i].to_owned());
            assert(text::strings(lines@) =~= text::strings(before).push(views[i as int]));
        }
        i += 1;
    }
    assert(views.subrange(0, i as int) =~= views);
    lines
}

/// What a run of `program` gave, or why it failed; every non-zero exit is a failure.
pub fn run(program: &str, output: Result<Output, String>) -> (ran: Result<Ran, String>)
    ensures
        match output {
            Err(reason) => ran matches Err(message) && message@ == "failed to run "@ + program@ + ": "@ + reason@,
            Ok(output) => if output.code != Some(0i32) {
                ran matches Err(message) && message@ == failure_text(program@, output.stderr@, output.status@)
            } else {
                ran matches Ok(ran) && ran.stdout@ == output.stdout@ && text::strings(ran.warnings@) == said(
                    text::lines(output.stderr@),
                )
            },
        },
{
    let output = match output {
        Ok(output) => output,
        Err(reason) => return Err(
            "failed to run ".to_owned().concat(program).concat(": ").concat(reason.as_str()),
        ),
    };
    if nonzero(output.code, output.stderr.as_str()) {
        return Err(run_failure(program, output.stderr.as_str(), output.status.as_str()));
    }
    let warnings = warnings(output.stderr.as_str());
    Ok(Ran { stdout: output.stdout, warnings })
}

/// What is known about the machine's package managers.
#[derive(Debug, Clone, Copy, PartialEq, Eq, Structural)]
pub struct Managers {
    pub pacman_on_path: bool,
    /// pacman's own database holds a package.
    pub pacman_owns_packages: bool,
    pub apt_get_on_path: bool,
    /// dpkg's status file is not empty.
    pub dpkg_owns_packages: bool,
    pub dnf_on_path: bool,
}

#[derive(Debug, Clone, Copy, PartialEq, Eq, Structural)]
pub enum Manager {
    Pacman,
    Apt,
    Dnf,
}

/// Package manager that owns `/`. Fedora and Debian package `pacman`, Fedora `apt` and Debian `dnf`
/// for building chroots, so pacman and apt count only with packages in their own database.
pub fn detect(found: Managers) -> (manager: Option<Manager>)
    ensures
        manager == (if found.pacman_on_path && found.pacman_owns_packages {
            Some(Manager::Pacman)
        } else if found.apt_get_on_path && found.dpkg_owns_packages {
            Some(Manager::Apt)
        } else if found.dnf_on_path {
            Some(Manager::Dnf)
        } else {
            None
        }),
{
    if found.pacman_on_path && found.pacman_owns_packages {
        Some(Manager::Pacman)
    } else if found.apt_get_on_path && found.dpkg_owns_packages {
        Some(Manager::Apt)
    } else if found.dnf_on_path {
        Some(Manager::Dnf)
    } else {
        None
    }
}

/// A failed run is reported with what the program said, and with how it ended where it said nothing.
pub proof fn a_failure_says_what_was_said(program: Seq<char>, stderr: Seq<char>, status: Seq<char>)
    ensures
        text::trim(stderr).len() > 0 ==> failure_text(program, stderr, status) == program + " failed: "@ + text::trim(
            stderr,
        ),
        text::trim(stderr).len() == 0 ==> failure_text(program, stderr, status) == program + " exited with "@ + status,
{
}

/// Every line that holds more than whitespace is a warning, as it stands and in its order. Returns
/// where they stand.
pub proof fn every_line_with_text_is_a_warning(lines: Seq<Seq<char>>) -> (at: Seq<int>)
    ensures
        at.len() == said(lines).len(),
        forall|i: int| 0 <= i < at.len() ==> 0 <= #[trigger] at[i] < lines.len() && (text::trim(lines[at[i]]).len() > 0),
        forall|i: int| 0 <= i < at.len() ==> (said(lines)[i] == lines[#[trigger] at[i]]),
        forall|i: int, j: int| 0 <= i < j < at.len() ==> #[trigger] at[i] < #[trigger] at[j],
        forall|p: int| 0 <= p < lines.len() && (text::trim((#[trigger] lines[p])).len() > 0) ==> at.contains(p),
    decreases lines.len(),
{
    if lines.len() == 0 {
        Seq::empty()
    } else {
        let shorter = lines.drop_last();
        let n = lines.len() - 1;
        let before = every_line_with_text_is_a_warning(lines.drop_last());
        assert forall|p: int| 0 <= p < n implies shorter[p] == #[trigger] lines[p] by {}
        if text::trim(lines.last()).len() > 0 {
            let at = before.push(n);
            assert forall|p: int| 0 <= p < lines.len() && (text::trim((#[trigger] lines[p])).len() > 0) implies at.contains(p) by {
                if p < n {
                    assert(shorter[p] == lines[p]);
                    let k = choose|k: int| 0 <= k < before.len() && before[k] == p;
                    assert(at[k] == p);
                } else {
                    assert(at[before.len() as int] == p);
                }
            }
            at
        } else {
            assert forall|p: int| 0 <= p < lines.len() && (text::trim((#[trigger] lines[p])).len() > 0) implies before.contains(
                p,
            ) by {
                assert(p < n);
                assert(shorter[p] == lines[p]);
            }
            before
        }
    }
}

} // verus!
