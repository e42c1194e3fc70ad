//! [`UpdatesController`]: `mantle.updates` write-action dispatcher and state owner.

use vstd::prelude::*;

use super::backend::{Backend, CheckReport, InstallCommand, InstallStep, StepView, UpdateCandidate};
use crate::text;

verus! {

/// `mantle.updates`'s payload.
#[derive(Debug, Clone, PartialEq, Eq)]
pub struct UpdatesState {
    /// Package manager, e.g. `"pacman"`, from the first push, which comes at start; `None` when none
    /// is supported, and every action is ignored.
    pub package_manager: Option<String>,
    /// AUR helper found at start, `"paru"` or `"yay"`; used only once `configure` sets `aur`.
    pub aur_helper: Option<String>,
    /// Always the number of `packages`.
    pub count: u32,
    /// Pending upgrades. A failed check keeps the last good list.
    pub packages: Vec<UpdateCandidate>,
    /// Unix seconds of the last successful check (or the `checked_at` seed).
    pub last_successful_check: Option<i64>,
    /// Why the last check failed; `None` after a success. A check never modifies the system.
    pub check_error: Option<String>,
    /// Why AUR packages are missing: the last check's AUR query failed, or `aur` is on with no
    /// `aur_helper`. `packages` still holds the repos' answer.
    pub aur_error: Option<String>,
    /// A check is running.
    pub checking: bool,
    /// Check failures in a row; a success resets it to `0`.
    pub consecutive_check_failures: u32,
    /// An install is running; the `install_*` fields describe the latest run.
    pub installing: bool,
    /// 1-based number of the package being installed, e.g. pacman's `(2/5)`; `0` before the first.
    pub install_current_step: u32,
    /// Packages in the transaction; `0` until the first step line, so draw progress as indeterminate.
    pub install_total_steps: u32,
    /// Package being installed; empty before the first step line.
    pub install_current_package: String,
    /// Package manager's exit code for the last install (`0` success); `None` while running, before
    /// one, or when a signal killed it.
    pub install_exit_code: Option<i32>,
    /// Unix seconds when the last install's process ended, whatever its status; `None` while
    /// running, before one, or when it failed to spawn.
    pub install_finished_at: Option<i64>,
    /// The last 200 lines of install output, stdout and stderr interleaved, newest last; cleared
    /// when an install starts.
    pub install_log: Vec<String>,
    /// Why the package manager could not be run or waited on. Its own failures are
    /// `install_exit_code`.
    pub install_error: Option<String>,
    /// The reboot marker exists, watched live.
    pub reboot_required: bool,
}

/// A state in which nothing has happened.
pub open spec fn is_blank(state: UpdatesState) -> bool {
    &&& state.package_manager is None
    &&& state.aur_helper is None
    &&& state.count == 0
    &&& state.packages@.len() == 0
    &&& state.last_successful_check is None
    &&& state.check_error is None
    &&& state.aur_error is None
    &&& !state.checking
    &&& state.consecutive_check_failures == 0
    &&& !state.installing
    &&& state.install_current_step == 0
    &&& state.install_total_steps == 0
    &&& state.install_current_package@.len() == 0
    &&& state.install_exit_code is None
    &&& state.install_finished_at is None
    &&& state.install_log@.len() == 0
    &&& state.install_error is None
    &&& !state.reboot_required
}

impl Default for UpdatesState {
    fn default() -> (state: Self)
        ensures
            is_blank(state),
    {
        UpdatesState {
            package_manager: None,
            aur_helper: None,
            count: 0,
            packages: Vec::new(),
            last_successful_check: None,
            check_error: None,
            aur_error: None,
            checking: false,
            consecutive_check_failures: 0,
            installing: false,
            install_current_step: 0,
            install_total_steps: 0,
            install_current_package: String::new(),
            install_exit_code: None,
            install_finished_at: None,
            install_log: Vec::new(),
            install_error: None,
            reboot_required: false,
        }
    }
}

#[derive(Debug, Clone, Copy, PartialEq, Eq, Structural)]
pub enum UpdatesSignal {
    Changed,
}

/// `configure`'s table.
#[derive(Debug)]
pub struct UpdatesConfigure {
    /// Seconds between scheduled checks, the first at once unless `last_successful_check` is
    /// younger; `0` checks only on `check`.
    pub interval_secs: u64,
    /// Persisted Unix seconds of the last successful check. Seeds `last_successful_check` only
    /// while that is `None`, so a restart need not recheck at once.
    pub checked_at: Option<i64>,
    /// Persisted `packages` from that check, seeded on the same terms; ignored without `checked_at`.
    pub packages: Vec<UpdateCandidate>,
    /// Also check the AUR and install through `aur_helper`. Sends every foreign package name to
    /// aur.archlinux.org and builds without PKGBUILD review.
    pub aur: bool,
}

/// Tail length for [`UpdatesState::install_log`]. Enough to hold a failure and nearby lines; a
/// 2,000-package run belongs in a file, not in a payload serialized again on every progress line.
pub const LOG_TAIL_LINES: usize = 200;

/// The longest interval, since a longer one overflows the timer's clock.
pub const MAX_INTERVAL: u64 = 0xffff_ffff;

/// A log with a line more, and its oldest line less where it was full.
pub open spec fn with_line<T>(log: Seq<T>, line: T) -> Seq<T> {
    if log.len() >= LOG_TAIL_LINES {
        log.subrange(1, log.len() as int).push(line)
    } else {
        log.push(line)
    }
}

/// Appends to the install-log tail, dropping its oldest line at capacity.
pub fn push_log_line(log: &mut Vec<String>, line: String)
    ensures
        final(log)@ == with_line(old(log)@, line),
{
    if log.len() >= LOG_TAIL_LINES {
        log.remove(0);
        assert(log@ =~= old(log)@.subrange(1, old(log)@.len() as int));
    }
    log.push(line);
}

/// The log after these lines, from an empty one.
pub open spec fn logged<T>(lines: Seq<T>) -> Seq<T>
    decreases lines.len(),
{
    if lines.len() == 0 {
        Seq::empty()
    } else {
        with_line(logged(lines.drop_last()), lines.last())
    }
}

/// The log is the last two hundred lines, in order, and all of them while there are fewer.
pub proof fn the_log_is_the_tail<T>(lines: Seq<T>)
    ensures
        logged(lines) == lines.subrange(
            if lines.len() > LOG_TAIL_LINES {
                lines.len() - LOG_TAIL_LINES
            } else {
                0
            },
            lines.len() as int,
        ),
    decreases lines.len(),
{
    if lines.len() > 0 {
        the_log_is_the_tail(lines.drop_last());
    }
    assert(logged(lines) =~= lines.subrange(
        if lines.len() > LOG_TAIL_LINES {
            lines.len() - LOG_TAIL_LINES
        } else {
            0
        },
        lines.len() as int,
    ));
}

/// A check's end: its report, the backend's error, or why it never ended.
pub type CheckResult = Result<Result<CheckReport, String>, String>;

/// The state after a check ended at `now`. A failure keeps the last good answer and writes only that
/// it failed.
pub open spec fn checked(state: UpdatesState, report: CheckReport, now: i64) -> UpdatesState {
    UpdatesState {
        checking: false,
        count: report.packages@.len() as u32,
        packages: report.packages,
        aur_error: report.aur_error,
        last_successful_check: Some(now),
        check_error: None,
        consecutive_check_failures: 0,
        ..state
    }
}

pub open spec fn check_failed(state: UpdatesState, error: String) -> UpdatesState {
    UpdatesState {
        checking: false,
        check_error: Some(error),
        consecutive_check_failures: if state.consecutive_check_failures == u32::MAX {
            u32::MAX
        } else {
            (state.consecutive_check_failures + 1) as u32
        },
        ..state
    }
}

/// The state after `configure`, whose `aur` left an error. The seed is used only before a check.
pub open spec fn configured(state: UpdatesState, configure: UpdatesConfigure, aur_error: Option<String>) -> UpdatesState {
    if configure.checked_at is Some && state.last_successful_check is None {
        UpdatesState {
            aur_error,
            last_successful_check: configure.checked_at,
            count: configure.packages@.len() as u32,
            packages: configure.packages,
            ..state
        }
    } else {
        UpdatesState { aur_error, ..state }
    }
}

/// Whether a state is that of an install just started: its own fields are blank.
pub open spec fn install_started(before: UpdatesState, after: UpdatesState) -> bool {
    &&& after.install_current_package@.len() == 0
    &&& after.install_log@.len() == 0
    &&& after == (UpdatesState {
        installing: true,
        install_current_step: 0,
        install_total_steps: 0,
        install_current_package: after.install_current_package,
        install_error: None,
        install_exit_code: None,
        install_finished_at: None,
        install_log: after.install_log,
        ..before
    })
}

// ---- an install's output ----

/// A line of an install's output, and the stream it came on.
pub struct OutputLine {
    pub stdout: bool,
    pub text: Seq<char>,
}

/// The step a line stands for: what the backend reads in a line of stdout.
pub open spec fn step_shown<B: Backend>(backend: Option<B>, line: OutputLine) -> Option<StepView> {
    match backend {
        Some(backend) if line.stdout => backend.spec_install_step(line.text),
        _ => None,
    }
}

/// The backend after a line; stderr is not read by it.
pub open spec fn backend_after<B: Backend>(backend: Option<B>, line: OutputLine) -> Option<B> {
    match backend {
        Some(reader) if line.stdout => Some(reader.spec_after_line(line.text)),
        _ => backend,
    }
}

/// Whether a state is another with a step shown, and whatever log.
pub open spec fn stepped(before: UpdatesState, after: UpdatesState, step: Option<StepView>) -> bool {
    match step {
        Some(step) => {
            &&& after.install_current_package@ == step.package
            &&& after == (UpdatesState {
                install_log: after.install_log,
                install_current_step: step.current,
                install_total_steps: step.total,
                install_current_package: after.install_current_package,
                ..before
            })
        },
        None => after == (UpdatesState { install_log: after.install_log, ..before }),
    }
}

/// What an install shows.
pub struct Progress {
    pub step: StepView,
    pub log: Seq<Seq<char>>,
}

pub open spec fn progress(state: UpdatesState) -> Progress {
    Progress {
        step: StepView {
            current: state.install_current_step,
            total: state.install_total_steps,
            package: state.install_current_package@,
        },
        log: text::strings(state.install_log@),
    }
}

/// What is shown after a line.
pub open spec fn shown_after(before: Progress, line: Seq<char>, step: Option<StepView>) -> Progress {
    Progress {
        step: match step {
            Some(step) => step,
            None => before.step,
        },
        log: with_line(before.log, line),
    }
}

/// The backend after some lines.
pub open spec fn backend_after_all<B: Backend>(backend: Option<B>, lines: Seq<OutputLine>) -> Option<B>
    decreases lines.len(),
{
    if lines.len() == 0 {
        backend
    } else {
        backend_after(backend_after_all(backend, lines.drop_last()), lines.last())
    }
}

/// What is shown after some lines, in the order they arrived in.
pub open spec fn shown_after_all<B: Backend>(backend: Option<B>, before: Progress, lines: Seq<OutputLine>) -> Progress
    decreases lines.len(),
{
    if lines.len() == 0 {
        before
    } else {
        shown_after(
            shown_after_all(backend, before, lines.drop_last()),
            lines.last().text,
            step_shown(backend_after_all(backend, lines.drop_last()), lines.last()),
        )
    }
}

/// The step that the line of this number stands for, the lines before it having been read.
pub open spec fn step_at<B: Backend>(backend: Option<B>, lines: Seq<OutputLine>, i: int) -> Option<StepView> {
    step_shown(backend_after_all(backend, lines.subrange(0, i)), lines[i])
}

pub open spec fn line_texts(lines: Seq<OutputLine>) -> Seq<Seq<char>> {
    Seq::new(lines.len(), |i: int| lines[i].text)
}

/// A controller that was handed a line shows what [`shown_after`] says: the step is the one that its
/// own backend reads in that very line.
pub proof fn a_line_is_shown_with_its_own_step<B: Backend>(
    backend: Option<B>,
    before: UpdatesState,
    after: UpdatesState,
    line: String,
    stdout: bool,
)
    requires
        after.install_log@ == with_line(before.install_log@, line),
        stepped(before, after, step_shown(backend, (OutputLine { stdout, text: line@ }))),
    ensures
        progress(after) == shown_after(
            progress(before),
            line@,
            step_shown(backend, (OutputLine { stdout, text: line@ })),
        ),
{
    assert(progress(after).log =~= with_line(progress(before).log, line@));
}

/// Of an install whose log starts empty, the step shown is that of the last line of stdout that the
/// backend reads one in, and the log is the tail of both streams' lines as they arrived.
pub proof fn the_last_step_is_shown<B: Backend>(backend: Option<B>, before: Progress, lines: Seq<OutputLine>, last: int)
    requires
        before.log.len() == 0,
        -1 <= last < lines.len(),
        last >= 0 ==> step_at(backend, lines, last) is Some,
        forall|i: int| last < i < lines.len() ==> #[trigger] step_at(backend, lines, i) is None,
    ensures
        shown_after_all(backend, before, lines).step == (if last >= 0 {
            step_at(backend, lines, last)->Some_0
        } else {
            before.step
        }),
        shown_after_all(backend, before, lines).log == logged(line_texts(lines)),
    decreases lines.len(),
{
    if lines.len() > 0 {
        let n = lines.len() - 1;
        let shorter = lines.drop_last();
        assert(lines.subrange(0, n) =~= shorter);
        assert forall|i: int| 0 <= i < n implies #[trigger] step_at(backend, shorter, i) == step_at(
            backend,
            lines,
            i,
        ) by {
            assert(shorter.subrange(0, i) =~= lines.subrange(0, i));
        }
        assert(line_texts(lines).drop_last() =~= line_texts(shorter));
        if last == n {
            lemma_log_is_logged(backend, before, shorter);
        } else {
            assert(step_at(backend, lines, n) is None);
            the_last_step_is_shown(backend, before, shorter, last);
        }
    } else {
        assert(logged(line_texts(lines)) =~= before.log);
    }
}

proof fn lemma_aur_beside_all<B: Backend>(backend: B, enabled: bool, lines: Seq<OutputLine>)
    ensures
        backend_after_all(Some(backend), lines) matches Some(after) && backend_after_all(
            Some(backend.spec_with_aur(enabled)),
            lines,
        ) == Some(after.spec_with_aur(enabled)),
    decreases lines.len(),
{
    if lines.len() > 0 {
        lemma_aur_beside_all(backend, enabled, lines.drop_last());
        let before = backend_after_all(Some(backend), lines.drop_last())->Some_0;
        before.aur_is_beside_the_output(enabled, lines.last().text);
    }
}

/// Switching `aur` on or off, before an install or between two of its lines, changes no step that is
/// read in whatever lines follow.
pub proof fn switching_aur_changes_no_step<B: Backend>(backend: B, enabled: bool, lines: Seq<OutputLine>, i: int)
    requires
        0 <= i < lines.len(),
    ensures
        step_at(Some(backend.spec_with_aur(enabled)), lines, i) == step_at(Some(backend), lines, i),
{
    lemma_aur_beside_all(backend, enabled, lines.subrange(0, i));
    let before = backend_after_all(Some(backend), lines.subrange(0, i))->Some_0;
    before.aur_is_beside_the_output(enabled, lines[i].text);
}

proof fn lemma_log_is_logged<B: Backend>(backend: Option<B>, before: Progress, lines: Seq<OutputLine>)
    requires
        before.log.len() == 0,
    ensures
        shown_after_all(backend, before, lines).log == logged(line_texts(lines)),
    decreases lines.len(),
{
    if lines.len() > 0 {
        lemma_log_is_logged(backend, before, lines.drop_last());
        assert(line_texts(lines).drop_last() =~= line_texts(lines.drop_last()));
    } else {
        assert(logged(line_texts(lines)) =~= before.log);
    }
}

/// Whether `count` is the number of packages.
pub open spec fn counted(state: UpdatesState) -> bool {
    state.count == state.packages@.len() as u32
}

/// Every action keeps `count` the number of packages.
pub proof fn the_count_is_the_number_of_packages(
    state: UpdatesState,
    configure: UpdatesConfigure,
    aur_error: Option<String>,
    report: CheckReport,
    now: i64,
    error: String,
    after: UpdatesState,
    step: Option<StepView>,
)
    requires
        counted(state),
    ensures
        counted(configured(state, configure, aur_error)),
        counted(checked(state, report, now)),
        counted(check_failed(state, error)),
        install_started(state, after) ==> counted(after),
        stepped(state, after, step) ==> counted(after),
{
}

/// A check that succeeded is the whole answer: its packages, also when there are none, their number,
/// its time and what the AUR said replace whatever the state held, and no failure is left.
pub proof fn a_successful_check_replaces_the_answer(
    state: UpdatesState,
    other: UpdatesState,
    report: CheckReport,
    now: i64,
)
    ensures
        checked(state, report, now).packages@ == report.packages@,
        report.packages@.len() <= u32::MAX ==> checked(state, report, now).count == report.packages@.len(),
        checked(state, report, now).aur_error == report.aur_error,
        checked(state, report, now).last_successful_check == Some(now),
        checked(state, report, now).check_error is None,
        checked(state, report, now).consecutive_check_failures == 0,
        !checked(state, report, now).checking,
        checked(state, report, now).packages == checked(other, report, now).packages,
        checked(state, report, now).count == checked(other, report, now).count,
        checked(state, report, now).installing == state.installing,
        checked(state, report, now).install_log == state.install_log,
        checked(state, report, now).reboot_required == state.reboot_required,
        checked(state, report, now).package_manager == state.package_manager,
{
}

/// A failed check keeps the last good answer and its time.
pub proof fn a_failed_check_keeps_the_last_answer(state: UpdatesState, error: String)
    ensures
        check_failed(state, error).packages == state.packages,
        check_failed(state, error).count == state.count,
        check_failed(state, error).last_successful_check == state.last_successful_check,
        check_failed(state, error).aur_error == state.aur_error,
{
}

/// A seed never replaces what this process has checked.
pub proof fn a_seed_never_overwrites_a_check(
    state: UpdatesState,
    configure: UpdatesConfigure,
    aur_error: Option<String>,
)
    requires
        state.last_successful_check is Some,
    ensures
        configured(state, configure, aur_error).last_successful_check == state.last_successful_check,
        configured(state, configure, aur_error).packages == state.packages,
        configured(state, configure, aur_error).count == state.count,
{
}

/// Whether a check is due: there was none, or the last success is at least an interval old. A success
/// in the future, after a clock step, is recent.
pub open spec fn check_due(last_successful_check: Option<i64>, now: i64, interval_secs: u64) -> bool {
    match last_successful_check {
        None => true,
        Some(last) => {
            let age = now - last;
            let capped = if age > i64::MAX {
                i64::MAX as int
            } else if age < i64::MIN {
                i64::MIN as int
            } else {
                age
            };
            capped >= interval_secs as i64
        },
    }
}

/// Whether the interval's immediate first tick should check or be consumed.
pub fn first_check_is_due(last_successful_check: Option<i64>, now: i64, interval_secs: u64) -> (due: bool)
    ensures
        due == check_due(last_successful_check, now, interval_secs),
{
    let last = match last_successful_check {
        Some(last) => last,
        None => return true,
    };
    let age: i128 = now as i128 - last as i128;
    let capped: i128 = if age > i64::MAX as i128 {
        i64::MAX as i128
    } else if age < i64::MIN as i128 {
        i64::MIN as i128
    } else {
        age
    };
    let interval: i64 = #[verifier::truncate]
    (interval_secs as i64);
    capped >= interval as i128
}

/// How the check task waits.
#[derive(Debug, Clone, Copy, PartialEq, Eq, Structural)]
pub enum CheckWait {
    /// No schedule: a new interval or a request ends the wait.
    Dormant,
    /// Ticks come every interval, the first at once; `skip_first` drops that one. A tick missed
    /// during a check comes late instead of in a burst, which would hammer mirrors.
    Ticking { interval_secs: u64, skip_first: bool },
}

/// What ends a wait.
#[derive(Debug, Clone, Copy, PartialEq, Eq, Structural)]
pub enum CheckEvent {
    Ticked,
    /// `check` was asked for.
    Asked,
    /// The interval was set again.
    Reconfigured,
    /// The controller is gone.
    Gone,
}

/// What the check task does next.
#[derive(Debug, Clone, Copy, PartialEq, Eq, Structural)]
pub enum CheckStep {
    /// Run one check, then keep the same wait.
    Check,
    /// Run one check, then take the wait anew.
    CheckAndReplan,
    /// Take the wait anew.
    Replan,
    Stop,
}

pub open spec fn wait_for(interval_secs: u64, due: bool) -> CheckWait {
    if interval_secs == 0 {
        CheckWait::Dormant
    } else {
        CheckWait::Ticking { interval_secs, skip_first: !due }
    }
}

pub open spec fn step_for(wait: CheckWait, event: CheckEvent) -> CheckStep {
    match event {
        CheckEvent::Gone => CheckStep::Stop,
        CheckEvent::Reconfigured => CheckStep::Replan,
        CheckEvent::Ticked => CheckStep::Check,
        CheckEvent::Asked => match wait {
            CheckWait::Dormant => CheckStep::CheckAndReplan,
            CheckWait::Ticking { .. } => CheckStep::Check,
        },
    }
}

/// The check task's next step. Dormant still answers a request; a config may use a button without a
/// timer.
pub fn check_step(wait: CheckWait, event: CheckEvent) -> (step: CheckStep)
    ensures
        step == step_for(wait, event),
{
    match event {
        CheckEvent::Gone => CheckStep::Stop,
        CheckEvent::Reconfigured => CheckStep::Replan,
        CheckEvent::Ticked => CheckStep::Check,
        CheckEvent::Asked => match wait {
            CheckWait::Dormant => CheckStep::CheckAndReplan,
            CheckWait::Ticking { .. } => CheckStep::Check,
        },
    }
}

/// What `configure` leads to.
#[derive(Debug, Clone, Copy, PartialEq, Eq, Structural)]
pub struct Configured {
    /// The state changed, so it is pushed.
    pub changed: bool,
    /// The check task's interval, handed to it even where it is the same.
    pub interval_secs: u64,
}

fn same_error(a: &Option<String>, b: &Option<String>) -> (same: bool)
    ensures
        same == (text::optional(*a) == text::optional(*b)),
{
    match (a, b) {
        (Some(a), Some(b)) => text::same(a.as_str(), b.as_str()),
        (None, None) => true,
        _ => false,
    }
}

/// The state of `mantle.updates` and the package manager that changes it.
#[derive(Debug)]
pub struct UpdatesController<B: Backend> {
    /// Package manager backend, or `None`; actions do nothing instead of failing a check.
    backend: Option<B>,
    state: UpdatesState,
    interval_secs: u64,
    /// A requested check the task has not taken yet. One at a time collapses a burst.
    check_asked: bool,
}

impl<B: Backend> UpdatesController<B> {
    pub closed spec fn spec_backend(self) -> Option<B> {
        self.backend
    }

    pub closed spec fn spec_state(self) -> UpdatesState {
        self.state
    }

    pub closed spec fn spec_interval_secs(self) -> u64 {
        self.interval_secs
    }

    pub closed spec fn spec_check_asked(self) -> bool {
        self.check_asked
    }

    /// Everything but the state and the backend.
    pub open spec fn same_schedule(self, other: Self) -> bool {
        self.spec_interval_secs() == other.spec_interval_secs() && self.spec_check_asked()
            == other.spec_check_asked()
    }

    /// A controller over a backend, dormant until `configure`. It pushes at once, so that
    /// `package_manager` can decide whether an indicator shows, even on a machine with no backend
    /// and no later event.
    pub fn with_backend(backend: Option<B>) -> (made: (Self, UpdatesSignal))
        ensures
            made.1 == UpdatesSignal::Changed,
            made.0.spec_backend() == backend,
            made.0.spec_interval_secs() == 0,
            !made.0.spec_check_asked(),
            is_blank(UpdatesState { package_manager: None, aur_helper: None, ..made.0.spec_state() }),
            text::optional(made.0.spec_state().package_manager) == (match backend {
                Some(backend) => Some(backend.spec_name()),
                None => None,
            }),
            text::optional(made.0.spec_state().aur_helper) == (match backend {
                Some(backend) => backend.spec_aur_helper(),
                None => None,
            }),
    {
        let mut state = UpdatesState::default();
        match &backend {
            Some(backend) => {
                state.package_manager = Some(backend.name().to_owned());
                state.aur_helper = backend.aur_helper();
            },
            None => {},
        }
        (UpdatesController { backend, state, interval_secs: 0, check_asked: false }, UpdatesSignal::Changed)
    }

    /// Sets the schedule and optionally seeds a remembered check. The seed is used only before this
    /// process checks, never moving `last_successful_check` backwards. `None` without a backend.
    pub fn configure(&mut self, configure: UpdatesConfigure) -> (out: Option<Configured>)
        ensures
            match old(self).spec_backend() {
                None => out is None && *final(self) == *old(self),
                Some(backend) => out matches Some(configured_to) && {
                    &&& final(self).spec_backend() == Some(backend.spec_with_aur(configure.aur))
                    &&& final(self).spec_state() == configured(
                        old(self).spec_state(),
                        configure,
                        final(self).spec_state().aur_error,
                    )
                    &&& final(self).spec_check_asked() == old(self).spec_check_asked()
                    &&& final(self).spec_interval_secs() == configured_to.interval_secs
                    &&& configured_to.interval_secs == (if configure.interval_secs < MAX_INTERVAL {
                        configure.interval_secs
                    } else {
                        MAX_INTERVAL
                    })
                    &&& configured_to.changed == (text::optional(old(self).spec_state().aur_error)
                        != text::optional(final(self).spec_state().aur_error) || (configure.checked_at is Some
                        && old(self).spec_state().last_successful_check is None))
                    &&& final(self).spec_backend()->Some_0.spec_name() == backend.spec_name()
                    &&& final(self).spec_backend()->Some_0.spec_aur_helper() == backend.spec_aur_helper()
                    &&& text::optional(final(self).spec_state().aur_error) == backend.spec_aur_error(configure.aur)
                    &&& final(self).spec_backend()->Some_0.spec_install_command() == backend.spec_command_with_aur(
                        configure.aur,
                    )
                    &&& forall|on: bool| #[trigger]
                        final(self).spec_backend()->Some_0.spec_aur_error(on) == backend.spec_aur_error(on)
                    &&& forall|on: bool| #[trigger]
                        final(self).spec_backend()->Some_0.spec_command_with_aur(on) == backend.spec_command_with_aur(
                            on,
                        )
                    &&& forall|lines: Seq<OutputLine>, i: int|
                        0 <= i < lines.len() ==> #[trigger] step_at(final(self).spec_backend(), lines, i) == step_at(
                            Some(backend),
                            lines,
                            i,
                        )
                },
            },
    {
        let mut backend = match self.backend.take() {
            Some(backend) => backend,
            None => {
                assert(*self == *old(self));
                return None;
            },
        };
        let aur_error = backend.set_aur(configure.aur);
        self.backend = Some(backend);
        proof {
            let before = old(self).spec_backend()->Some_0;
            assert forall|lines: Seq<OutputLine>, i: int| 0 <= i < lines.len() implies #[trigger] step_at(
                self.spec_backend(),
                lines,
                i,
            ) == step_at(Some(before), lines, i) by {
                switching_aur_changes_no_step(before, configure.aur, lines, i);
            }
        }
        let mut changed = !same_error(&self.state.aur_error, &aur_error);
        self.state.aur_error = aur_error;
        if let Some(checked_at) = configure.checked_at {
            if self.state.last_successful_check.is_none() {
                self.state.last_successful_check = Some(checked_at);
                self.state.count = #[verifier::truncate]
                (configure.packages.len() as u32);
                self.state.packages = configure.packages;
                changed = true;
            }
        }
        self.interval_secs = if configure.interval_secs < MAX_INTERVAL {
            configure.interval_secs
        } else {
            MAX_INTERVAL
        };
        Some(Configured { changed, interval_secs: self.interval_secs })
    }

    /// `check()`: asks for one check regardless of schedule. Refuses a request while checking, since
    /// the answer under way is the requested one, and while one is pending.
    pub fn check_now(&mut self) -> (asked: bool)
        ensures
            asked == (old(self).spec_backend() is Some && !old(self).spec_state().checking
                && !old(self).spec_check_asked()),
            final(self).spec_check_asked() == (old(self).spec_check_asked() || asked),
            final(self).spec_backend() == old(self).spec_backend(),
            final(self).spec_state() == old(self).spec_state(),
            final(self).spec_interval_secs() == old(self).spec_interval_secs(),
    {
        if self.backend.is_none() || self.state.checking || self.check_asked {
            return false;
        }
        self.check_asked = true;
        true
    }

    /// The check task takes the pending request, if there is one.
    pub fn take_check(&mut self) -> (asked: bool)
        ensures
            asked == old(self).spec_check_asked(),
            !final(self).spec_check_asked(),
            final(self).spec_backend() == old(self).spec_backend(),
            final(self).spec_state() == old(self).spec_state(),
            final(self).spec_interval_secs() == old(self).spec_interval_secs(),
    {
        let asked = self.check_asked;
        self.check_asked = false;
        asked
    }

    /// How the check task waits now. An hourly schedule checks at once, unless this process has a
    /// fresh check: the controller outlives configs, and an unconditional skip would let every save
    /// reset the hour.
    pub fn check_wait(&self, now: i64) -> (wait: CheckWait)
        ensures
            wait == wait_for(
                self.spec_interval_secs(),
                check_due(self.spec_state().last_successful_check, now, self.spec_interval_secs()),
            ),
    {
        let due = first_check_is_due(self.state.last_successful_check, now, self.interval_secs);
        if self.interval_secs == 0 {
            CheckWait::Dormant
        } else {
            CheckWait::Ticking { interval_secs: self.interval_secs, skip_first: !due }
        }
    }

    /// A check starts, and is visible while it runs.
    pub fn check_started(&mut self) -> (signal: UpdatesSignal)
        ensures
            signal == UpdatesSignal::Changed,
            final(self).spec_state() == (UpdatesState { checking: true, ..old(self).spec_state() }),
            final(self).spec_backend() == old(self).spec_backend(),
            final(self).same_schedule(*old(self)),
    {
        self.state.checking = true;
        UpdatesSignal::Changed
    }

    /// A check ended at `now`: with its report, the backend's error, or why it never ended.
    pub fn check_ended(&mut self, result: CheckResult, now: i64) -> (signal: UpdatesSignal)
        ensures
            signal == UpdatesSignal::Changed,
            final(self).spec_backend() == old(self).spec_backend(),
            final(self).same_schedule(*old(self)),
            match result {
                Ok(Ok(report)) => final(self).spec_state() == checked(old(self).spec_state(), report, now)
                    && final(self).spec_state().packages@ == report.packages@ && final(self).spec_state().count
                    == report.packages@.len() as u32,
                Ok(Err(error)) => final(self).spec_state() == check_failed(old(self).spec_state(), error)
                    && final(self).spec_state().packages@ == old(self).spec_state().packages@
                    && final(self).spec_state().count == old(self).spec_state().count,
                Err(reason) => final(self).spec_state().check_error matches Some(error) && error@
                    == "check task panicked: "@ + reason@ && final(self).spec_state() == check_failed(
                    old(self).spec_state(),
                    error,
                ),
            },
    {
        self.state.checking = false;
        match result {
            Ok(Ok(report)) => {
                self.state.count = #[verifier::truncate]
                (report.packages.len() as u32);
                self.state.packages = report.packages;
                self.state.aur_error = report.aur_error;
                self.state.last_successful_check = Some(now);
                self.state.check_error = None;
                self.state.consecutive_check_failures = 0;
            },
            Ok(Err(error)) => {
                self.state.check_error = Some(error);
                self.state.consecutive_check_failures = self.state.consecutive_check_failures.saturating_add(1);
            },
            Err(reason) => {
                let error = "check task panicked: ".to_owned().concat(reason.as_str());
                self.state.check_error = Some(error);
                self.state.consecutive_check_failures = self.state.consecutive_check_failures.saturating_add(1);
            },
        }
        UpdatesSignal::Changed
    }

    /// `install()`: the command to run, or `None` without a backend or during another install, since
    /// package managers share one database lock.
    pub fn install(&mut self) -> (command: Option<InstallCommand>)
        ensures
            final(self).spec_backend() == old(self).spec_backend(),
            final(self).same_schedule(*old(self)),
            match command {
                None => (old(self).spec_backend() is None || old(self).spec_state().installing) && final(self).spec_state() == old(self).spec_state(),
                Some(command) => old(self).spec_backend() matches Some(backend) && !old(self).spec_state().installing && command@ == backend.spec_install_command() && install_started(
                    old(self).spec_state(),
                    final(self).spec_state(),
                ),
            },
    {
        if self.state.installing {
            return None;
        }
        let command = match &self.backend {
            Some(backend) => backend.install_command(),
            None => return None,
        };
        self.state.installing = true;
        self.state.install_current_step = 0;
        self.state.install_total_steps = 0;
        self.state.install_current_package = String::new();
        self.state.install_error = None;
        self.state.install_exit_code = None;
        self.state.install_finished_at = None;
        self.state.install_log = Vec::new();
        Some(command)
    }

    /// The install's program did not start.
    pub fn install_not_started(&mut self, program: &str, reason: &str) -> (signal: UpdatesSignal)
        ensures
            signal == UpdatesSignal::Changed,
            final(self).spec_backend() == old(self).spec_backend(),
            final(self).same_schedule(*old(self)),
            final(self).spec_state().install_error matches Some(error) && error@ == "failed to spawn "@ + program@
                + ": "@ + reason@ && final(self).spec_state() == (UpdatesState {
                installing: false,
                install_error: Some(error),
                ..old(self).spec_state()
            }),
    {
        self.state.installing = false;
        let error = "failed to spawn ".to_owned().concat(program).concat(": ").concat(reason);
        self.state.install_error = Some(error);
        UpdatesSignal::Changed
    }

    /// A line of the install's output, and the step it stands for.
    fn show_line(&mut self, line: String, step: Option<InstallStep>)
        ensures
            final(self).spec_backend() == old(self).spec_backend(),
            final(self).same_schedule(*old(self)),
            final(self).spec_state().install_log@ == with_line(old(self).spec_state().install_log@, line),
            stepped(old(self).spec_state(), final(self).spec_state(), super::backend::step_view(step)),
    {
        push_log_line(&mut self.state.install_log, line);
        if let Some(step) = step {
            self.state.install_current_step = step.current;
            self.state.install_total_steps = step.total;
            self.state.install_current_package = step.package;
        }
    }

    /// A line of the install's stdout: the backend reads it, and the step it stands for is shown.
    /// Every line is pushed, not only those that show progress.
    pub fn install_stdout_line(&mut self, line: String) -> (signal: UpdatesSignal)
        ensures
            signal == UpdatesSignal::Changed,
            final(self).same_schedule(*old(self)),
            final(self).spec_backend() == backend_after(
                old(self).spec_backend(),
                OutputLine { stdout: true, text: line@ },
            ),
            final(self).spec_state().install_log@ == with_line(old(self).spec_state().install_log@, line),
            stepped(
                old(self).spec_state(),
                final(self).spec_state(),
                step_shown(old(self).spec_backend(), (OutputLine { stdout: true, text: line@ })),
            ),
    {
        let step = match self.backend.take() {
            Some(mut backend) => {
                let step = backend.parse_install_step(line.as_str());
                self.backend = Some(backend);
                step
            },
            None => None,
        };
        self.show_line(line, step);
        UpdatesSignal::Changed
    }

    /// A line of the install's stderr: logged and pushed, and no step.
    pub fn install_stderr_line(&mut self, line: String) -> (signal: UpdatesSignal)
        ensures
            signal == UpdatesSignal::Changed,
            final(self).same_schedule(*old(self)),
            final(self).spec_backend() == old(self).spec_backend(),
            final(self).spec_state().install_log@ == with_line(old(self).spec_state().install_log@, line),
            stepped(old(self).spec_state(), final(self).spec_state(), None),
    {
        self.show_line(line, None);
        UpdatesSignal::Changed
    }

    /// The install's process ended at `now`, with its exit code (`None` where a signal killed it), or
    /// could not be waited on.
    pub fn install_ended(&mut self, status: Result<Option<i32>, String>, now: i64) -> (signal: UpdatesSignal)
        ensures
            signal == UpdatesSignal::Changed,
            final(self).spec_backend() == old(self).spec_backend(),
            final(self).same_schedule(*old(self)),
            match status {
                Ok(code) => final(self).spec_state() == (UpdatesState {
                    installing: false,
                    install_finished_at: Some(now),
                    install_exit_code: code,
                    ..old(self).spec_state()
                }),
                Err(reason) => final(self).spec_state().install_error matches Some(error) && error@
                    == "failed to wait on the install command: "@ + reason@ && final(self).spec_state() == (
                UpdatesState {
                    installing: false,
                    install_finished_at: Some(now),
                    install_error: Some(error),
                    ..old(self).spec_state()
                }),
            },
    {
        self.state.installing = false;
        self.state.install_finished_at = Some(now);
        match status {
            Ok(code) => {
                self.state.install_exit_code = code;
            },
            Err(reason) => {
                let error = "failed to wait on the install command: ".to_owned().concat(reason.as_str());
                self.state.install_error = Some(error);
            },
        }
        UpdatesSignal::Changed
    }

    /// Mirrors whether the reboot marker exists. Pushes only on a change: the marker's directory is
    /// busy, and every push costs a re-resolve of every surface.
    pub fn publish_reboot_required(&mut self, required: bool) -> (changed: bool)
        ensures
            changed == (old(self).spec_state().reboot_required != required),
            final(self).spec_state() == (UpdatesState { reboot_required: required, ..old(self).spec_state() }),
            final(self).spec_backend() == old(self).spec_backend(),
            final(self).same_schedule(*old(self)),
    {
        if self.state.reboot_required == required {
            return false;
        }
        self.state.reboot_required = required;
        true
    }

    pub fn snapshot(&self) -> (state: &UpdatesState)
        ensures
            *state == self.spec_state(),
    {
        &self.state
    }
}

/// A failed check ends the check, says why, counts one failure more and leaves the last answer and the
/// install as they were.
pub proof fn a_failed_check_says_why(state: UpdatesState, error: String)
    ensures
        !check_failed(state, error).checking,
        check_failed(state, error).check_error == Some(error),
        state.consecutive_check_failures < u32::MAX ==> check_failed(state, error).consecutive_check_failures
            == state.consecutive_check_failures + 1,
        state.consecutive_check_failures == u32::MAX ==> check_failed(state, error).consecutive_check_failures
            == u32::MAX,
        check_failed(state, error).packages == state.packages && check_failed(state, error).count == state.count,
        check_failed(state, error).last_successful_check == state.last_successful_check,
        check_failed(state, error).aur_error == state.aur_error,
        check_failed(state, error).installing == state.installing && check_failed(state, error).install_log
            == state.install_log && check_failed(state, error).reboot_required == state.reboot_required,
{
}

/// A seed is taken, with its packages, their number and its time, exactly where it names a time and no
/// check has succeeded yet; what `aur` leaves as an error is taken either way.
pub proof fn a_seed_is_taken_before_the_first_check(
    state: UpdatesState,
    configure: UpdatesConfigure,
    aur_error: Option<String>,
)
    ensures
        configured(state, configure, aur_error).aur_error == aur_error,
        configure.checked_at is Some && state.last_successful_check is None ==> {
            let after = configured(state, configure, aur_error);
            &&& after.last_successful_check == configure.checked_at
            &&& after.packages == configure.packages
            &&& configure.packages@.len() <= u32::MAX ==> after.count == configure.packages@.len()
        },
        !(configure.checked_at is Some && state.last_successful_check is None) ==> {
            let after = configured(state, configure, aur_error);
            &&& after.last_successful_check == state.last_successful_check
            &&& after.packages == state.packages
            &&& after.count == state.count
        },
        configured(state, configure, aur_error).checking == state.checking && configured(
            state,
            configure,
            aur_error,
        ).check_error == state.check_error && configured(state, configure, aur_error).consecutive_check_failures
            == state.consecutive_check_failures,
        configured(state, configure, aur_error).installing == state.installing && configured(
            state,
            configure,
            aur_error,
        ).install_log == state.install_log,
{
}

/// An install starts with nothing left of the last one, and with the last check's answer as it was.
pub proof fn an_install_starts_anew(before: UpdatesState, after: UpdatesState)
    requires
        install_started(before, after),
    ensures
        after.installing,
        after.install_current_step == 0 && after.install_total_steps == 0,
        after.install_current_package@.len() == 0 && after.install_log@.len() == 0,
        after.install_error is None && after.install_exit_code is None && after.install_finished_at is None,
        after.packages == before.packages && after.count == before.count,
        after.last_successful_check == before.last_successful_check && after.checking == before.checking,
        after.check_error == before.check_error && after.aur_error == before.aur_error,
        after.package_manager == before.package_manager && after.aur_helper == before.aur_helper,
        after.consecutive_check_failures == before.consecutive_check_failures && after.reboot_required
            == before.reboot_required,
{
}

/// The log takes every line at its end and keeps the last two hundred.
pub proof fn the_log_keeps_two_hundred_lines<T>(log: Seq<T>, line: T)
    ensures
        log.len() < 200 ==> with_line(log, line) == log + seq![line],
        log.len() >= 200 ==> with_line(log, line) == log.skip(1) + seq![line],
{
    assert(log.push(line) =~= log + seq![line]);
    assert(log.len() >= 200 ==> log.subrange(1, log.len() as int).push(line) =~= log.skip(1) + seq![line]);
}

/// A step shows where the install is and changes nothing else but the log.
pub proof fn a_step_shows_where_the_install_is(before: UpdatesState, after: UpdatesState, step: Option<StepView>)
    requires
        stepped(before, after, step),
    ensures
        step matches Some(step) ==> after.install_current_step == step.current && after.install_total_steps == step.total
            && after.install_current_package@ == step.package,
        step is None ==> after.install_current_step == before.install_current_step && after.install_total_steps
            == before.install_total_steps && after.install_current_package == before.install_current_package,
        after.installing == before.installing && after.install_error == before.install_error && after.install_exit_code
            == before.install_exit_code && after.install_finished_at == before.install_finished_at,
        after.packages == before.packages && after.count == before.count && after.checking == before.checking,
        after.last_successful_check == before.last_successful_check && after.check_error == before.check_error,
{
}

/// Only a line of stdout is read for a step, and only where there is a manager to read it.
pub proof fn only_stdout_is_read_for_steps<B: Backend>(backend: B, text: Seq<char>, line: OutputLine)
    ensures
        step_shown(Some(backend), OutputLine { stdout: true, text }) == backend.spec_install_step(text),
        backend_after(Some(backend), OutputLine { stdout: true, text }) == Some(backend.spec_after_line(text)),
        step_shown(Some(backend), OutputLine { stdout: false, text }) is None,
        backend_after(Some(backend), OutputLine { stdout: false, text }) == Some(backend),
        step_shown(None::<B>, line) is None,
        backend_after(None::<B>, line) is None,
{
}

/// The first check is due where none has succeeded, and otherwise once the interval has passed since.
pub proof fn a_check_is_due_after_its_interval(last: i64, now: i64, interval_secs: u64)
    ensures
        check_due(None, now, interval_secs),
        interval_secs <= i64::MAX && i64::MIN <= now - last <= i64::MAX ==> (check_due(Some(last), now, interval_secs)
            <==> now >= last + interval_secs),
        interval_secs <= i64::MAX && now - last > i64::MAX ==> check_due(Some(last), now, interval_secs),
        interval_secs <= i64::MAX && now - last < i64::MIN ==> !check_due(Some(last), now, interval_secs),
{
}

/// Without an interval nothing is waited for; with one the ticks come at it, and the first is skipped
/// exactly where no check is due.
pub proof fn an_interval_makes_ticks(interval_secs: u64, due: bool)
    ensures
        wait_for(0, due) is Dormant,
        interval_secs > 0 ==> wait_for(interval_secs, due) == (CheckWait::Ticking { interval_secs, skip_first: !due }),
{
}

/// A tick and a question are checked, a new configuration is planned for, and the end stops it all.
pub proof fn a_tick_and_a_question_are_checked(wait: CheckWait)
    ensures
        step_for(wait, CheckEvent::Ticked) is Check,
        step_for(wait, CheckEvent::Reconfigured) is Replan,
        step_for(wait, CheckEvent::Gone) is Stop,
        wait is Dormant ==> step_for(wait, CheckEvent::Asked) is CheckAndReplan,
        wait is Ticking ==> step_for(wait, CheckEvent::Asked) is Check,
{
}

/// Two controllers keep the same schedule where they check at the same interval and both, or neither,
/// were asked.
pub proof fn a_schedule_is_its_interval_and_what_was_asked<B: Backend>(a: UpdatesController<B>, b: UpdatesController<B>)
    ensures
        a.same_schedule(b) <==> a.spec_interval_secs() == b.spec_interval_secs() && a.spec_check_asked()
            == b.spec_check_asked(),
{
}

} // verus!
