//! Argument parsing for the `mantle` binary.
//!
//! Hand-rolled: a handful of flags, a handful of subcommands, and one non-obvious rule (`-c` may
//! name a file). What `-c` names is on disk, so [`parse`] asks for it and is called again with the
//! answer.

use vstd::prelude::*;

use crate::json;
use crate::path;
use crate::text;

verus! {

/// What `--help` prints.
pub const HELP: &'static str = "\
mantle -- a Wayland desktop shell configured in Lua

USAGE:
    mantle [OPTIONS]            start the shell
    mantle init [OPTIONS]       set up a config directory for editing
    mantle check [OPTIONS]      evaluate the config and exit
    mantle set <NAME> <VALUE>   write the running config's state(NAME) signal
    mantle toggle <NAME>        flip it, when it holds a boolean
    mantle toggle <NAME> <VALUE>
                                set it to VALUE, or back to its declared
                                initial when it already is VALUE
    mantle call <NAME> [ARGS]   run the config's action(NAME) and print what
                                 it returned
    mantle log [-f]             print the shell's stdout and stderr
    mantle list                 show running shells: PID UPTIME DIR CONFIG

OPTIONS:
    -c, --config <DIR>   the config directory, holding shell.lua. Overrides
                         $MANTLE_CONFIG_DIR and $XDG_CONFIG_HOME.
    -d, --detach         run only: start the shell in its own session and
                         return, sending its output to `mantle log`
        --force          init only: overwrite files that already exist
    -f, --follow         log only: keep printing until the shell exits
        --pid <PID>      set, toggle, call and log: the shell `list` shows,
                         not with -c
        --profile[=SECS] run only: log idle, heap and PSS/GPU reports every
                         SECS seconds, 60 by default. Implies -v, which is
                         the level the reports print at
    -v, --verbose        run only: repeat to raise the log level. None:
                         Error, Warn, and start/reload/respawn/stop. -v:
                         also Info. -vv/-vvv: Debug, itself levelled; past
                         -vvv it holds. Overridden by a MANTLE_LOG default
                         level. The config's own log.* always prints.
    -V, --version
    -h, --help

The config is a directory, not a file: `require` resolves inside it, and the
shell reloads when any .lua file in it changes.

`set` and `toggle` are how a compositor keybind reaches a running config:
bind `mantle toggle launcher_open` and the config's `state(\"launcher_open\",
false)` flips; bind `mantle toggle modal launcher` and `state(\"modal\", \"\")`
becomes \"launcher\", or \"\" again when it already was. VALUE is read as JSON
(true, 3, \"text\", [1,2]); anything that is not JSON is taken as a string, so
quoting `notifications` is optional.

`log` prints a shell's log from its runtime directory, and `-f` keeps reading
until that shell exits. Every run writes it; a terminal, a redirect or a pipe
also gets a copy.
`-d` starts a shell that way deliberately and prints its pid, so `mantle -d`
then `mantle log -f` runs one from a terminal without tying the terminal up.

`call` is for what a keybind wants the shell to *do* rather than look like:
the config declares `action(\"rec.toggle\", function() ... end)` and the bind is
`mantle call rec.toggle`. NAME is one opaque string -- the dot groups it for a
reader, nothing splits on it. Arguments are read as JSON like VALUE above. It
waits for the answer, prints it, and exits non-zero when the action failed or
does not exist.
";

/// How `set` and `toggle` write a state signal; values are compact JSON.
#[derive(Debug, PartialEq, Eq)]
pub enum StateWrite {
    SetTo(String),
    Toggle,
    ToggleTo(String),
}

/// A write to a running config's `state` signal.
#[derive(Debug, PartialEq, Eq)]
pub struct SetState {
    pub name: String,
    pub write: StateWrite,
}

#[derive(Debug, PartialEq, Eq)]
pub enum Command {
    /// Start the shell. The default with no arguments.
    Run,
    /// Write `.luarc.json` and the language-server stubs into the config directory.
    Init { force: bool },
    /// Evaluate the config and report what it says, without taking a Wayland surface.
    Check,
    /// `set <name> <value>`, `toggle <name>` or `toggle <name> <value>` writes a running config's
    /// `state` signal from outside, for a compositor keybind.
    SetState(SetState),
    /// `call <name> [args...]` runs a config's `action(name, fn)` and prints what it returned.
    /// `name` is one opaque string; the arguments are compact JSON.
    Call { name: String, arguments: Vec<String> },
    /// `log [-f]` prints what a run wrote to stdout and stderr.
    Log { follow: bool },
    /// `list` prints the running Supervisors.
    List,
    Version,
    Help,
}

#[derive(Debug, PartialEq, Eq)]
pub struct Args {
    pub command: Command,
    /// Absolute `-c` directory. `None` leaves the default order in charge.
    pub config_dir: Option<String>,
    /// `-d`: re-exec detached and give the caller's shell its prompt back.
    pub detach: bool,
    /// `--profile[=SECS]`: seconds between profile reports.
    pub profile: Option<u64>,
    /// `--pid`: the Supervisor `set`, `toggle`, `call` and `log` address.
    pub pid: Option<u32>,
    /// `-v`'s count, `-vv` and repetition both counted.
    pub verbose: u8,
}

/// How far [`parse`] came.
#[derive(Debug, PartialEq, Eq)]
pub enum Parsed {
    /// A `-c` names this path; its directory is the next answer wanted.
    Resolve(String),
    Done(Result<Args, String>),
}

pub enum StateWriteView {
    SetTo(Seq<char>),
    Toggle,
    ToggleTo(Seq<char>),
}

pub enum CommandView {
    Run,
    Init { force: bool },
    Check,
    SetState { name: Seq<char>, write: StateWriteView },
    Call { name: Seq<char>, arguments: Seq<Seq<char>> },
    Log { follow: bool },
    List,
    Version,
    Help,
}

pub struct ArgsView {
    pub command: CommandView,
    pub config_dir: Option<Seq<char>>,
    pub detach: bool,
    pub profile: Option<u64>,
    pub pid: Option<u32>,
    pub verbose: u8,
}

pub enum ParsedView {
    Resolve(Seq<char>),
    Done(Result<ArgsView, Seq<char>>),
}

impl View for StateWrite {
    type V = StateWriteView;

    open spec fn view(&self) -> StateWriteView {
        match *self {
            StateWrite::SetTo(value) => StateWriteView::SetTo(value@),
            StateWrite::Toggle => StateWriteView::Toggle,
            StateWrite::ToggleTo(value) => StateWriteView::ToggleTo(value@),
        }
    }
}

impl View for Command {
    type V = CommandView;

    open spec fn view(&self) -> CommandView {
        match *self {
            Command::Run => CommandView::Run,
            Command::Init { force } => CommandView::Init { force },
            Command::Check => CommandView::Check,
            Command::SetState(set) => CommandView::SetState { name: set.name@, write: set.write@ },
            Command::Call { name, arguments } => CommandView::Call {
                name: name@,
                arguments: text::strings(arguments@),
            },
            Command::Log { follow } => CommandView::Log { follow },
            Command::List => CommandView::List,
            Command::Version => CommandView::Version,
            Command::Help => CommandView::Help,
        }
    }
}

impl View for Args {
    type V = ArgsView;

    open spec fn view(&self) -> ArgsView {
        ArgsView {
            command: self.command@,
            config_dir: text::optional(self.config_dir),
            detach: self.detach,
            profile: self.profile,
            pid: self.pid,
            verbose: self.verbose,
        }
    }
}

impl View for Parsed {
    type V = ParsedView;

    open spec fn view(&self) -> ParsedView {
        match *self {
            Parsed::Resolve(raw) => ParsedView::Resolve(raw@),
            Parsed::Done(Ok(args)) => ParsedView::Done(Ok(args@)),
            Parsed::Done(Err(message)) => ParsedView::Done(Err(message@)),
        }
    }
}

// ---- single arguments ----

pub open spec fn vees(arg: Seq<char>) -> bool {
    &&& arg.len() >= 2
    &&& arg[0] == '-'
    &&& forall|i: int| 1 <= i < arg.len() ==> #[trigger] arg[i] == 'v'
}

/// `-v`'s count: `--verbose` is 1, and `-v`, `-vv`, `-vvv` count their own `v`s,
/// holding at 255.
pub open spec fn verbose_of(arg: Seq<char>) -> Option<u8> {
    if arg == "--verbose"@ {
        Some(1u8)
    } else if vees(arg) {
        Some(if arg.len() - 1 > 255 {
            255u8
        } else {
            (arg.len() - 1) as u8
        })
    } else {
        None
    }
}

/// `-v`'s count. `None` for anything else, `-` bare included.
pub fn verbose_count(arg: &str) -> (count: Option<u8>)
    ensures
        count == verbose_of(arg@),
{
    if text::same(arg, "--verbose") {
        return Some(1);
    }
    let chars = text::chars_of(arg);
    if chars.len() < 2 || chars[0] != '-' {
        return None;
    }
    let mut i: usize = 1;
    while i < chars.len()
        invariant
            1 <= i <= chars@.len(),
            chars@ == arg@,
            arg@ != "--verbose"@,
            forall|j: int| 1 <= j < i ==> #[trigger] chars@[j] == 'v',
        decreases chars@.len() - i,
    {
        if chars[i] != 'v' {
            assert(!vees(arg@));
            return None;
        }
        i += 1;
    }
    let count: usize = chars.len() - 1;
    Some(if count > 255 {
        255
    } else {
        count as u8
    })
}

/// Whether `arg` is one of the options the parser knows, rather than a value that merely begins
/// with a dash. `-1` is a `set` value; `-c` is an option even where a value is expected.
pub open spec fn known_option(arg: Seq<char>) -> bool {
    ||| arg == "-c"@ || arg == "--config"@
    ||| arg == "-d"@ || arg == "--detach"@
    ||| arg == "--force"@
    ||| arg == "-f"@ || arg == "--follow"@
    ||| arg == "-V"@ || arg == "--version"@
    ||| arg == "-h"@ || arg == "--help"@
    ||| arg == "--pid"@
    ||| text::starts_with(arg, "--pid="@)
    ||| text::starts_with(arg, "--config="@)
    ||| text::starts_with(arg, "--profile"@)
    ||| verbose_of(arg) is Some
}

pub fn is_option(arg: &str) -> (known: bool)
    ensures
        known == known_option(arg@),
{
    text::same(arg, "-c") || text::same(arg, "--config") || text::same(arg, "-d") || text::same(arg, "--detach")
        || text::same(arg, "--force") || text::same(arg, "-f") || text::same(arg, "--follow") || text::same(arg, "-V")
        || text::same(arg, "--version") || text::same(arg, "-h") || text::same(arg, "--help") || text::same(
        arg,
        "--pid",
    ) || text::str_starts_with(arg, "--pid=") || text::str_starts_with(arg, "--config=") || text::str_starts_with(arg, "--profile") || verbose_count(
        arg,
    ).is_some()
}

/// The process id that `--pid` names.
pub open spec fn pid_of(raw: Seq<char>) -> Result<u32, Seq<char>> {
    match text::parse_unsigned(raw, u32::MAX as nat) {
        Some(pid) => Ok(pid as u32),
        None => Err("--pid takes a process id, got "@ + text::debug_text(raw)),
    }
}

pub fn pid_from(raw: &str) -> (pid: Result<u32, String>)
    ensures
        pid_of(raw@) == (match pid {
            Ok(pid) => Ok::<u32, Seq<char>>(pid),
            Err(message) => Err(message@),
        }),
{
    match text::str_parse_u32(raw) {
        Some(pid) => Ok(pid),
        None => {
            let mut message = "--pid takes a process id, got ".to_owned();
            message.append(text::debug_of(raw).as_str());
            Err(message)
        },
    }
}

// ---- the scan ----

/// The subcommands.
#[derive(Debug, Clone, Copy, PartialEq, Eq, Structural)]
pub enum Verb {
    Init,
    Check,
    Write,
    Toggle,
    Call,
    Log,
    List,
}

/// The subcommand a word names.
pub open spec fn verb_of(arg: Seq<char>) -> Option<Verb> {
    if arg == "init"@ {
        Some(Verb::Init)
    } else if arg == "check"@ {
        Some(Verb::Check)
    } else if arg == "set"@ {
        Some(Verb::Write)
    } else if arg == "toggle"@ {
        Some(Verb::Toggle)
    } else if arg == "call"@ {
        Some(Verb::Call)
    } else if arg == "log"@ {
        Some(Verb::Log)
    } else if arg == "list"@ {
        Some(Verb::List)
    } else {
        None
    }
}

fn verb_from(arg: &str) -> (verb: Option<Verb>)
    ensures
        verb == verb_of(arg@),
{
    if text::same(arg, "init") {
        Some(Verb::Init)
    } else if text::same(arg, "check") {
        Some(Verb::Check)
    } else if text::same(arg, "set") {
        Some(Verb::Write)
    } else if text::same(arg, "toggle") {
        Some(Verb::Toggle)
    } else if text::same(arg, "call") {
        Some(Verb::Call)
    } else if text::same(arg, "log") {
        Some(Verb::Log)
    } else if text::same(arg, "list") {
        Some(Verb::List)
    } else {
        None
    }
}

/// What the arguments read so far said.
pub struct ScanView {
    pub verb: Option<Verb>,
    pub config_dir: Option<Seq<char>>,
    pub force: bool,
    pub follow: bool,
    pub detach: bool,
    pub profile: Option<u64>,
    pub pid: Option<u32>,
    pub verbose: u8,
    pub positional: Seq<Seq<char>>,
}

/// What one argument does to a scan.
pub enum Step {
    /// Goes on after this argument, or after it and its value.
    Next { scan: ScanView, consumed: int, answers: int },
    /// `--version` or `--help`: nothing after it is read.
    Early { command: CommandView, scan: ScanView },
    Fail(Seq<char>),
    /// A directory is wanted that no answer gives yet.
    Resolve(Seq<char>),
}

pub open spec fn empty_scan() -> ScanView {
    ScanView {
        verb: None,
        config_dir: None,
        force: false,
        follow: false,
        detach: false,
        profile: None,
        pid: None,
        verbose: 0,
        positional: Seq::empty(),
    }
}

/// Whether `arg` stands where a value is expected and is one.
pub open spec fn taken_as_value(scan: ScanView, arg: Seq<char>) -> bool {
    &&& !known_option(arg)
    &&& {
        ||| scan.verb == Some(Verb::Call)
        ||| (scan.verb == Some(Verb::Write) || scan.verb == Some(Verb::Toggle)) && scan.positional.len() < 2
    }
}

/// `-c`'s path is resolved by the next answer.
pub open spec fn config_step(
    scan: ScanView,
    raw: Seq<char>,
    consumed: int,
    answer: Option<Result<Seq<char>, Seq<char>>>,
) -> Step {
    match answer {
        None => Step::Resolve(raw),
        Some(Ok(dir)) => Step::Next {
            scan: ScanView { config_dir: Some(dir), ..scan },
            consumed,
            answers: 1,
        },
        Some(Err(message)) => Step::Fail(message),
    }
}

pub open spec fn pid_step(scan: ScanView, raw: Seq<char>, consumed: int) -> Step {
    match pid_of(raw) {
        Ok(pid) => Step::Next { scan: ScanView { pid: Some(pid), ..scan }, consumed, answers: 0 },
        Err(message) => Step::Fail(message),
    }
}

pub open spec fn profile_step(scan: ScanView, raw: Seq<char>) -> Step {
    match text::parse_unsigned(raw, u64::MAX as nat) {
        Some(secs) if secs > 0 => Step::Next {
            scan: ScanView { profile: Some(secs as u64), ..scan },
            consumed: 1,
            answers: 0,
        },
        _ => Step::Fail("--profile takes a positive number of seconds, got "@ + raw),
    }
}

/// Reads `arg`, with `next` behind it and `answer` the first unused directory.
pub open spec fn step(
    scan: ScanView,
    arg: Seq<char>,
    next: Option<Seq<char>>,
    answer: Option<Result<Seq<char>, Seq<char>>>,
) -> Step {
    if verbose_of(arg) is Some {
        let sum = scan.verbose + verbose_of(arg)->0;
        Step::Next {
            scan: ScanView {
                verbose: if sum > 255 {
                    255
                } else {
                    sum as u8
                },
                ..scan
            },
            consumed: 1,
            answers: 0,
        }
    } else if verb_of(arg) is Some && scan.verb is None {
        Step::Next { scan: ScanView { verb: verb_of(arg), ..scan }, consumed: 1, answers: 0 }
    } else if taken_as_value(scan, arg) {
        Step::Next {
            scan: ScanView { positional: scan.positional.push(arg), ..scan },
            consumed: 1,
            answers: 0,
        }
    } else if arg == "-c"@ || arg == "--config"@ {
        match next {
            Some(raw) => config_step(scan, raw, 2, answer),
            None => Step::Fail("--config needs a directory"@),
        }
    } else if arg == "-d"@ || arg == "--detach"@ {
        Step::Next { scan: ScanView { detach: true, ..scan }, consumed: 1, answers: 0 }
    } else if arg == "--detached"@ {
        Step::Next { scan, consumed: 1, answers: 0 }
    } else if arg == "--force"@ {
        Step::Next { scan: ScanView { force: true, ..scan }, consumed: 1, answers: 0 }
    } else if arg == "-f"@ || arg == "--follow"@ {
        Step::Next { scan: ScanView { follow: true, ..scan }, consumed: 1, answers: 0 }
    } else if arg == "--profile"@ {
        Step::Next { scan: ScanView { profile: Some(60), ..scan }, consumed: 1, answers: 0 }
    } else if arg == "--pid"@ {
        match next {
            Some(raw) => pid_step(scan, raw, 2),
            None => pid_step(scan, Seq::empty(), 1),
        }
    } else if arg == "-V"@ || arg == "--version"@ {
        Step::Early { command: CommandView::Version, scan }
    } else if arg == "-h"@ || arg == "--help"@ {
        Step::Early { command: CommandView::Help, scan }
    } else {
        match text::strip_prefix(arg, "--config="@) {
            Some(raw) => config_step(scan, raw, 1, answer),
            None => match text::strip_prefix(arg, "--pid="@) {
                Some(raw) => pid_step(scan, raw, 1),
                None => match text::strip_prefix(arg, "--profile="@) {
                    Some(raw) => profile_step(scan, raw),
                    None => Step::Fail("unknown argument "@ + arg),
                },
            },
        }
    }
}

// ---- what the scan adds up to ----

/// The subcommand with its operands.
pub open spec fn command_of(scan: ScanView) -> Result<CommandView, Seq<char>> {
    let positional = scan.positional;
    match scan.verb {
        Some(Verb::Init) => Ok(CommandView::Init { force: scan.force }),
        Some(Verb::Check) => Ok(CommandView::Check),
        Some(Verb::Write) => if positional.len() == 2 {
            Ok(
                CommandView::SetState {
                    name: positional[0],
                    write: StateWriteView::SetTo(json::word_value(positional[1])),
                },
            )
        } else {
            Err("set takes a state name and a value: `mantle set launcher_open true`"@)
        },
        Some(Verb::Toggle) => if positional.len() == 0 {
            Err("toggle takes a state name: `mantle toggle launcher_open`"@)
        } else {
            Ok(
                CommandView::SetState {
                    name: positional[0],
                    write: if positional.len() >= 2 {
                        StateWriteView::ToggleTo(json::word_value(positional[1]))
                    } else {
                        StateWriteView::Toggle
                    },
                },
            )
        },
        Some(Verb::Call) => if positional.len() == 0 {
            Err("call takes an action name: `mantle call rec.toggle`"@)
        } else {
            Ok(
                CommandView::Call {
                    name: positional[0],
                    arguments: Seq::new(
                        (positional.len() - 1) as nat,
                        |i: int| json::word_value(positional[i + 1]),
                    ),
                },
            )
        },
        Some(Verb::Log) => Ok(CommandView::Log { follow: scan.follow }),
        Some(Verb::List) => Ok(CommandView::List),
        None => Ok(CommandView::Run),
    }
}

/// The first reason why the options do not go with the command, if there is one.
pub open spec fn misfit(scan: ScanView, command: CommandView) -> Option<Seq<char>> {
    if scan.force && !(command is Init) {
        Some("--force is only meaningful with `init`"@)
    } else if scan.follow && !(command is Log) {
        Some("--follow is only meaningful with `log`"@)
    } else if scan.detach && !(command is Run) {
        Some("--detach is only meaningful when starting the shell"@)
    } else if scan.profile is Some && !(command is Run) {
        Some("--profile is only meaningful when starting the shell"@)
    } else if scan.verbose > 0 && !(command is Run) {
        Some("-v is only meaningful when starting the shell"@)
    } else if scan.pid is Some && !(command is SetState || command is Call || command is Log) {
        Some("--pid is only meaningful with `set`, `toggle`, `call` and `log`"@)
    } else if scan.config_dir is Some && command is List {
        Some("`list` shows every config's shells"@)
    } else if scan.pid is Some && scan.config_dir is Some {
        Some("--pid names one shell; drop -c"@)
    } else {
        None
    }
}

pub open spec fn args_of(scan: ScanView, command: CommandView, verbose: u8) -> ArgsView {
    ArgsView {
        command,
        config_dir: scan.config_dir,
        detach: scan.detach,
        profile: scan.profile,
        pid: scan.pid,
        verbose,
    }
}

/// The arguments a whole command line gives. A profile is reported at the first verbose level.
pub open spec fn finish(scan: ScanView) -> Result<ArgsView, Seq<char>> {
    match command_of(scan) {
        Err(message) => Err(message),
        Ok(command) => match misfit(scan, command) {
            Some(message) => Err(message),
            None => Ok(
                args_of(
                    scan,
                    command,
                    if scan.profile is Some && scan.verbose == 0 {
                        1
                    } else {
                        scan.verbose
                    },
                ),
            ),
        },
    }
}

pub open spec fn at<T>(list: Seq<T>, i: int) -> Option<T> {
    if 0 <= i < list.len() {
        Some(list[i])
    } else {
        None
    }
}

/// Reads `argv` from `i` on, `used` answers having been taken.
pub open spec fn parse_from(
    argv: Seq<Seq<char>>,
    i: int,
    dirs: Seq<Result<Seq<char>, Seq<char>>>,
    used: int,
    scan: ScanView,
) -> ParsedView
    decreases argv.len() - i,
{
    if i < 0 || i >= argv.len() {
        ParsedView::Done(finish(scan))
    } else {
        match step(scan, argv[i], at(argv, i + 1), at(dirs, used)) {
            Step::Next { scan: next, consumed, answers } => if consumed >= 1 {
                parse_from(argv, i + consumed, dirs, used + answers, next)
            } else {
                ParsedView::Done(finish(next))
            },
            Step::Early { command, scan: seen } => ParsedView::Done(Ok(args_of(seen, command, seen.verbose))),
            Step::Fail(message) => ParsedView::Done(Err(message)),
            Step::Resolve(raw) => ParsedView::Resolve(raw),
        }
    }
}

/// The command line `argv`, its first word being the program's own name.
pub open spec fn parse_spec(argv: Seq<Seq<char>>, dirs: Seq<Result<Seq<char>, Seq<char>>>) -> ParsedView {
    parse_from(argv, 1, dirs, 0, empty_scan())
}

/// The texts of resolved directories.
pub open spec fn answers(dirs: Seq<Result<String, String>>) -> Seq<Result<Seq<char>, Seq<char>>> {
    Seq::new(
        dirs.len(),
        |i: int|
            match dirs[i] {
                Ok(dir) => Ok(dir@),
                Err(message) => Err(message@),
            },
    )
}

/// [`ScanView`], held.
struct Scan {
    verb: Option<Verb>,
    config_dir: Option<String>,
    force: bool,
    follow: bool,
    detach: bool,
    profile: Option<u64>,
    pid: Option<u32>,
    verbose: u8,
    positional: Vec<String>,
}

impl View for Scan {
    type V = ScanView;

    closed spec fn view(&self) -> ScanView {
        ScanView {
            verb: self.verb,
            config_dir: text::optional(self.config_dir),
            force: self.force,
            follow: self.follow,
            detach: self.detach,
            profile: self.profile,
            pid: self.pid,
            verbose: self.verbose,
            positional: text::strings(self.positional@),
        }
    }
}

/// What [`Step`] leaves to do, the scan having been changed in place.
enum Outcome {
    Next { consumed: usize, answers: usize },
    Early(Command),
    Fail(String),
    Resolve(String),
}

spec fn matches_step(outcome: Outcome, scan: ScanView, step: Step) -> bool {
    match outcome {
        Outcome::Next { consumed, answers } => step == (Step::Next {
            scan,
            consumed: consumed as int,
            answers: answers as int,
        }),
        Outcome::Early(command) => step == (Step::Early { command: command@, scan }),
        Outcome::Fail(message) => step == Step::Fail(message@),
        Outcome::Resolve(raw) => step == Step::Resolve(raw@),
    }
}

spec fn answer_at(answer: Option<&Result<String, String>>) -> Option<Result<Seq<char>, Seq<char>>> {
    match answer {
        Some(Ok(dir)) => Some(Ok(dir@)),
        Some(Err(message)) => Some(Err(message@)),
        None => None,
    }
}

fn go_on() -> (outcome: Outcome)
    ensures
        outcome == (Outcome::Next { consumed: 1, answers: 0 }),
{
    Outcome::Next { consumed: 1, answers: 0 }
}

impl Scan {
    fn config(&mut self, raw: &str, consumed: usize, answer: Option<&Result<String, String>>) -> (outcome: Outcome)
        ensures
            matches_step(
                outcome,
                final(self)@,
                config_step(old(self)@, raw@, consumed as int, answer_at(answer)),
            ),
    {
        match answer {
            None => Outcome::Resolve(raw.to_owned()),
            Some(Ok(dir)) => {
                self.config_dir = Some(dir.clone());
                Outcome::Next { consumed, answers: 1 }
            },
            Some(Err(message)) => Outcome::Fail(message.clone()),
        }
    }

    fn process_id(&mut self, raw: &str, consumed: usize) -> (outcome: Outcome)
        ensures
            matches_step(outcome, final(self)@, pid_step(old(self)@, raw@, consumed as int)),
    {
        match pid_from(raw) {
            Ok(pid) => {
                self.pid = Some(pid);
                Outcome::Next { consumed, answers: 0 }
            },
            Err(message) => Outcome::Fail(message),
        }
    }

    fn profile_seconds(&mut self, raw: &str) -> (outcome: Outcome)
        ensures
            matches_step(outcome, final(self)@, profile_step(old(self)@, raw@)),
    {
        match text::str_parse_unsigned(raw, u64::MAX) {
            Some(secs) if secs > 0 => {
                self.profile = Some(secs);
                go_on()
            },
            _ => {
                let mut message = "--profile takes a positive number of seconds, got ".to_owned();
                message.append(raw);
                Outcome::Fail(message)
            },
        }
    }

    fn read(&mut self, arg: &String, next: Option<&String>, answer: Option<&Result<String, String>>) -> (outcome: Outcome)
        ensures
            matches_step(
                outcome,
                final(self)@,
                step(
                    old(self)@,
                    arg@,
                    (match next {
                        Some(raw) => Some(raw@),
                        None => None,
                    }),
                    answer_at(answer),
                ),
            ),
    {
        let arg = arg.as_str();
        if let Some(count) = verbose_count(arg) {
            self.verbose = if self.verbose as u16 + count as u16 > 255 {
                255
            } else {
                self.verbose + count
            };
            return go_on();
        }
        let verb = verb_from(arg);
        if verb.is_some() && self.verb.is_none() {
            self.verb = verb;
            return go_on();
        }
        let wanted = match self.verb {
            Some(Verb::Call) => true,
            Some(Verb::Write) | Some(Verb::Toggle) => self.positional.len() < 2,
            _ => false,
        };
        if wanted && !is_option(arg) {
            let ghost before = self.positional@;
            self.positional.push(arg.to_owned());
            assert(text::strings(self.positional@) =~= text::strings(before).push(arg@));
            return go_on();
        }
        if text::same(arg, "-c") || text::same(arg, "--config") {
            return match next {
                Some(raw) => self.config(raw.as_str(), 2, answer),
                None => Outcome::Fail("--config needs a directory".to_owned()),
            };
        }
        if text::same(arg, "-d") || text::same(arg, "--detach") {
            self.detach = true;
            return go_on();
        }
        if text::same(arg, "--detached") {
            return go_on();
        }
        if text::same(arg, "--force") {
            self.force = true;
            return go_on();
        }
        if text::same(arg, "-f") || text::same(arg, "--follow") {
            self.follow = true;
            return go_on();
        }
        if text::same(arg, "--profile") {
            self.profile = Some(60);
            return go_on();
        }
        if text::same(arg, "--pid") {
            return match next {
                Some(raw) => self.process_id(raw.as_str(), 2),
                None => {
                    let nothing = String::new();
                    self.process_id(nothing.as_str(), 1)
                },
            };
        }
        if text::same(arg, "-V") || text::same(arg, "--version") {
            return Outcome::Early(Command::Version);
        }
        if text::same(arg, "-h") || text::same(arg, "--help") {
            return Outcome::Early(Command::Help);
        }
        if let Some(raw) = text::str_strip_prefix(arg, "--config=") {
            return self.config(raw, 1, answer);
        }
        if let Some(raw) = text::str_strip_prefix(arg, "--pid=") {
            return self.process_id(raw, 1);
        }
        if let Some(raw) = text::str_strip_prefix(arg, "--profile=") {
            return self.profile_seconds(raw);
        }
        let mut message = "unknown argument ".to_owned();
        message.append(arg);
        Outcome::Fail(message)
    }

    fn command(&self) -> (command: Result<Command, String>)
        ensures
            command_of(self@) == (match command {
                Ok(command) => Ok(command@),
                Err(message) => Err(message@),
            }),
    {
        assert(self@.positional.len() == self.positional@.len());
        match self.verb {
            Some(Verb::Init) => Ok(Command::Init { force: self.force }),
            Some(Verb::Check) => Ok(Command::Check),
            Some(Verb::Write) => {
                if self.positional.len() == 2 {
                    // Bare words stay strings, so keybinds need no extra quotes.
                    let value = json::value_of_word(self.positional[1].as_str());
                    Ok(Command::SetState(SetState { name: self.positional[0].clone(), write: StateWrite::SetTo(value) }))
                } else {
                    Err("set takes a state name and a value: `mantle set launcher_open true`".to_owned())
                }
            },
            Some(Verb::Toggle) => {
                if self.positional.len() == 0 {
                    Err("toggle takes a state name: `mantle toggle launcher_open`".to_owned())
                } else {
                    let write = if self.positional.len() >= 2 {
                        StateWrite::ToggleTo(json::value_of_word(self.positional[1].as_str()))
                    } else {
                        StateWrite::Toggle
                    };
                    Ok(Command::SetState(SetState { name: self.positional[0].clone(), write }))
                }
            },
            Some(Verb::Call) => {
                if self.positional.len() == 0 {
                    return Err("call takes an action name: `mantle call rec.toggle`".to_owned());
                }
                let mut arguments: Vec<String> = Vec::new();
                let mut i: usize = 1;
                while i < self.positional.len()
                    invariant
                        1 <= i <= self.positional@.len(),
                        arguments@.len() == i - 1,
                        forall|j: int|
                            0 <= j < i - 1 ==> (#[trigger] arguments@[j])@ == json::word_value(self.positional@[j + 1]@),
                    decreases self.positional@.len() - i,
                {
                    arguments.push(json::value_of_word(self.positional[i].as_str()));
                    i += 1;
                }
                assert(text::strings(arguments@) =~= Seq::new(
                    (self@.positional.len() - 1) as nat,
                    |i: int| json::word_value(self@.positional[i + 1]),
                ));
                Ok(Command::Call { name: self.positional[0].clone(), arguments })
            },
            Some(Verb::Log) => Ok(Command::Log { follow: self.follow }),
            Some(Verb::List) => Ok(Command::List),
            None => Ok(Command::Run),
        }
    }

    fn misfit(&self, command: &Command) -> (message: Option<String>)
        ensures
            text::optional(message) == misfit(self@, command@),
    {
        let run = matches!(command, Command::Run);
        if self.force && !matches!(command, Command::Init { .. }) {
            Some("--force is only meaningful with `init`".to_owned())
        } else if self.follow && !matches!(command, Command::Log { .. }) {
            Some("--follow is only meaningful with `log`".to_owned())
        } else if self.detach && !run {
            Some("--detach is only meaningful when starting the shell".to_owned())
        } else if self.profile.is_some() && !run {
            Some("--profile is only meaningful when starting the shell".to_owned())
        } else if self.verbose > 0 && !run {
            Some("-v is only meaningful when starting the shell".to_owned())
        } else if self.pid.is_some() && !matches!(
            command,
            Command::SetState(_) | Command::Call { .. } | Command::Log { .. }
        ) {
            Some("--pid is only meaningful with `set`, `toggle`, `call` and `log`".to_owned())
        } else if self.config_dir.is_some() && matches!(command, Command::List) {
            Some("`list` shows every config's shells".to_owned())
        } else if self.pid.is_some() && self.config_dir.is_some() {
            Some("--pid names one shell; drop -c".to_owned())
        } else {
            None
        }
    }

    fn into_args(self, command: Command, verbose: u8) -> (args: Args)
        ensures
            args@ == args_of(self@, command@, verbose),
    {
        Args {
            command,
            config_dir: self.config_dir,
            detach: self.detach,
            profile: self.profile,
            pid: self.pid,
            verbose,
        }
    }

    fn finish(self) -> (args: Result<Args, String>)
        ensures
            finish(self@) == (match args {
                Ok(args) => Ok(args@),
                Err(message) => Err(message@),
            }),
    {
        let command = match self.command() {
            Ok(command) => command,
            Err(message) => return Err(message),
        };
        if let Some(message) = self.misfit(&command) {
            return Err(message);
        }
        // Without this, `--profile` alone says that profiling is on and then nothing at all.
        let verbose: u8 = if self.profile.is_some() && self.verbose == 0 {
            1
        } else {
            self.verbose
        };
        Ok(self.into_args(command, verbose))
    }
}

/// Parses the command line `argv`. `dirs` answers, in order, the paths that `-c` named: each the
/// absolute directory, or why there is none. A path beyond those comes back as
/// [`Parsed::Resolve`].
pub fn parse(argv: &Vec<String>, dirs: &Vec<Result<String, String>>) -> (parsed: Parsed)
    ensures
        parsed@ == parse_spec(text::strings(argv@), answers(dirs@)),
{
    let mut scan = Scan {
        verb: None,
        config_dir: None,
        force: false,
        follow: false,
        detach: false,
        profile: None,
        pid: None,
        verbose: 0,
        positional: Vec::new(),
    };
    let ghost words = text::strings(argv@);
    let ghost known = answers(dirs@);
    assert(scan@.positional =~= Seq::<Seq<char>>::empty());
    let mut i: usize = 1;
    let mut used: usize = 0;
    while i < argv.len()
        invariant
            1 <= i,
            used <= dirs@.len(),
            words == text::strings(argv@),
            known == answers(dirs@),
            parse_from(words, i as int, known, used as int, scan@) == parse_spec(words, known),
        decreases argv@.len() - i,
    {
        let next: Option<&String> = if i < argv.len() - 1 {
            Some(&argv[i + 1])
        } else {
            None
        };
        let answer: Option<&Result<String, String>> = if used < dirs.len() {
            Some(&dirs[used])
        } else {
            None
        };
        assert(answer_at(answer) == at(known, used as int));
        match scan.read(&argv[i], next, answer) {
            Outcome::Next { consumed, answers } => {
                i += consumed;
                used += answers;
            },
            Outcome::Early(command) => {
                let verbose: u8 = scan.verbose;
                return Parsed::Done(Ok(scan.into_args(command, verbose)));
            },
            Outcome::Fail(message) => return Parsed::Done(Err(message)),
            Outcome::Resolve(raw) => return Parsed::Resolve(raw),
        }
    }
    Parsed::Done(scan.finish())
}

// ---- the directory `-c` names ----

/// The directory that `raw` stands for: itself, or the parent of the file it names.
pub open spec fn named_dir(raw: Seq<char>, is_file: bool, parent: Option<Seq<char>>) -> Result<Seq<char>, Seq<char>> {
    if !is_file {
        Ok(raw)
    } else {
        match parent {
            Some(dir) if dir.len() > 0 => Ok(dir),
            _ => Err("--config "@ + raw + " is a file with no parent directory"@),
        }
    }
}

/// [`named_dir`], computed from the path's parent.
pub fn choose_dir(raw: &str, is_file: bool, parent: Option<String>) -> (dir: Result<String, String>)
    ensures
        named_dir(raw@, is_file, text::optional(parent)) == (match dir {
            Ok(dir) => Ok::<Seq<char>, Seq<char>>(dir@),
            Err(message) => Err(message@),
        }),
{
    if !is_file {
        return Ok(raw.to_owned());
    }
    match parent {
        Some(dir) if !dir.as_str().is_empty() => Ok(dir),
        _ => {
            let mut message = "--config ".to_owned();
            message.append(raw);
            message.append(" is a file with no parent directory");
            Err(message)
        },
    }
}

/// `-c` names a directory, but accepts a path to `shell.lua`, because that is what someone reaches
/// for after editing it.
pub fn config_dir_from(raw: &str, is_file: bool) -> (dir: Result<String, String>)
    ensures
        named_dir(raw@, is_file, path::parent_text(raw@)) == (match dir {
            Ok(dir) => Ok::<Seq<char>, Seq<char>>(dir@),
            Err(message) => Err(message@),
        }),
{
    choose_dir(raw, is_file, path::parent_of(raw))
}

// ---- laws ----

/// An option the parser knows is an option even where a value is expected: it never becomes a
/// positional word.
pub proof fn a_known_option_is_never_a_value(
    scan: ScanView,
    arg: Seq<char>,
    next: Option<Seq<char>>,
    answer: Option<Result<Seq<char>, Seq<char>>>,
)
    requires
        known_option(arg),
    ensures
        step(scan, arg, next, answer) matches Step::Next { scan: after, .. } ==> after.positional == scan.positional,
{
}

/// Whatever was read before, `--version` and `--help` end the scan, so nothing after them counts.
pub proof fn version_and_help_end_the_scan(
    argv: Seq<Seq<char>>,
    i: int,
    dirs: Seq<Result<Seq<char>, Seq<char>>>,
    used: int,
    scan: ScanView,
)
    requires
        0 <= i < argv.len(),
    ensures
        argv[i] == "-V"@ || argv[i] == "--version"@ ==> parse_from(argv, i, dirs, used, scan) == ParsedView::Done(
            Ok(args_of(scan, CommandView::Version, scan.verbose)),
        ),
        argv[i] == "-h"@ || argv[i] == "--help"@ ==> parse_from(argv, i, dirs, used, scan) == ParsedView::Done(
            Ok(args_of(scan, CommandView::Help, scan.verbose)),
        ),
{
    lemma_option_words();
}

/// Two steps that differ at most in how many words they took.
pub open spec fn same_effect(a: Step, b: Step) -> bool {
    match (a, b) {
        (
            Step::Next { scan: x, consumed: _, answers: m },
            Step::Next { scan: y, consumed: _, answers: n },
        ) => x == y && m == n,
        _ => a == b,
    }
}

/// `-c DIR`, `--config DIR` and `--config=DIR` mean the same.
pub proof fn the_config_forms_agree(
    scan: ScanView,
    raw: Seq<char>,
    next: Option<Seq<char>>,
    answer: Option<Result<Seq<char>, Seq<char>>>,
)
    ensures
        step(scan, "-c"@, Some(raw), answer) == step(scan, "--config"@, Some(raw), answer),
        same_effect(step(scan, "-c"@, Some(raw), answer), step(scan, "--config="@ + raw, next, answer)),
{
    lemma_option_words();
    reveal_strlit("--config=");
    let joined = "--config="@ + raw;
    assert(joined.subrange(0, 9) =~= "--config="@);
    assert(joined.subrange(9, joined.len() as int) =~= raw);
    assert(joined[0] == '-' && joined[1] == '-' && joined[2] == 'c' && joined[3] == 'o' && joined[8] == '=');
    assert("--config"@.len() == 8);
}

/// `-` followed by `n` times `v`.
pub open spec fn vee_word(n: nat) -> Seq<char> {
    Seq::new(
        n + 1,
        |i: int|
            if i == 0 {
                '-'
            } else {
                'v'
            },
    )
}

/// `-vv` counts as `-v -v`: grouping and repetition raise the level alike.
pub proof fn grouped_and_repeated_v_agree(
    scan: ScanView,
    n: nat,
    m: nat,
    next: Option<Seq<char>>,
    answer: Option<Result<Seq<char>, Seq<char>>>,
)
    requires
        1 <= n,
        1 <= m,
    ensures
        step(scan, vee_word(n), next, answer) matches Step::Next { scan: once, .. } && step(
            once,
            vee_word(m),
            next,
            answer,
        ) == step(scan, vee_word(n + m), next, answer),
{
    lemma_option_words();
    assert(vee_word(n)[1] == 'v' && vee_word(m)[1] == 'v' && vee_word(n + m)[1] == 'v');
}

/// Only a word that begins with a dash, and not as a negative number does, is an option.
pub proof fn an_option_begins_with_a_dash(word: Seq<char>)
    requires
        known_option(word),
    ensures
        word.len() >= 2,
        word[0] == '-',
        word[1] == '-' || word[1] == 'c' || word[1] == 'd' || word[1] == 'f' || word[1] == 'h' || word[1] == 'v'
            || word[1] == 'V',
{
    lemma_option_words();
    reveal_strlit("--pid=");
    reveal_strlit("--config=");
    reveal_strlit("--profile");
    if text::starts_with(word, "--pid="@) {
        assert(word.subrange(0, 6)[0] == word[0] && word.subrange(0, 6)[1] == word[1]);
    }
    if text::starts_with(word, "--config="@) {
        assert(word.subrange(0, 9)[0] == word[0] && word.subrange(0, 9)[1] == word[1]);
    }
    if text::starts_with(word, "--profile"@) {
        assert(word.subrange(0, 9)[0] == word[0] && word.subrange(0, 9)[1] == word[1]);
    }
}

/// Every option of the usage is one wherever it stands.
pub proof fn the_options_of_the_usage_are_known(rest: Seq<char>, n: nat)
    requires
        n >= 1,
    ensures
        known_option("-c"@) && known_option("--config"@) && known_option("--config="@ + rest),
        known_option("-d"@) && known_option("--detach"@),
        known_option("--force"@),
        known_option("-f"@) && known_option("--follow"@),
        known_option("--pid"@) && known_option("--pid="@ + rest),
        known_option("--profile"@) && known_option("--profile="@ + rest),
        known_option("--verbose"@) && known_option(vee_word(n)),
        known_option("-V"@) && known_option("--version"@),
        known_option("-h"@) && known_option("--help"@),
{
    reveal_strlit("--pid=");
    reveal_strlit("--config=");
    reveal_strlit("--profile=");
    reveal_strlit("--profile");
    assert(("--config="@ + rest).subrange(0, 9) =~= "--config="@);
    assert(("--pid="@ + rest).subrange(0, 6) =~= "--pid="@);
    assert(("--profile="@ + rest).subrange(0, 9) =~= "--profile"@);
    assert("--profile"@.subrange(0, 9) =~= "--profile"@);
}

/// The arguments of a line that holds a command and no option.
pub open spec fn plain(command: CommandView) -> ArgsView {
    ArgsView { command, config_dir: None, detach: false, profile: None, pid: None, verbose: 0 }
}

pub open spec fn is_refused(parsed: ParsedView) -> bool {
    parsed matches ParsedView::Done(Err(_))
}

proof fn lemma_call_words(argv: Seq<Seq<char>>, i: int, dirs: Seq<Result<Seq<char>, Seq<char>>>, scan: ScanView)
    requires
        0 <= i <= argv.len(),
        scan.verb == Some(Verb::Call),
        forall|j: int| i <= j < argv.len() ==> !known_option(#[trigger] argv[j]),
    ensures
        parse_from(argv, i, dirs, 0, scan) == ParsedView::Done(
            finish(ScanView { positional: scan.positional + argv.subrange(i, argv.len() as int), ..scan }),
        ),
    decreases argv.len() - i,
{
    if i < argv.len() {
        assert(!known_option(argv[i]));
        let next = ScanView { positional: scan.positional.push(argv[i]), ..scan };
        lemma_call_words(argv, i + 1, dirs, next);
        assert(next.positional + argv.subrange(i + 1, argv.len() as int) =~= scan.positional + argv.subrange(
            i,
            argv.len() as int,
        ));
    } else {
        assert(scan.positional + argv.subrange(i, argv.len() as int) =~= scan.positional);
    }
}

proof fn lemma_first_verb(argv: Seq<Seq<char>>, dirs: Seq<Result<Seq<char>, Seq<char>>>)
    requires
        argv.len() >= 2,
        verb_of(argv[1]) is Some,
    ensures
        parse_spec(argv, dirs) == parse_from(argv, 2, dirs, 0, ScanView { verb: verb_of(argv[1]), ..empty_scan() }),
{
    lemma_option_words();
}

/// `call NAME w1 .. wn`, of whatever words that are no options, calls NAME with exactly those words,
/// each read as JSON, in their order. Without a name there is nothing to call.
pub proof fn a_call_takes_every_word(argv: Seq<Seq<char>>, dirs: Seq<Result<Seq<char>, Seq<char>>>)
    requires
        argv.len() >= 2,
        argv[1] == "call"@,
        forall|j: int| 2 <= j < argv.len() ==> !known_option(#[trigger] argv[j]),
    ensures
        argv.len() == 2 ==> is_refused(parse_spec(argv, dirs)),
        argv.len() >= 3 ==> parse_spec(argv, dirs) == ParsedView::Done(
            Ok(
                plain(
                    CommandView::Call {
                        name: argv[2],
                        arguments: Seq::new((argv.len() - 3) as nat, |i: int| json::word_value(argv[i + 3])),
                    },
                ),
            ),
        ),
{
    lemma_option_words();
    reveal_strlit("call");
    reveal_strlit("check");
    assert(verb_of("call"@) == Some(Verb::Call));
    lemma_first_verb(argv, dirs);
    let scan = ScanView { verb: Some(Verb::Call), ..empty_scan() };
    lemma_call_words(argv, 2, dirs, scan);
    let words = argv.subrange(2, argv.len() as int);
    assert(scan.positional + words =~= words);
    if argv.len() >= 3 {
        assert(words[0] == argv[2]);
        assert(Seq::new((words.len() - 1) as nat, |i: int| json::word_value(words[i + 1])) =~= Seq::new(
            (argv.len() - 3) as nat,
            |i: int| json::word_value(argv[i + 3]),
        ));
    }
}

proof fn lemma_write_words(argv: Seq<Seq<char>>, dirs: Seq<Result<Seq<char>, Seq<char>>>, scan: ScanView)
    requires
        argv.len() >= 2,
        scan.verb == Some(Verb::Write) || scan.verb == Some(Verb::Toggle),
        scan.positional.len() == 0,
        forall|j: int| 2 <= j < argv.len() ==> !known_option(#[trigger] argv[j]) && argv[j] != "--detached"@,
    ensures
        argv.len() <= 4 ==> parse_from(argv, 2, dirs, 0, scan) == ParsedView::Done(
            finish(ScanView { positional: argv.subrange(2, argv.len() as int), ..scan }),
        ),
        argv.len() > 4 ==> is_refused(parse_from(argv, 2, dirs, 0, scan)),
{
    reveal_with_fuel(parse_from, 5);
    assert(scan.positional =~= Seq::empty());
    if argv.len() > 2 {
        assert(!known_option(argv[2]));
        assert(scan.positional.push(argv[2]) =~= argv.subrange(2, 3));
    } else {
        assert(scan.positional =~= argv.subrange(2, argv.len() as int));
    }
    if argv.len() > 3 {
        assert(!known_option(argv[3]));
        assert(argv.subrange(2, 3).push(argv[3]) =~= argv.subrange(2, 4));
    }
    if argv.len() > 4 {
        let word = argv[4];
        assert(!known_option(word));
        reveal_strlit("--profile=");
        reveal_strlit("--profile");
        if text::starts_with(word, "--profile="@) {
            assert(word.subrange(0, 9) =~= word.subrange(0, 10).subrange(0, 9));
            assert("--profile="@.subrange(0, 9) =~= "--profile"@);
        }
        assert("--profile"@.subrange(0, 9) =~= "--profile"@);
        assert(text::starts_with("--profile"@, "--profile"@));
    }
}

/// `set` takes a name and a value and nothing more or less; the value is read as JSON.
pub proof fn a_set_takes_a_name_and_a_value(argv: Seq<Seq<char>>, dirs: Seq<Result<Seq<char>, Seq<char>>>)
    requires
        argv.len() >= 2,
        argv[1] == "set"@,
        forall|j: int| 2 <= j < argv.len() ==> !known_option(#[trigger] argv[j]) && argv[j] != "--detached"@,
    ensures
        argv.len() != 4 ==> is_refused(parse_spec(argv, dirs)),
        argv.len() == 4 ==> parse_spec(argv, dirs) == ParsedView::Done(
            Ok(
                plain(
                    CommandView::SetState {
                        name: argv[2],
                        write: StateWriteView::SetTo(json::word_value(argv[3])),
                    },
                ),
            ),
        ),
{
    lemma_option_words();
    reveal_strlit("set");
    reveal_strlit("init");
    reveal_strlit("check");
    lemma_first_verb(argv, dirs);
    let scan = ScanView { verb: Some(Verb::Write), ..empty_scan() };
    lemma_write_words(argv, dirs, scan);
}

/// `toggle` takes a name, and flips it; with a value behind it, it sets that value or takes it back.
pub proof fn a_toggle_takes_a_name_and_maybe_a_value(argv: Seq<Seq<char>>, dirs: Seq<Result<Seq<char>, Seq<char>>>)
    requires
        argv.len() >= 2,
        argv[1] == "toggle"@,
        forall|j: int| 2 <= j < argv.len() ==> !known_option(#[trigger] argv[j]) && argv[j] != "--detached"@,
    ensures
        argv.len() == 2 || argv.len() > 4 ==> is_refused(parse_spec(argv, dirs)),
        argv.len() == 3 ==> parse_spec(argv, dirs) == ParsedView::Done(
            Ok(plain(CommandView::SetState { name: argv[2], write: StateWriteView::Toggle })),
        ),
        argv.len() == 4 ==> parse_spec(argv, dirs) == ParsedView::Done(
            Ok(
                plain(
                    CommandView::SetState {
                        name: argv[2],
                        write: StateWriteView::ToggleTo(json::word_value(argv[3])),
                    },
                ),
            ),
        ),
{
    lemma_option_words();
    reveal_strlit("toggle");
    lemma_first_verb(argv, dirs);
    let scan = ScanView { verb: Some(Verb::Toggle), ..empty_scan() };
    lemma_write_words(argv, dirs, scan);
}

/// The commands without operands, alone on the line, and no command at all.
pub proof fn a_lone_command_is_itself(argv: Seq<Seq<char>>, dirs: Seq<Result<Seq<char>, Seq<char>>>)
    requires
        1 <= argv.len() <= 2,
    ensures
        argv.len() == 1 ==> parse_spec(argv, dirs) == ParsedView::Done(Ok(plain(CommandView::Run))),
        argv.len() == 2 && argv[1] == "init"@ ==> parse_spec(argv, dirs) == ParsedView::Done(
            Ok(plain(CommandView::Init { force: false })),
        ),
        argv.len() == 2 && argv[1] == "check"@ ==> parse_spec(argv, dirs) == ParsedView::Done(
            Ok(plain(CommandView::Check)),
        ),
        argv.len() == 2 && argv[1] == "log"@ ==> parse_spec(argv, dirs) == ParsedView::Done(
            Ok(plain(CommandView::Log { follow: false })),
        ),
        argv.len() == 2 && argv[1] == "list"@ ==> parse_spec(argv, dirs) == ParsedView::Done(
            Ok(plain(CommandView::List)),
        ),
{
    lemma_option_words();
    reveal_strlit("init");
    reveal_strlit("check");
    reveal_strlit("log");
    reveal_strlit("list");
    reveal_strlit("call");
    reveal_with_fuel(parse_from, 2);
    assert("init"@.len() == 4 && "list"@.len() == 4 && "log"@.len() == 3 && "check"@.len() == 5);
    if argv.len() == 2 && verb_of(argv[1]) is Some {
        lemma_first_verb(argv, dirs);
    }
}

proof fn lemma_from_is_consistent(
    argv: Seq<Seq<char>>,
    i: int,
    dirs: Seq<Result<Seq<char>, Seq<char>>>,
    used: int,
    scan: ScanView,
)
    ensures
        parse_from(argv, i, dirs, used, scan) matches ParsedView::Done(Ok(args)) ==> goes_together(args),
    decreases argv.len() - i,
{
    if 0 <= i < argv.len() {
        match step(scan, argv[i], at(argv, i + 1), at(dirs, used)) {
            Step::Next { scan: next, consumed, answers } => {
                if consumed >= 1 {
                    lemma_from_is_consistent(argv, i + consumed, dirs, used + answers, next);
                }
            },
            _ => {},
        }
    }
}

/// Options that go together with their command: detaching, profiling and `-v` are for starting the
/// shell, a process id for what addresses one, and not beside a config; `list` takes no config.
pub open spec fn goes_together(args: ArgsView) -> bool {
    args.command is Version || args.command is Help || {
        &&& args.detach ==> args.command is Run
        &&& args.profile is Some ==> args.command is Run
        &&& args.verbose > 0 ==> args.command is Run
        &&& args.profile is Some ==> args.verbose > 0
        &&& args.pid is Some ==> args.command is SetState || args.command is Call || args.command is Log
        &&& args.pid is Some ==> args.config_dir is None
        &&& args.command is List ==> args.config_dir is None
    }
}

/// Whatever the command line, what is accepted goes together.
pub proof fn an_accepted_line_goes_together(argv: Seq<Seq<char>>, dirs: Seq<Result<Seq<char>, Seq<char>>>)
    ensures
        parse_spec(argv, dirs) matches ParsedView::Done(Ok(args)) ==> goes_together(args),
{
    lemma_from_is_consistent(argv, 1, dirs, 0, empty_scan());
}

/// A whole scan is refused only for want of an operand or for an option that does not go with its
/// command, and then whichever it is.
pub proof fn a_scan_is_accepted_where_all_goes_together(scan: ScanView)
    ensures
        finish(scan) is Ok <==> {
            &&& scan.verb == Some(Verb::Write) ==> scan.positional.len() == 2
            &&& scan.verb == Some(Verb::Toggle) || scan.verb == Some(Verb::Call) ==> scan.positional.len() >= 1
            &&& scan.force ==> scan.verb == Some(Verb::Init)
            &&& scan.follow ==> scan.verb == Some(Verb::Log)
            &&& scan.detach || scan.profile is Some || scan.verbose > 0 ==> scan.verb is None
            &&& scan.pid is Some ==> scan.verb == Some(Verb::Write) || scan.verb == Some(Verb::Toggle) || scan.verb
                == Some(Verb::Call) || scan.verb == Some(Verb::Log)
            &&& scan.config_dir is Some ==> scan.verb != Some(Verb::List) && scan.pid is None
        },
        finish(scan) matches Ok(args) ==> {
            &&& args.config_dir == scan.config_dir
            &&& args.detach == scan.detach
            &&& args.profile == scan.profile
            &&& args.pid == scan.pid
            &&& args.verbose == (if scan.profile is Some && scan.verbose == 0 {
                1
            } else {
                scan.verbose
            })
            &&& scan.verb == Some(Verb::Init) ==> args.command == (CommandView::Init { force: scan.force })
            &&& scan.verb == Some(Verb::Log) ==> args.command == (CommandView::Log { follow: scan.follow })
        },
{
}

/// A word of the usage that stands alone and names no value.
pub open spec fn is_switch(word: Seq<char>) -> bool {
    ||| word == "-d"@ || word == "--detach"@
    ||| word == "--force"@
    ||| word == "-f"@ || word == "--follow"@
    ||| word == "--profile"@
    ||| word == "-v"@ || word == "--verbose"@
}

pub open spec fn has_word(words: Seq<Seq<char>>, from: int, a: Seq<char>, b: Seq<char>) -> bool {
    exists|i: int| from <= i < words.len() && (#[trigger] words[i] == a || words[i] == b)
}

pub open spec fn count_words(words: Seq<Seq<char>>, from: int, a: Seq<char>, b: Seq<char>) -> nat
    decreases words.len() - from,
{
    if from < 0 || from >= words.len() {
        0
    } else {
        count_words(words, from + 1, a, b) + (if words[from] == a || words[from] == b {
            1nat
        } else {
            0
        })
    }
}

proof fn lemma_has_word(words: Seq<Seq<char>>, from: int, a: Seq<char>, b: Seq<char>)
    requires
        0 <= from < words.len(),
    ensures
        has_word(words, from, a, b) == (words[from] == a || words[from] == b || has_word(words, from + 1, a, b)),
{
    if has_word(words, from + 1, a, b) {
        let i = choose|i: int| from + 1 <= i < words.len() && (#[trigger] words[i] == a || words[i] == b);
        assert(from <= i && (words[i] == a || words[i] == b));
    }
    if has_word(words, from, a, b) {
        let i = choose|i: int| from <= i < words.len() && (#[trigger] words[i] == a || words[i] == b);
        if i > from {
            assert(from + 1 <= i && (words[i] == a || words[i] == b));
        }
    }
}

/// The scan that switches leave, wherever each stands and however often.
pub open spec fn switched(words: Seq<Seq<char>>, from: int, scan: ScanView) -> ScanView {
    let verbose = scan.verbose + count_words(words, from, "-v"@, "--verbose"@);
    ScanView {
        detach: scan.detach || has_word(words, from, "-d"@, "--detach"@),
        force: scan.force || has_word(words, from, "--force"@, "--force"@),
        follow: scan.follow || has_word(words, from, "-f"@, "--follow"@),
        profile: if has_word(words, from, "--profile"@, "--profile"@) {
            Some(60)
        } else {
            scan.profile
        },
        verbose: if verbose > 255 {
            255
        } else {
            verbose as u8
        },
        ..scan
    }
}

proof fn lemma_switches(
    argv: Seq<Seq<char>>,
    i: int,
    dirs: Seq<Result<Seq<char>, Seq<char>>>,
    used: int,
    scan: ScanView,
)
    requires
        0 <= i <= argv.len(),
        forall|j: int| i <= j < argv.len() ==> is_switch(#[trigger] argv[j]),
    ensures
        parse_from(argv, i, dirs, used, scan) == ParsedView::Done(finish(switched(argv, i, scan))),
    decreases argv.len() - i,
{
    if i < argv.len() {
        let word = argv[i];
        assert(is_switch(word));
        lemma_option_words();
        reveal_strlit("-v");
        reveal_strlit("--profile");
        reveal_strlit("--pid=");
        reveal_strlit("--config=");
        lemma_has_word(argv, i, "-d"@, "--detach"@);
        lemma_has_word(argv, i, "--force"@, "--force"@);
        lemma_has_word(argv, i, "-f"@, "--follow"@);
        lemma_has_word(argv, i, "--profile"@, "--profile"@);
        the_options_of_the_usage_are_known(Seq::empty(), 1);
        assert(vee_word(1) =~= "-v"@);
        assert(vees("-v"@));
        match step(scan, word, at(argv, i + 1), at(dirs, used)) {
            Step::Next { scan: next, consumed, answers } => {
                assert(consumed == 1 && answers == 0);
                lemma_switches(argv, i + 1, dirs, used, next);
                assert(switched(argv, i + 1, next) == switched(argv, i, scan));
            },
            _ => {
                assert(false);
            },
        }
    }
}

/// Switches count wherever they stand: a line that is all switches starts the shell, detached where
/// one of them asks for it, profiled where one does, and as verbose as there are `-v`s; one that asks
/// for overwriting or following is refused, as that is for `init` and `log`.
pub proof fn switches_count_wherever_they_stand(argv: Seq<Seq<char>>, dirs: Seq<Result<Seq<char>, Seq<char>>>)
    requires
        argv.len() >= 1,
        forall|j: int| 1 <= j < argv.len() ==> is_switch(#[trigger] argv[j]),
    ensures
        has_word(argv, 1, "--force"@, "--force"@) || has_word(argv, 1, "-f"@, "--follow"@) ==> is_refused(
            parse_spec(argv, dirs),
        ),
        !has_word(argv, 1, "--force"@, "--force"@) && !has_word(argv, 1, "-f"@, "--follow"@) ==> parse_spec(
            argv,
            dirs,
        ) == ParsedView::Done(
            Ok(
                ArgsView {
                    detach: has_word(argv, 1, "-d"@, "--detach"@),
                    profile: if has_word(argv, 1, "--profile"@, "--profile"@) {
                        Some(60u64)
                    } else {
                        None
                    },
                    verbose: if count_words(argv, 1, "-v"@, "--verbose"@) > 255 {
                        255u8
                    } else if count_words(argv, 1, "-v"@, "--verbose"@) == 0 && has_word(
                        argv,
                        1,
                        "--profile"@,
                        "--profile"@,
                    ) {
                        1u8
                    } else {
                        count_words(argv, 1, "-v"@, "--verbose"@) as u8
                    },
                    ..plain(CommandView::Run)
                },
            ),
        ),
{
    lemma_switches(argv, 1, dirs, 0, empty_scan());
}

/// With `log`, following is all that can be asked for; with `init`, overwriting.
pub proof fn log_follows_and_init_overwrites(argv: Seq<Seq<char>>, dirs: Seq<Result<Seq<char>, Seq<char>>>)
    requires
        argv.len() >= 2,
        argv[1] == "log"@ || argv[1] == "init"@,
        forall|j: int| 2 <= j < argv.len() ==> is_switch(#[trigger] argv[j]),
    ensures
        ({
            let force = has_word(argv, 2, "--force"@, "--force"@);
            let follow = has_word(argv, 2, "-f"@, "--follow"@);
            let for_run = has_word(argv, 2, "-d"@, "--detach"@) || has_word(argv, 2, "--profile"@, "--profile"@)
                || count_words(argv, 2, "-v"@, "--verbose"@) > 0;
            let refused = for_run || (argv[1] == "log"@ && force) || (argv[1] == "init"@ && follow);
            &&& refused ==> is_refused(parse_spec(argv, dirs))
            &&& !refused ==> parse_spec(argv, dirs) == ParsedView::Done(
                Ok(
                    plain(
                        if argv[1] == "log"@ {
                            CommandView::Log { follow }
                        } else {
                            CommandView::Init { force }
                        },
                    ),
                ),
            )
        }),
{
    lemma_option_words();
    reveal_strlit("init");
    reveal_strlit("check");
    reveal_strlit("log");
    lemma_first_verb(argv, dirs);
    lemma_switches(argv, 2, dirs, 0, ScanView { verb: verb_of(argv[1]), ..empty_scan() });
}

/// `-c`'s directory is the next answer, and the line goes on behind it: without an answer it is asked
/// for, and one that says why there is none ends the line.
pub proof fn a_config_takes_the_next_answer(
    argv: Seq<Seq<char>>,
    i: int,
    dirs: Seq<Result<Seq<char>, Seq<char>>>,
    used: int,
    scan: ScanView,
)
    requires
        0 <= i < argv.len(),
        0 <= used,
        argv[i] == "-c"@ || argv[i] == "--config"@,
    ensures
        i + 1 == argv.len() ==> is_refused(parse_from(argv, i, dirs, used, scan)),
        i + 1 < argv.len() && used >= dirs.len() ==> parse_from(argv, i, dirs, used, scan) == ParsedView::Resolve(
            argv[i + 1],
        ),
        i + 1 < argv.len() && used < dirs.len() ==> match dirs[used] {
            Ok(dir) => parse_from(argv, i, dirs, used, scan) == parse_from(
                argv,
                i + 2,
                dirs,
                used + 1,
                ScanView { config_dir: Some(dir), ..scan },
            ),
            Err(message) => parse_from(argv, i, dirs, used, scan) == ParsedView::Done(Err(message)),
        },
{
    lemma_option_words();
    the_options_of_the_usage_are_known(Seq::empty(), 1);
}

/// `--pid N` and `--pid=N` name the shell with that process id, and what is no number is refused.
pub proof fn a_pid_names_one_shell(
    argv: Seq<Seq<char>>,
    i: int,
    dirs: Seq<Result<Seq<char>, Seq<char>>>,
    used: int,
    scan: ScanView,
    pid: u32,
)
    requires
        0 <= i < argv.len(),
    ensures
        argv[i] == "--pid="@ + text::decimal(pid as nat) ==> parse_from(argv, i, dirs, used, scan) == parse_from(
            argv,
            i + 1,
            dirs,
            used,
            ScanView { pid: Some(pid), ..scan },
        ),
        argv[i] == "--pid"@ && i + 1 < argv.len() && argv[i + 1] == text::decimal(pid as nat) ==> parse_from(
            argv,
            i,
            dirs,
            used,
            scan,
        ) == parse_from(argv, i + 2, dirs, used, ScanView { pid: Some(pid), ..scan }),
        argv[i] == "--pid"@ && (i + 1 == argv.len() || text::parse_unsigned(argv[i + 1], u32::MAX as nat) is None)
            ==> is_refused(parse_from(argv, i, dirs, used, scan)),
{
    lemma_option_words();
    reveal_strlit("--pid=");
    reveal_strlit("--config=");
    text::a_number_reads_back(pid as nat, u32::MAX as nat);
    let joined = "--pid="@ + text::decimal(pid as nat);
    assert(joined.subrange(0, 6) =~= "--pid="@);
    assert(joined.subrange(6, joined.len() as int) =~= text::decimal(pid as nat));
    assert(joined[0] == '-' && joined[1] == '-' && joined[2] == 'p' && joined[3] == 'i' && joined[5] == '=');
    the_options_of_the_usage_are_known(text::decimal(pid as nat), 1);
}

/// The option and subcommand words, told apart.
proof fn lemma_option_words()
    ensures
        "init"@[0] == 'i',
        "check"@[0] == 'c',
        "set"@[0] == 's',
        "toggle"@[0] == 't',
        "call"@[0] == 'c',
        "log"@[0] == 'l',
        "list"@[0] == 'l',
        "-c"@.len() == 2 && "-c"@[0] == '-' && "-c"@[1] == 'c',
        "-d"@.len() == 2 && "-d"@[0] == '-' && "-d"@[1] == 'd',
        "-f"@.len() == 2 && "-f"@[0] == '-' && "-f"@[1] == 'f',
        "-V"@.len() == 2 && "-V"@[0] == '-' && "-V"@[1] == 'V',
        "-h"@.len() == 2 && "-h"@[0] == '-' && "-h"@[1] == 'h',
        "--config"@.len() == 8 && "--config"@[0] == '-' && "--config"@[1] == '-' && "--config"@[2] == 'c' && "--config"@[3] == 'o',
        "--detach"@.len() == 8 && "--detach"@[0] == '-' && "--detach"@[1] == '-' && "--detach"@[2] == 'd' && "--detach"@[3] == 'e',
        "--detached"@.len() == 10 && "--detached"@[0] == '-' && "--detached"@[1] == '-' && "--detached"@[2] == 'd' && "--detached"@[3] == 'e',
        "--force"@.len() == 7 && "--force"@[0] == '-' && "--force"@[1] == '-' && "--force"@[2] == 'f' && "--force"@[3] == 'o',
        "--follow"@.len() == 8 && "--follow"@[0] == '-' && "--follow"@[1] == '-' && "--follow"@[2] == 'f' && "--follow"@[3] == 'o',
        "--profile"@.len() == 9 && "--profile"@[0] == '-' && "--profile"@[1] == '-' && "--profile"@[2] == 'p' && "--profile"@[3] == 'r',
        "--pid"@.len() == 5 && "--pid"@[0] == '-' && "--pid"@[1] == '-' && "--pid"@[2] == 'p' && "--pid"@[3] == 'i',
        "--version"@.len() == 9 && "--version"@[0] == '-' && "--version"@[1] == '-' && "--version"@[2] == 'v' && "--version"@[3] == 'e',
        "--help"@.len() == 6 && "--help"@[0] == '-' && "--help"@[1] == '-' && "--help"@[2] == 'h' && "--help"@[3] == 'e',
        "--verbose"@.len() == 9 && "--verbose"@[0] == '-' && "--verbose"@[1] == '-' && "--verbose"@[2] == 'v' && "--verbose"@[3] == 'e',
        "--verbose"@[5] == 'b' && "--version"@[5] == 's',
{
    reveal_strlit("init");
    reveal_strlit("check");
    reveal_strlit("set");
    reveal_strlit("toggle");
    reveal_strlit("call");
    reveal_strlit("log");
    reveal_strlit("list");
    reveal_strlit("-c");
    reveal_strlit("-d");
    reveal_strlit("-f");
    reveal_strlit("-V");
    reveal_strlit("-h");
    reveal_strlit("--config");
    reveal_strlit("--detach");
    reveal_strlit("--detached");
    reveal_strlit("--force");
    reveal_strlit("--follow");
    reveal_strlit("--profile");
    reveal_strlit("--pid");
    reveal_strlit("--version");
    reveal_strlit("--help");
    reveal_strlit("--verbose");
}

/// `-v` counts its vees, up to 255, and `--verbose` is one; no other word counts.
pub proof fn a_verbose_word_counts_its_vees(word: Seq<char>)
    ensures
        verbose_of("--verbose"@) == Some(1u8),
        word.len() >= 2 && word[0] == '-' && (forall|i: int| 1 <= i < word.len() ==> #[trigger] word[i] == 'v')
            ==> verbose_of(word) == Some(
            if word.len() > 256 {
                255u8
            } else {
                (word.len() - 1) as u8
            },
        ),
        verbose_of(word) is Some && word != "--verbose"@ ==> word.len() >= 2 && word[0] == '-' && forall|i: int|
            1 <= i < word.len() ==> #[trigger] word[i] == 'v',
{
    lemma_option_words();
}

/// Seven words are commands, and no other is.
pub proof fn a_command_goes_by_its_word(word: Seq<char>)
    ensures
        verb_of("init"@) == Some(Verb::Init),
        verb_of("check"@) == Some(Verb::Check),
        verb_of("set"@) == Some(Verb::Write),
        verb_of("toggle"@) == Some(Verb::Toggle),
        verb_of("call"@) == Some(Verb::Call),
        verb_of("log"@) == Some(Verb::Log),
        verb_of("list"@) == Some(Verb::List),
        verb_of(word) is Some ==> word == "init"@ || word == "check"@ || word == "set"@ || word == "toggle"@ || word == "call"@ || word == "log"@ || word == "list"@,
{
    lemma_option_words();
    lemma_verb_words();
}

proof fn lemma_verb_words()
    ensures
        "init"@.len() == 4 && "check"@.len() == 5 && "set"@.len() == 3 && "toggle"@.len() == 6 && "call"@.len() == 4
            && "log"@.len() == 3 && "list"@.len() == 4,
{
    reveal_strlit("init");
    reveal_strlit("check");
    reveal_strlit("set");
    reveal_strlit("toggle");
    reveal_strlit("call");
    reveal_strlit("log");
    reveal_strlit("list");
}

/// Each switch sets its own field and no other, wherever it stands, and nothing behind `--version` or
/// `--help` is read.
pub proof fn a_switch_sets_its_own_field(
    scan: ScanView,
    next: Option<Seq<char>>,
    answer: Option<Result<Seq<char>, Seq<char>>>,
)
    ensures
        step(scan, "-d"@, next, answer) == (Step::Next { scan: ScanView { detach: true, ..scan }, consumed: 1, answers: 0 }),
        step(scan, "--detach"@, next, answer) == (Step::Next { scan: ScanView { detach: true, ..scan }, consumed: 1, answers: 0 }),
        step(scan, "--force"@, next, answer) == (Step::Next { scan: ScanView { force: true, ..scan }, consumed: 1, answers: 0 }),
        step(scan, "-f"@, next, answer) == (Step::Next { scan: ScanView { follow: true, ..scan }, consumed: 1, answers: 0 }),
        step(scan, "--follow"@, next, answer) == (Step::Next { scan: ScanView { follow: true, ..scan }, consumed: 1, answers: 0 }),
        step(scan, "--profile"@, next, answer) == (Step::Next { scan: ScanView { profile: Some(60), ..scan }, consumed: 1, answers: 0 }),
        step(scan, "-V"@, next, answer) == (Step::Early { command: CommandView::Version, scan }),
        step(scan, "--version"@, next, answer) == (Step::Early { command: CommandView::Version, scan }),
        step(scan, "-h"@, next, answer) == (Step::Early { command: CommandView::Help, scan }),
        step(scan, "--help"@, next, answer) == (Step::Early { command: CommandView::Help, scan }),
        step(scan, "--verbose"@, next, answer) == (Step::Next {
            scan: ScanView {
                verbose: if scan.verbose == 255 {
                    255
                } else {
                    (scan.verbose + 1) as u8
                },
                ..scan
            },
            consumed: 1,
            answers: 0,
        }),
        scan.verb is None ==> step(scan, "--detached"@, next, answer) == (Step::Next { scan, consumed: 1, answers: 0 }),
{
    lemma_option_words();
    reveal_strlit("--pid=");
    reveal_strlit("--config=");
    the_options_of_the_usage_are_known(Seq::empty(), 1);
}

/// The first command word is the command, and a later one is a value or refused.
pub proof fn the_first_command_word_counts(
    scan: ScanView,
    word: Seq<char>,
    next: Option<Seq<char>>,
    answer: Option<Result<Seq<char>, Seq<char>>>,
)
    requires
        verb_of(word) is Some,
    ensures
        scan.verb is None ==> step(scan, word, next, answer) == (Step::Next {
            scan: ScanView { verb: verb_of(word), ..scan },
            consumed: 1,
            answers: 0,
        }),
        scan.verb == Some(Verb::Call) || (scan.verb == Some(Verb::Write) || scan.verb == Some(Verb::Toggle))
            && scan.positional.len() < 2 ==> step(scan, word, next, answer) == (Step::Next {
            scan: ScanView { positional: scan.positional + seq![word], ..scan },
            consumed: 1,
            answers: 0,
        }),
        scan.verb == Some(Verb::Init) || scan.verb == Some(Verb::Check) || scan.verb == Some(Verb::Log) || scan.verb
            == Some(Verb::List) ==> step(scan, word, next, answer) == Step::Fail("unknown argument "@ + word),
{
    lemma_option_words();
    lemma_verb_words();
    reveal_strlit("--pid=");
    reveal_strlit("--config=");
    reveal_strlit("--profile=");
    a_command_goes_by_its_word(word);
    assert(word[0] != '-');
    if known_option(word) {
        an_option_begins_with_a_dash(word);
    }
    assert(scan.positional.push(word) =~= scan.positional + seq![word]);
    if text::starts_with(word, "--config="@) {
        assert(word.subrange(0, 9)[0] == word[0]);
    }
    if text::starts_with(word, "--pid="@) {
        assert(word.subrange(0, 6)[0] == word[0]);
    }
    if text::starts_with(word, "--profile="@) {
        assert(word.subrange(0, 10)[0] == word[0]);
    }
}

/// An option with its value behind an equals sign takes that: a directory, a process id, or a positive
/// number of seconds.
pub proof fn a_value_may_stand_behind_an_equals_sign(
    scan: ScanView,
    raw: Seq<char>,
    next: Option<Seq<char>>,
    answer: Option<Result<Seq<char>, Seq<char>>>,
)
    ensures
        step(scan, "--config="@ + raw, next, answer) == (match answer {
            None => Step::Resolve(raw),
            Some(Ok(dir)) => Step::Next { scan: ScanView { config_dir: Some(dir), ..scan }, consumed: 1, answers: 1 },
            Some(Err(message)) => Step::Fail(message),
        }),
        text::parse_unsigned(raw, 0xffff_ffff) matches Some(pid) ==> step(scan, "--pid="@ + raw, next, answer) == (
        Step::Next { scan: ScanView { pid: Some(pid as u32), ..scan }, consumed: 1, answers: 0 }),
        text::parse_unsigned(raw, 0xffff_ffff) is None ==> step(scan, "--pid="@ + raw, next, answer) == Step::Fail(
            "--pid takes a process id, got "@ + text::debug_text(raw),
        ),
        ({
            let secs = text::parse_unsigned(raw, 0xffff_ffff_ffff_ffff);
            if secs is Some && secs->Some_0 > 0 {
                step(scan, "--profile="@ + raw, next, answer) == (Step::Next {
                    scan: ScanView { profile: Some(secs->Some_0 as u64), ..scan },
                    consumed: 1,
                    answers: 0,
                })
            } else {
                step(scan, "--profile="@ + raw, next, answer) == Step::Fail(
                    "--profile takes a positive number of seconds, got "@ + raw,
                )
            }
        }),
{
    lemma_option_words();
    reveal_strlit("--pid=");
    reveal_strlit("--config=");
    reveal_strlit("--profile=");
    the_options_of_the_usage_are_known(raw, 1);
    let config = "--config="@ + raw;
    let pid = "--pid="@ + raw;
    let profile = "--profile="@ + raw;
    text::a_stripped_prefix_is_all_that_is_missing(config, "--config="@, raw);
    text::a_stripped_prefix_is_all_that_is_missing(pid, "--pid="@, raw);
    text::a_stripped_prefix_is_all_that_is_missing(profile, "--profile="@, raw);
    assert(config[0] == '-' && config[1] == '-' && config[2] == 'c' && config[8] == '=' && config.len() >= 9);
    assert(pid[0] == '-' && pid[1] == '-' && pid[2] == 'p' && pid[3] == 'i' && pid[5] == '=' && pid.len() >= 6);
    assert(profile[0] == '-' && profile[1] == '-' && profile[2] == 'p' && profile[3] == 'r' && profile[9] == '='
        && profile.len() >= 10);
    if text::starts_with(pid, "--config="@) {
        assert(pid.subrange(0, 9)[2] == pid[2]);
    }
    if text::starts_with(profile, "--config="@) {
        assert(profile.subrange(0, 9)[2] == profile[2]);
    }
    if text::starts_with(profile, "--pid="@) {
        assert(profile.subrange(0, 6)[3] == profile[3]);
    }
}

/// What is no option, no command and no value is refused, by its own word.
pub proof fn an_unknown_word_is_refused(
    scan: ScanView,
    word: Seq<char>,
    next: Option<Seq<char>>,
    answer: Option<Result<Seq<char>, Seq<char>>>,
)
    requires
        !known_option(word),
        verb_of(word) is None,
        word != "--detached"@,
        scan.verb is None || scan.verb == Some(Verb::Init) || scan.verb == Some(Verb::Check) || scan.verb == Some(
            Verb::Log,
        ) || scan.verb == Some(Verb::List) || (scan.verb != Some(Verb::Call) && scan.positional.len() >= 2),
    ensures
        step(scan, word, next, answer) == Step::Fail("unknown argument "@ + word),
{
    lemma_option_words();
    reveal_strlit("--profile=");
    if word == "--profile"@ {
        assert(word.subrange(0, 9) =~= word);
    }
    if text::starts_with(word, "--profile="@) {
        assert(word.subrange(0, 9) =~= "--profile="@.subrange(0, 9)) by {
            assert(word.subrange(0, 10).subrange(0, 9) =~= word.subrange(0, 9));
        }
        assert("--profile="@.subrange(0, 9) =~= "--profile"@) by {
            reveal_strlit("--profile");
        }
    }
}

/// What does not go with the command is said, the first reason first.
pub proof fn the_first_misfit_is_said(scan: ScanView, command: CommandView)
    ensures
        ({
            let starts = command is Run;
            let said = misfit(scan, command);
            if scan.force && !(command is Init) {
                said == Some("--force is only meaningful with `init`"@)
            } else if scan.follow && !(command is Log) {
                said == Some("--follow is only meaningful with `log`"@)
            } else if scan.detach && !starts {
                said == Some("--detach is only meaningful when starting the shell"@)
            } else if scan.profile is Some && !starts {
                said == Some("--profile is only meaningful when starting the shell"@)
            } else if scan.verbose > 0 && !starts {
                said == Some("-v is only meaningful when starting the shell"@)
            } else if scan.pid is Some && !(command is SetState || command is Call || command is Log) {
                said == Some("--pid is only meaningful with `set`, `toggle`, `call` and `log`"@)
            } else if scan.config_dir is Some && command is List {
                said == Some("`list` shows every config's shells"@)
            } else if scan.pid is Some && scan.config_dir is Some {
                said == Some("--pid names one shell; drop -c"@)
            } else {
                said is None
            }
        }),
{
}

/// A command that lacks its operands is refused with how it is used.
pub proof fn a_missing_operand_is_said(scan: ScanView)
    ensures
        scan.verb == Some(Verb::Write) && scan.positional.len() != 2 ==> command_of(scan) == Err::<CommandView, Seq<char>>(
            "set takes a state name and a value: `mantle set launcher_open true`"@,
        ),
        scan.verb == Some(Verb::Toggle) && scan.positional.len() == 0 ==> command_of(scan) == Err::<
            CommandView,
            Seq<char>,
        >("toggle takes a state name: `mantle toggle launcher_open`"@),
        scan.verb == Some(Verb::Call) && scan.positional.len() == 0 ==> command_of(scan) == Err::<CommandView, Seq<char>>(
            "call takes an action name: `mantle call rec.toggle`"@,
        ),
        command_of(scan) matches Err(message) ==> finish(scan) == Err::<ArgsView, Seq<char>>(message),
        scan.verb == Some(Verb::Check) ==> command_of(scan) == Ok::<CommandView, Seq<char>>(CommandView::Check),
        scan.verb == Some(Verb::List) ==> command_of(scan) == Ok::<CommandView, Seq<char>>(CommandView::List),
        scan.verb is None ==> command_of(scan) == Ok::<CommandView, Seq<char>>(CommandView::Run),
{
}

/// `--version` and `--help` are answered with what was read before them, whatever follows.
pub proof fn a_question_ends_the_reading(
    argv: Seq<Seq<char>>,
    i: int,
    dirs: Seq<Result<Seq<char>, Seq<char>>>,
    used: int,
    scan: ScanView,
)
    requires
        0 <= i < argv.len(),
    ensures
        argv[i] == "-V"@ || argv[i] == "--version"@ ==> parse_from(argv, i, dirs, used, scan) == ParsedView::Done(
            Ok(
                ArgsView {
                    command: CommandView::Version,
                    config_dir: scan.config_dir,
                    detach: scan.detach,
                    profile: scan.profile,
                    pid: scan.pid,
                    verbose: scan.verbose,
                },
            ),
        ),
        argv[i] == "-h"@ || argv[i] == "--help"@ ==> parse_from(argv, i, dirs, used, scan) == ParsedView::Done(
            Ok(
                ArgsView {
                    command: CommandView::Help,
                    config_dir: scan.config_dir,
                    detach: scan.detach,
                    profile: scan.profile,
                    pid: scan.pid,
                    verbose: scan.verbose,
                },
            ),
        ),
{
    a_switch_sets_its_own_field(scan, at(argv, i + 1), at(dirs, used));
}

/// A directory is named as it stands, and by its own directory where it is a file.
pub proof fn a_file_names_its_directory(raw: Seq<char>, dir: Seq<char>)
    ensures
        named_dir(raw, false, Some(dir)) == Ok::<Seq<char>, Seq<char>>(raw),
        named_dir(raw, false, None) == Ok::<Seq<char>, Seq<char>>(raw),
        dir.len() > 0 ==> named_dir(raw, true, Some(dir)) == Ok::<Seq<char>, Seq<char>>(dir),
        dir.len() == 0 ==> named_dir(raw, true, Some(dir)) == Err::<Seq<char>, Seq<char>>(
            "--config "@ + raw + " is a file with no parent directory"@,
        ),
        named_dir(raw, true, None) == Err::<Seq<char>, Seq<char>>(
            "--config "@ + raw + " is a file with no parent directory"@,
        ),
{
}

/// The answers are those that were given, in their order.
pub proof fn an_answer_is_the_one_given(dirs: Seq<Result<String, String>>, i: int)
    ensures
        answers(dirs).len() == dirs.len(),
        0 <= i < dirs.len() ==> match dirs[i] {
            Ok(dir) => answers(dirs)[i] == Ok::<Seq<char>, Seq<char>>(dir@),
            Err(message) => answers(dirs)[i] == Err::<Seq<char>, Seq<char>>(message@),
        },
{
}

} // verus!
