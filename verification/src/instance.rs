//! One directory per supervisor under the runtime directory, and how clients pick one.

use vstd::prelude::*;

use crate::path;
use crate::text;
use crate::time::Elapsed;

verus! {

pub const LOCK: &'static str = "instance.lock";

pub const LOG: &'static str = "shell.log";

/// A supervisor's directory as [`list`] read it.
#[derive(Debug, PartialEq, Eq)]
pub struct Instance {
    pub pid: u32,
    pub config: String,
    /// Nanoseconds since the epoch.
    pub started: i128,
    pub live: bool,
    pub has_log: bool,
}

/// A directory found under the root: its name, when its `config` was written and what it names, and
/// what else was found in it.
#[derive(Debug)]
pub struct Found {
    pub name: String,
    pub started: Option<i128>,
    pub config: Option<String>,
    pub live: bool,
    pub has_log: bool,
}

/// The instance a directory is: one with a number for its name and a readable `config`.
pub fn instance_of(found: Found) -> (instance: Option<Instance>)
    ensures
        match (text::parse_unsigned(found.name@, u32::MAX as nat), found.started, found.config) {
            (Some(pid), Some(started), Some(config)) => instance == Some(
                Instance { pid: pid as u32, config, started, live: found.live, has_log: found.has_log },
            ),
            _ => instance is None,
        },
{
    match (text::str_parse_u32(found.name.as_str()), found.started, found.config) {
        (Some(pid), Some(started), Some(config)) => Some(
            Instance { pid, config, started, live: found.live, has_log: found.has_log },
        ),
        _ => None,
    }
}

/// Every instance among the directories found.
pub open spec fn instances_in(found: Seq<Found>) -> Seq<Instance>
    decreases found.len(),
{
    if found.len() == 0 {
        Seq::empty()
    } else {
        let last = found.last();
        match (text::parse_unsigned(last.name@, u32::MAX as nat), last.started, last.config) {
            (Some(pid), Some(started), Some(config)) => instances_in(found.drop_last()).push(
                Instance { pid: pid as u32, config, started, live: last.live, has_log: last.has_log },
            ),
            _ => instances_in(found.drop_last()),
        }
    }
}

/// Every numbered directory that has a `config`.
pub fn list(found: Vec<Found>) -> (instances: Vec<Instance>)
    ensures
        instances@ == instances_in(found@),
{
    let ghost all = found@;
    let mut rest = found;
    let mut instances: Vec<Instance> = Vec::new();
    let ghost mut done: int = 0;
    assert(all.subrange(0, all.len() as int) =~= all);
    assert(all.subrange(0, 0) =~= Seq::<Found>::empty());
    while rest.len() > 0
        invariant
            0 <= done <= all.len(),
            rest@ == all.subrange(done, all.len() as int),
            instances@ == instances_in(all.subrange(0, done)),
        decreases rest@.len(),
    {
        let next = rest.remove(0);
        proof {
            assert(next == all[done]);
            assert(all.subrange(0, done + 1).drop_last() =~= all.subrange(0, done));
            assert(rest@ =~= all.subrange(done + 1, all.len() as int));
        }
        if let Some(instance) = instance_of(next) {
            instances.push(instance);
        }
        proof {
            done = done + 1;
        }
    }
    assert(all.subrange(0, done) =~= all);
    instances
}

/// A supervisor's own directory.
pub fn claim_dir(root: &str, pid: u32) -> (dir: String)
    ensures
        dir@ == path::joined(root@, text::decimal(pid as nat)),
{
    let name = text::decimal_of(pid as u64);
    path::join(root, name.as_str())
}

/// What a claim that lost the race for the lock is refused with.
pub fn already_held(dir: &str) -> (message: String)
    ensures
        message@ == dir@ + " is already held"@,
{
    dir.to_owned().concat(" is already held")
}

/// Why a directory cannot be claimed. A live holder of this process's own id is a supervisor in
/// another pid namespace that shares this login.
pub fn claim_refusal(dir: &str, live: bool) -> (message: Option<String>)
    ensures
        text::optional(message) == (if live {
            Some(dir@ + " is held by a running shell"@)
        } else {
            None
        }),
{
    if live {
        Some(dir.to_owned().concat(" is held by a running shell"))
    } else {
        None
    }
}

/// Which instances a choice is among; a `None` and a `false` leave a property open.
pub struct Wanted<'a> {
    pub pid: Option<u32>,
    pub config: Option<&'a str>,
    pub live: bool,
    pub has_log: bool,
}

/// What a [`Wanted`] says.
pub struct WantedView {
    pub pid: Option<u32>,
    pub config: Option<Seq<char>>,
    pub live: bool,
    pub has_log: bool,
}

impl<'a> View for Wanted<'a> {
    type V = WantedView;

    open spec fn view(&self) -> WantedView {
        WantedView {
            pid: self.pid,
            config: text::optional_str(self.config),
            live: self.live,
            has_log: self.has_log,
        }
    }
}

pub open spec fn fits(instance: Instance, wanted: WantedView) -> bool {
    &&& wanted.pid matches Some(pid) ==> instance.pid == pid
    &&& wanted.config matches Some(config) ==> path::same_path(instance.config@, config)
    &&& wanted.live ==> instance.live
    &&& wanted.has_log ==> instance.has_log
}

/// The place of the newest instance wanted; of two that started together, the later one.
pub open spec fn newest_at(instances: Seq<Instance>, wanted: WantedView) -> Option<int>
    decreases instances.len(),
{
    if instances.len() == 0 {
        None
    } else {
        let best = newest_at(instances.drop_last(), wanted);
        if !fits(instances.last(), wanted) {
            best
        } else {
            match best {
                Some(at) if instances[at].started > instances.last().started => best,
                _ => Some(instances.len() - 1),
            }
        }
    }
}

/// The newest instance's process id. Pids wrap, so start time orders instances.
pub open spec fn newest_pid(instances: Seq<Instance>, wanted: WantedView) -> Option<u32> {
    match newest_at(instances, wanted) {
        Some(at) => Some(instances[at].pid),
        None => None,
    }
}

/// How many instances are wanted.
pub open spec fn count(instances: Seq<Instance>, wanted: WantedView) -> nat
    decreases instances.len(),
{
    if instances.len() == 0 {
        0
    } else {
        count(instances.drop_last(), wanted) + (if fits(instances.last(), wanted) {
            1nat
        } else {
            0nat
        })
    }
}

/// What is chosen is wanted, and nothing wanted is newer.
pub proof fn the_newest_is_chosen(instances: Seq<Instance>, wanted: WantedView)
    ensures
        match newest_at(instances, wanted) {
            Some(at) => 0 <= at < instances.len() && fits(instances[at], wanted) && (forall|i: int|
                0 <= i < instances.len() && fits(#[trigger] instances[i], wanted) ==> instances[i].started
                    <= instances[at].started),
            None => forall|i: int| 0 <= i < instances.len() ==> !fits(#[trigger] instances[i], wanted),
        },
    decreases instances.len(),
{
    if instances.len() > 0 {
        let before = instances.drop_last();
        the_newest_is_chosen(before, wanted);
        assert forall|i: int| 0 <= i < before.len() implies before[i] == #[trigger] instances[i] by {}
    }
}

fn matches(instance: &Instance, wanted: &Wanted) -> (fit: bool)
    ensures
        fit == fits(*instance, wanted@),
{
    let pid_fits = match wanted.pid {
        Some(pid) => instance.pid == pid,
        None => true,
    };
    let config_fits = match wanted.config {
        Some(config) => path::same(instance.config.as_str(), config),
        None => true,
    };
    pid_fits && config_fits && (!wanted.live || instance.live) && (!wanted.has_log || instance.has_log)
}

/// The newest of the instances wanted, and how many are.
pub fn newest(instances: &Vec<Instance>, wanted: &Wanted) -> (found: (Option<u32>, usize))
    ensures
        found.0 == newest_pid(instances@, wanted@),
        found.1 == count(instances@, wanted@),
{
    let mut best: Option<usize> = None;
    let mut number: usize = 0;
    let mut i: usize = 0;
    assert(instances@.subrange(0, 0) =~= Seq::<Instance>::empty());
    while i < instances.len()
        invariant
            i <= instances@.len(),
            number <= i,
            number == count(instances@.subrange(0, i as int), wanted@),
            match best {
                Some(at) => at < i && newest_at(instances@.subrange(0, i as int), wanted@) == Some(at as int),
                None => newest_at(instances@.subrange(0, i as int), wanted@) is None,
            },
        decreases instances@.len() - i,
    {
        assert(instances@.subrange(0, i + 1).drop_last() =~= instances@.subrange(0, i as int));
        assert(instances@.subrange(0, i + 1).last() == instances@[i as int]);
        if matches(&instances[i], wanted) {
            number += 1;
            let newer = match best {
                Some(at) => instances[at].started <= instances[i].started,
                None => true,
            };
            if newer {
                best = Some(i);
            }
        }
        i += 1;
    }
    assert(instances@.subrange(0, i as int) =~= instances@);
    let pid = match best {
        Some(at) => Some(instances[at].pid),
        None => None,
    };
    (pid, number)
}

pub open spec fn result_view<T>(result: Result<T, String>) -> Result<T, Seq<char>> {
    match result {
        Ok(value) => Ok(value),
        Err(message) => Err(message@),
    }
}

/// The supervisor a command reaches.
pub open spec fn command_target(
    instances: Seq<Instance>,
    pid: Option<u32>,
    config: Seq<char>,
    explicit: bool,
) -> Result<u32, Seq<char>> {
    match pid {
        Some(pid) => match newest_pid(
            instances,
            WantedView { pid: Some(pid), config: None, live: true, has_log: false },
        ) {
            Some(found) => Ok(found),
            None => Err(
                "no running shell with pid "@ + text::decimal(pid as nat) + "; obelisk list shows them"@,
            ),
        },
        None => match newest_pid(
            instances,
            WantedView { pid: None, config: Some(config), live: true, has_log: false },
        ) {
            Some(found) => Ok(found),
            None => if explicit {
                Err("no shell is running on "@ + config)
            } else {
                match newest_pid(
                    instances,
                    WantedView { pid: None, config: None, live: true, has_log: false },
                ) {
                    Some(found) => Ok(found),
                    None => Err("no shell is running"@),
                }
            },
        },
    }
}

/// The supervisor that `set`, `toggle` and `call` reach. `explicit` is `-c`, never an inherited
/// variable.
pub fn select_command(instances: &Vec<Instance>, pid: Option<u32>, config: &str, explicit: bool) -> (
    target: Result<u32, String>)
    ensures
        result_view(target) == command_target(instances@, pid, config@, explicit),
{
    if let Some(pid) = pid {
        let (found, _) = newest(instances, &Wanted { pid: Some(pid), config: None, live: true, has_log: false });
        return match found {
            Some(found) => Ok(found),
            None => {
                let id = text::decimal_of(pid as u64);
                Err("no running shell with pid ".to_owned().concat(id.as_str()).concat("; obelisk list shows them"))
            },
        };
    }
    let (here, _) = newest(instances, &Wanted { pid: None, config: Some(config), live: true, has_log: false });
    if let Some(found) = here {
        return Ok(found);
    }
    if explicit {
        return Err("no shell is running on ".to_owned().concat(config));
    }
    let (anywhere, _) = newest(instances, &Wanted { pid: None, config: None, live: true, has_log: false });
    match anywhere {
        Some(found) => Ok(found),
        None => Err("no shell is running".to_owned()),
    }
}

/// What `log` reads, and a note when it picked one of several.
pub open spec fn log_target(instances: Seq<Instance>, pid: Option<u32>, config: Option<Seq<char>>) -> Result<
    (u32, Option<Seq<char>>),
    Seq<char>,
> {
    match pid {
        Some(pid) => match newest_pid(
            instances,
            WantedView { pid: Some(pid), config: None, live: false, has_log: false },
        ) {
            Some(found) => Ok((found, None)),
            None => Err(
                "no shell with pid "@ + text::decimal(pid as nat) + "; obelisk list shows the running ones"@,
            ),
        },
        None => {
            let live = WantedView { pid: None, config, live: true, has_log: true };
            let any = WantedView { pid: None, config, live: false, has_log: true };
            match newest_pid(instances, live) {
                Some(found) => Ok(
                    (
                        found,
                        if count(instances, live) > 1 {
                            Some(
                                text::decimal(count(instances, live)) + " shells running"@ + (match config {
                                    Some(config) => " on "@ + config,
                                    None => Seq::empty(),
                                }) + "; showing pid "@ + text::decimal(found as nat)
                                    + " (newest). --pid picks one; obelisk list shows them"@,
                            )
                        } else {
                            None
                        },
                    ),
                ),
                None => match newest_pid(instances, any) {
                    Some(found) => Ok((found, None)),
                    None => match config {
                        Some(config) => Err("no shell log this login on "@ + config),
                        None => Err("no shell log this login"@),
                    },
                },
            }
        },
    }
}

pub open spec fn log_view(target: Result<(u32, Option<String>), String>) -> Result<
    (u32, Option<Seq<char>>),
    Seq<char>,
> {
    match target {
        Ok((pid, note)) => Ok((pid, text::optional(note))),
        Err(message) => Err(message@),
    }
}

/// The directory `log` reads, and a note when it picked one of several live shells; `config` is
/// `-c`.
pub fn select_log(instances: &Vec<Instance>, pid: Option<u32>, config: Option<&str>) -> (target: Result<
    (u32, Option<String>),
    String,
>)
    ensures
        log_view(target) == log_target(instances@, pid, text::optional_str(config)),
{
    if let Some(pid) = pid {
        let (found, _) = newest(instances, &Wanted { pid: Some(pid), config: None, live: false, has_log: false });
        return match found {
            Some(found) => Ok((found, None)),
            None => {
                let id = text::decimal_of(pid as u64);
                Err(
                    "no shell with pid ".to_owned().concat(id.as_str()).concat(
                        "; obelisk list shows the running ones",
                    ),
                )
            },
        };
    }
    let (live, number) = newest(instances, &Wanted { pid: None, config, live: true, has_log: true });
    if let Some(found) = live {
        if number <= 1 {
            return Ok((found, None));
        }
        let on = match config {
            Some(config) => " on ".to_owned().concat(config),
            None => String::new(),
        };
        let shown = text::decimal_of(found as u64);
        let note = text::decimal_of(number as u64).concat(" shells running").concat(on.as_str()).concat(
            "; showing pid ",
        ).concat(shown.as_str()).concat(" (newest). --pid picks one; obelisk list shows them");
        return Ok((found, Some(note)));
    }
    let (any, _) = newest(instances, &Wanted { pid: None, config, live: false, has_log: true });
    match any {
        Some(found) => Ok((found, None)),
        None => match config {
            Some(config) => Err("no shell log this login on ".to_owned().concat(config)),
            None => Err("no shell log this login".to_owned()),
        },
    }
}

/// An uptime of two units at most.
pub open spec fn uptime(secs: nat) -> Seq<char> {
    if secs < 60 {
        text::decimal(secs) + "s"@
    } else if secs < 3600 {
        text::decimal(secs / 60) + "m"@ + text::two_digits(secs % 60) + "s"@
    } else if secs < 86_400 {
        text::decimal(secs / 3600) + "h"@ + text::two_digits(secs / 60 % 60) + "m"@
    } else {
        text::decimal(secs / 86_400) + "d"@ + text::two_digits(secs / 3600 % 24) + "h"@
    }
}

/// `list`'s UPTIME.
pub fn format_uptime(elapsed: Elapsed) -> (shown: String)
    ensures
        shown@ == uptime(elapsed.secs as nat),
{
    let secs = elapsed.secs;
    if secs < 60 {
        return text::decimal_of(secs).concat("s");
    }
    let (big, big_unit, small, small_unit) = if secs < 3600 {
        (text::decimal_of(secs / 60), "m", text::two_digits_of(secs % 60), "s")
    } else if secs < 86_400 {
        (text::decimal_of(secs / 3600), "h", text::two_digits_of(secs / 60 % 60), "m")
    } else {
        (text::decimal_of(secs / 86_400), "d", text::two_digits_of(secs / 3600 % 24), "h")
    };
    big.concat(big_unit).concat(small.as_str()).concat(small_unit)
}

// ---- laws ----

/// Whether a command may reach an instance: a live one, with the process id that is asked for, or else
/// on the config that is asked for, or anywhere where none is there and none was named with `-c`.
pub open spec fn may_be_commanded(
    instances: Seq<Instance>,
    i: int,
    pid: Option<u32>,
    config: Seq<char>,
    explicit: bool,
) -> bool {
    instances[i].live && match pid {
        Some(pid) => instances[i].pid == pid,
        None => path::same_path(instances[i].config@, config) || (!explicit && forall|j: int|
            0 <= j < instances.len() && (#[trigger] instances[j]).live ==> !path::same_path(
                instances[j].config@,
                config,
            )),
    }
}

/// A command reaches the newest of the instances that it may reach, by the time they started and not
/// by their process ids, and is refused exactly where there is none.
pub proof fn a_command_reaches_the_newest_it_may(
    instances: Seq<Instance>,
    pid: Option<u32>,
    config: Seq<char>,
    explicit: bool,
)
    ensures
        match command_target(instances, pid, config, explicit) {
            Ok(target) => exists|i: int|
                #![trigger instances[i]]
                0 <= i < instances.len() && instances[i].pid == target && may_be_commanded(
                    instances,
                    i,
                    pid,
                    config,
                    explicit,
                ) && forall|j: int|
                    0 <= j < instances.len() && #[trigger] may_be_commanded(instances, j, pid, config, explicit)
                        ==> instances[j].started <= instances[i].started,
            Err(_) => forall|i: int|
                0 <= i < instances.len() ==> !#[trigger] may_be_commanded(instances, i, pid, config, explicit),
        },
{
    let of_pid = WantedView { pid, config: None, live: true, has_log: false };
    let here = WantedView { pid: None, config: Some(config), live: true, has_log: false };
    let anywhere = WantedView { pid: None, config: None, live: true, has_log: false };
    the_newest_is_chosen(instances, of_pid);
    the_newest_is_chosen(instances, here);
    the_newest_is_chosen(instances, anywhere);
    let wanted = if pid is Some {
        of_pid
    } else if newest_at(instances, here) is Some || explicit {
        here
    } else {
        anywhere
    };
    if pid is None && newest_at(instances, here) is Some {
        let at = newest_at(instances, here)->Some_0;
        assert(instances[at].live && path::same_path(instances[at].config@, config));
    }
    assert forall|i: int| 0 <= i < instances.len() implies #[trigger] may_be_commanded(
        instances,
        i,
        pid,
        config,
        explicit,
    ) == fits(instances[i], wanted) by {
        if pid is None && newest_at(instances, here) is None {
            assert(!fits(instances[i], here));
            assert forall|j: int| 0 <= j < instances.len() && (#[trigger] instances[j]).live implies !path::same_path(
                instances[j].config@,
                config,
            ) by {
                assert(!fits(instances[j], here));
            }
        }
    }
    match newest_at(instances, wanted) {
        Some(at) => {
            assert(may_be_commanded(instances, at, pid, config, explicit));
        },
        None => {},
    }
}

/// Whether `log` may read an instance: the one with the process id asked for, or one that wrote a log,
/// on the config asked for.
pub open spec fn may_be_read(instance: Instance, pid: Option<u32>, config: Option<Seq<char>>) -> bool {
    match pid {
        Some(pid) => instance.pid == pid,
        None => instance.has_log && (config matches Some(config) ==> path::same_path(instance.config@, config)),
    }
}

proof fn lemma_count(instances: Seq<Instance>, wanted: WantedView)
    ensures
        count(instances, wanted) == 0 <==> forall|i: int|
            0 <= i < instances.len() ==> !fits(#[trigger] instances[i], wanted),
        count(instances, wanted) > 1 <==> exists|i: int, j: int|
            0 <= i < j < instances.len() && fits(#[trigger] instances[i], wanted) && fits(
                #[trigger] instances[j],
                wanted,
            ),
    decreases instances.len(),
{
    if instances.len() > 0 {
        let before = instances.drop_last();
        let n = instances.len() - 1;
        lemma_count(before, wanted);
        assert(instances.last() == instances[n]);
        assert forall|i: int| 0 <= i < n implies before[i] == #[trigger] instances[i] by {}
        if fits(instances[n], wanted) && count(before, wanted) > 0 {
            let i = choose|i: int| 0 <= i < before.len() && fits(#[trigger] before[i], wanted);
            assert(fits(instances[i], wanted) && fits(instances[n], wanted));
        }
        if count(before, wanted) > 1 {
            let (i, j) = choose|i: int, j: int|
                0 <= i < j < before.len() && fits(#[trigger] before[i], wanted) && fits(#[trigger] before[j], wanted);
            assert(fits(instances[i], wanted) && fits(instances[j], wanted));
        }
        if exists|i: int, j: int|
            0 <= i < j < instances.len() && fits(#[trigger] instances[i], wanted) && fits(
                #[trigger] instances[j],
                wanted,
            ) {
            let (i, j) = choose|i: int, j: int|
                0 <= i < j < instances.len() && fits(#[trigger] instances[i], wanted) && fits(
                    #[trigger] instances[j],
                    wanted,
                );
            assert(fits(before[i], wanted));
            if j < n {
                assert(fits(before[j], wanted));
            }
        }
        if count(before, wanted) > 0 {
            let i = choose|i: int| 0 <= i < before.len() && fits(#[trigger] before[i], wanted);
            assert(fits(instances[i], wanted));
        }
    }
}

/// `log` reads the newest instance that it may, a live one before any that is not; a process id is
/// taken as it is. It is refused exactly where there is none, and says that it picked one exactly
/// where it picked it among several live ones.
pub proof fn a_log_is_the_newest_live_one_or_the_newest(
    instances: Seq<Instance>,
    pid: Option<u32>,
    config: Option<Seq<char>>,
)
    ensures
        match log_target(instances, pid, config) {
            Ok((target, note)) => {
                &&& exists|i: int|
                    #![trigger instances[i]]
                    0 <= i < instances.len() && instances[i].pid == target && may_be_read(instances[i], pid, config)
                        && forall|j: int|
                        0 <= j < instances.len() && may_be_read(#[trigger] instances[j], pid, config) ==> (
                        instances[j].started <= instances[i].started && (pid is None ==> (instances[j].live
                            ==> instances[i].live))) || (pid is None && instances[i].live && !instances[j].live)
                &&& note is Some <==> pid is None && exists|i: int, j: int|
                    0 <= i < j < instances.len() && may_be_read(#[trigger] instances[i], None, config)
                        && may_be_read(#[trigger] instances[j], None, config) && instances[i].live
                        && instances[j].live
            },
            Err(_) => forall|i: int|
                0 <= i < instances.len() ==> !may_be_read(#[trigger] instances[i], pid, config),
        },
{
    let of_pid = WantedView { pid, config: None, live: false, has_log: false };
    let live = WantedView { pid: None, config, live: true, has_log: true };
    let any = WantedView { pid: None, config, live: false, has_log: true };
    the_newest_is_chosen(instances, of_pid);
    the_newest_is_chosen(instances, live);
    the_newest_is_chosen(instances, any);
    lemma_count(instances, live);
    assert forall|i: int| 0 <= i < instances.len() implies fits(#[trigger] instances[i], live) == (may_be_read(
        instances[i],
        None,
        config,
    ) && instances[i].live) && fits(instances[i], any) == may_be_read(instances[i], None, config) && (pid is Some
        ==> fits(instances[i], of_pid) == may_be_read(instances[i], pid, config)) by {}
    match log_target(instances, pid, config) {
        Ok((target, note)) => {
            if pid is Some {
                let at = newest_at(instances, of_pid)->Some_0;
                assert(may_be_read(instances[at], pid, config));
            } else if newest_at(instances, live) is Some {
                let at = newest_at(instances, live)->Some_0;
                assert(may_be_read(instances[at], pid, config));
                if count(instances, live) > 1 {
                    let (i, j) = choose|i: int, j: int|
                        0 <= i < j < instances.len() && fits(#[trigger] instances[i], live) && fits(
                            #[trigger] instances[j],
                            live,
                        );
                    assert(may_be_read(instances[i], None, config) && may_be_read(instances[j], None, config));
                }
            } else {
                let at = newest_at(instances, any)->Some_0;
                assert(may_be_read(instances[at], pid, config));
                assert forall|j: int| 0 <= j < instances.len() && may_be_read(
                    #[trigger] instances[j],
                    pid,
                    config,
                ) implies !instances[j].live by {
                    assert(!fits(instances[j], live));
                }
            }
        },
        Err(_) => {},
    }
}

/// Whether a directory is an instance's: its name is a number, and its config could be read.
pub open spec fn is_instance(found: Found) -> bool {
    text::parse_unsigned(found.name@, u32::MAX as nat) is Some && found.started is Some && found.config is Some
}

/// Every instance's directory is listed, once, in the order they were found in, with what was found
/// of it. Returns where they stand.
pub proof fn every_instance_is_listed(found: Seq<Found>) -> (at: Seq<int>)
    ensures
        at.len() == instances_in(found).len(),
        forall|i: int| 0 <= i < at.len() ==> 0 <= #[trigger] at[i] < found.len() && is_instance(found[at[i]]),
        forall|i: int, j: int| 0 <= i < j < at.len() ==> #[trigger] at[i] < #[trigger] at[j],
        forall|p: int| 0 <= p < found.len() && is_instance(#[trigger] found[p]) ==> at.contains(p),
        forall|i: int|
            0 <= i < at.len() ==> {
                let (dir, instance) = (found[#[trigger] at[i]], instances_in(found)[i]);
                &&& text::parse_unsigned(dir.name@, u32::MAX as nat) == Some(instance.pid as nat)
                &&& dir.config == Some(instance.config)
                &&& dir.started == Some(instance.started)
                &&& dir.live == instance.live
                &&& dir.has_log == instance.has_log
            },
    decreases found.len(),
{
    if found.len() == 0 {
        Seq::empty()
    } else {
        let before = every_instance_is_listed(found.drop_last());
        let n = found.len() - 1;
        assert forall|p: int| 0 <= p < n implies found.drop_last()[p] == #[trigger] found[p] by {}
        if is_instance(found.last()) {
            let at = before.push(n);
            assert forall|p: int| 0 <= p < found.len() && is_instance(#[trigger] found[p]) implies at.contains(p) by {
                if p < n {
                    assert(is_instance(found.drop_last()[p]));
                    let k = choose|k: int| 0 <= k < before.len() && before[k] == p;
                    assert(at[k] == p);
                } else {
                    assert(at[before.len() as int] == p);
                }
            }
            at
        } else {
            assert forall|p: int| 0 <= p < found.len() && is_instance(#[trigger] found[p]) implies before.contains(
                p,
            ) by {
                assert(p < n);
                assert(is_instance(found.drop_last()[p]));
            }
            before
        }
    }
}

/// An uptime shows its two largest units, which make up the time but for what is less than the smaller
/// of them.
pub proof fn an_uptime_shows_two_units(secs: nat) -> (units: (nat, nat))
    ensures
        secs < 60 ==> uptime(secs) == text::decimal(secs) + "s"@,
        60 <= secs < 3600 ==> units.1 < 60 && units.0 * 60 + units.1 == secs && uptime(secs) == text::decimal(units.0)
            + "m"@ + text::two_digits(units.1) + "s"@,
        3600 <= secs < 86_400 ==> units.1 < 60 && units.0 * 3600 + units.1 * 60 <= secs < units.0 * 3600 + units.1 * 60
            + 60 && uptime(secs) == text::decimal(units.0) + "h"@ + text::two_digits(units.1) + "m"@,
        86_400 <= secs ==> units.1 < 24 && units.0 * 86_400 + units.1 * 3600 <= secs < units.0 * 86_400 + units.1
            * 3600 + 3600 && uptime(secs) == text::decimal(units.0) + "d"@ + text::two_digits(units.1) + "h"@,
{
    if secs < 3600 {
        (secs / 60, secs % 60)
    } else if secs < 86_400 {
        (secs / 3600, secs / 60 % 60)
    } else {
        (secs / 86_400, secs / 3600 % 24)
    }
}

/// Of instances that started together the last found counts as the newest.
pub proof fn the_last_of_the_newest_counts(instances: Seq<Instance>, wanted: WantedView, i: int)
    ensures
        0 <= i < instances.len() && fits(instances[i], wanted) && (forall|j: int|
            0 <= j < instances.len() && fits(#[trigger] instances[j], wanted) ==> instances[j].started < instances[i].started
                || (instances[j].started == instances[i].started && j <= i)) ==> newest_pid(instances, wanted) == Some(
            instances[i].pid,
        ),
        (forall|j: int| 0 <= j < instances.len() ==> !fits(#[trigger] instances[j], wanted)) ==> newest_pid(
            instances,
            wanted,
        ) is None,
{
    lemma_last_newest(instances, wanted);
}

proof fn lemma_last_newest(instances: Seq<Instance>, wanted: WantedView)
    ensures
        match newest_at(instances, wanted) {
            Some(at) => 0 <= at < instances.len() && fits(instances[at], wanted) && forall|j: int|
                0 <= j < instances.len() && fits(#[trigger] instances[j], wanted) ==> instances[j].started
                    < instances[at].started || (instances[j].started == instances[at].started && j <= at),
            None => forall|j: int| 0 <= j < instances.len() ==> !fits(#[trigger] instances[j], wanted),
        },
    decreases instances.len(),
{
    if instances.len() > 0 {
        let shorter = instances.drop_last();
        lemma_last_newest(shorter, wanted);
        assert forall|j: int| 0 <= j < shorter.len() implies shorter[j] == #[trigger] instances[j] by {}
        assert(instances.last() == instances[instances.len() - 1]);
        if let Some(at) = newest_at(shorter, wanted) {
            assert(shorter[at] == instances[at]);
        }
    }
}

/// Those that fit are counted one by one.
pub proof fn every_fitting_instance_counts_once(a: Seq<Instance>, b: Seq<Instance>, wanted: WantedView, instance: Instance)
    ensures
        count(a + b, wanted) == count(a, wanted) + count(b, wanted),
        count(Seq::empty(), wanted) == 0,
        count(seq![instance], wanted) == (if fits(instance, wanted) {
            1nat
        } else {
            0
        }),
    decreases b.len(),
{
    reveal_with_fuel(count, 2);
    assert(seq![instance].drop_last() =~= Seq::<Instance>::empty());
    if b.len() > 0 {
        every_fitting_instance_counts_once(a, b.drop_last(), wanted, instance);
        assert((a + b).drop_last() =~= a + b.drop_last());
        assert((a + b).last() == b.last());
    } else {
        assert(a + b =~= a);
    }
}

/// A shell that is not there is said to be none, by what it was asked for by.
pub proof fn a_missing_shell_is_said(instances: Seq<Instance>, pid: u32, config: Seq<char>)
    ensures
        command_target(instances, Some(pid), config, true) matches Err(message) ==> message
            == "no running shell with pid "@ + text::decimal(pid as nat) + "; obelisk list shows them"@,
        command_target(instances, None, config, true) matches Err(message) ==> message == "no shell is running on "@
            + config,
        command_target(instances, None, config, false) matches Err(message) ==> message == "no shell is running"@,
        log_target(instances, Some(pid), None) matches Err(message) ==> message == "no shell with pid "@ + text::decimal(
            pid as nat,
        ) + "; obelisk list shows the running ones"@,
        log_target(instances, None, Some(config)) matches Err(message) ==> message == "no shell log this login on "@
            + config,
        log_target(instances, None, None) matches Err(message) ==> message == "no shell log this login"@,
{
}

/// Where one of several running shells is shown, how many there are and which it is is said.
pub proof fn one_of_several_shells_is_named(instances: Seq<Instance>, config: Seq<char>)
    ensures
        log_target(instances, None, None) matches Ok((pid, Some(note))) ==> note == text::decimal(
            count(instances, WantedView { pid: None, config: None, live: true, has_log: true }),
        ) + " shells running"@ + Seq::empty() + "; showing pid "@ + text::decimal(pid as nat)
            + " (newest). --pid picks one; obelisk list shows them"@,
        log_target(instances, None, Some(config)) matches Ok((pid, Some(note))) ==> note == text::decimal(
            count(instances, WantedView { pid: None, config: Some(config), live: true, has_log: true }),
        ) + " shells running"@ + (" on "@ + config) + "; showing pid "@ + text::decimal(pid as nat)
            + " (newest). --pid picks one; obelisk list shows them"@,
{
}

} // verus!
