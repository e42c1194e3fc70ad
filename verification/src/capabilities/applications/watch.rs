//! Rescans `mantle.applications` when an applications directory changes.

use vstd::prelude::*;

use crate::path;
use crate::text;

verus! {

/// Milliseconds without an event after which a burst has settled: one package install writes many
/// entries.
pub const DEBOUNCE: u64 = 250;

/// A directory to watch.
#[derive(Debug, PartialEq, Eq)]
pub struct Watch {
    pub path: String,
    /// Only names that come into being are told: this one stands in for a directory that is missing.
    pub only_new: bool,
}

/// The directories above a path, the nearest first.
pub open spec fn above(dir: Seq<char>) -> Seq<Seq<char>>
    decreases dir.len(),
{
    match path::parent_text(dir) {
        Some(parent) if parent.len() < dir.len() => seq![parent] + above(parent),
        _ => Seq::empty(),
    }
}

/// The directories above a path, the nearest first.
pub fn ancestors(dir: &str) -> (list: Vec<String>)
    ensures
        text::strings(list@) == above(dir@),
{
    let mut list: Vec<String> = Vec::new();
    let mut rest: String = dir.to_owned();
    assert(text::strings(list@) + above(rest@) =~= above(dir@));
    loop
        invariant
            text::strings(list@) + above(rest@) == above(dir@),
        ensures
            text::strings(list@) == above(dir@),
        decreases rest@.len(),
    {
        match path::parent_of(rest.as_str()) {
            Some(parent) => {
                let ghost before = list@;
                list.push(parent.clone());
                assert(text::strings(list@) =~= text::strings(before).push(parent@));
                assert(text::strings(list@) + above(parent@) =~= text::strings(before) + (seq![parent@] + above(
                    parent@,
                )));
                rest = parent;
            },
            None => {
                assert(text::strings(list@) + above(rest@) =~= text::strings(list@));
                break;
            },
        }
    }
    list
}

/// The first place that is a directory.
pub open spec fn nearest_from(is_dir: Seq<bool>, from: int) -> Option<int>
    decreases is_dir.len() - from,
{
    if from < 0 || from >= is_dir.len() {
        None
    } else if is_dir[from] {
        Some(from)
    } else {
        nearest_from(is_dir, from + 1)
    }
}

fn nearest(is_dir: &Vec<bool>) -> (at: Option<usize>)
    ensures
        nearest_from(is_dir@, 0) == (match at {
            Some(at) => Some(at as int),
            None => None,
        }),
        at matches Some(at) ==> at < is_dir@.len(),
{
    let mut i: usize = 0;
    while i < is_dir.len()
        invariant
            i <= is_dir@.len(),
            nearest_from(is_dir@, i as int) == nearest_from(is_dir@, 0),
        decreases is_dir@.len() - i,
    {
        if is_dir[i] {
            return Some(i);
        }
        i += 1;
    }
    None
}

/// What watches a directory: every directory the scan walks in it, or the nearest existing one above
/// it, which announces it when it is made.
pub fn watches(walked: Vec<String>, ancestors: Vec<String>, is_dir: &Vec<bool>) -> (list: Vec<Watch>)
    requires
        ancestors@.len() == is_dir@.len(),
    ensures
        if walked@.len() > 0 {
            list@ == Seq::new(walked@.len(), |i: int| Watch { path: walked@[i], only_new: false })
        } else {
            match nearest_from(is_dir@, 0) {
                Some(at) => list@ == seq![Watch { path: ancestors@[at], only_new: true }],
                None => list@.len() == 0,
            }
        },
{
    let mut list: Vec<Watch> = Vec::new();
    if walked.len() > 0 {
        let ghost all = walked@;
        let mut walked = walked;
        let ghost mut done: int = 0;
        while walked.len() > 0
            invariant
                0 <= done,
                done + walked@.len() == all.len(),
                walked@ == all.subrange(done, all.len() as int),
                list@ == Seq::new(done as nat, |i: int| Watch { path: all[i], only_new: false }),
            decreases walked@.len(),
        {
            let next = walked.remove(0);
            assert(next == all[done]);
            list.push(Watch { path: next, only_new: false });
            proof {
                done = done + 1;
            }
            assert(walked@ =~= all.subrange(done, all.len() as int));
            assert(list@ =~= Seq::new(done as nat, |i: int| Watch { path: all[i], only_new: false }));
        }
        return list;
    }
    match nearest(is_dir) {
        Some(at) => {
            let mut ancestors = ancestors;
            let path = ancestors.remove(at);
            list.push(Watch { path, only_new: true });
            assert(list@ =~= seq![Watch { path, only_new: true }]);
            list
        },
        None => list,
    }
}

/// What the rescanning task waits for.
#[derive(Debug, Clone, Copy, PartialEq, Eq, Structural)]
pub enum Waiting {
    /// A change.
    Change,
    /// [`DEBOUNCE`] without a change.
    Quiet,
}

/// What a wait ended with.
#[derive(Debug, Clone, Copy, PartialEq, Eq, Structural)]
pub enum WaitEnd {
    Changed,
    /// The time passed without a change.
    Settled,
    /// No more events come.
    Closed,
}

/// What the rescanning task does next.
#[derive(Debug, Clone, Copy, PartialEq, Eq, Structural)]
pub enum Next {
    Wait(Waiting),
    /// Watch, and scan: a change made during the scan leads to another.
    Scan,
    Stop,
}

pub open spec fn next_after(waiting: Waiting, end: WaitEnd) -> Next {
    match (waiting, end) {
        (Waiting::Change, WaitEnd::Changed) => Next::Wait(Waiting::Quiet),
        (Waiting::Change, WaitEnd::Settled) => Next::Wait(Waiting::Change),
        (Waiting::Change, WaitEnd::Closed) => Next::Stop,
        (Waiting::Quiet, WaitEnd::Changed) => Next::Wait(Waiting::Quiet),
        (Waiting::Quiet, WaitEnd::Settled) => Next::Scan,
        (Waiting::Quiet, WaitEnd::Closed) => Next::Scan,
    }
}

/// The task's next step: one scan for each settled burst of changes.
pub fn wait_ended(waiting: Waiting, end: WaitEnd) -> (next: Next)
    ensures
        next == next_after(waiting, end),
{
    match (waiting, end) {
        (Waiting::Change, WaitEnd::Changed) => Next::Wait(Waiting::Quiet),
        (Waiting::Change, WaitEnd::Settled) => Next::Wait(Waiting::Change),
        (Waiting::Change, WaitEnd::Closed) => Next::Stop,
        (Waiting::Quiet, WaitEnd::Changed) => Next::Wait(Waiting::Quiet),
        (Waiting::Quiet, WaitEnd::Settled) => Next::Scan,
        (Waiting::Quiet, WaitEnd::Closed) => Next::Scan,
    }
}

/// The task's first step once it scanned: a watch that failed leaves `refresh` as the only rescan.
pub fn scanned(watching: bool) -> (next: Next)
    ensures
        next == (if watching {
            Next::Wait(Waiting::Change)
        } else {
            Next::Stop
        }),
{
    if watching {
        Next::Wait(Waiting::Change)
    } else {
        Next::Stop
    }
}

// ---- laws ----

/// What the task does after a series of waits that did not end it: `None` once it scans or stops.
pub open spec fn still_waiting(waiting: Waiting, ends: Seq<WaitEnd>) -> Option<Waiting>
    decreases ends.len(),
{
    if ends.len() == 0 {
        Some(waiting)
    } else {
        match still_waiting(waiting, ends.drop_last()) {
            Some(waiting) => match next_after(waiting, ends.last()) {
                Next::Wait(waiting) => Some(waiting),
                _ => None,
            },
            None => None,
        }
    }
}

/// A burst of changes, however long, is one scan, made once it settles.
pub proof fn a_burst_is_one_scan(burst: Seq<WaitEnd>)
    requires
        burst.len() > 0,
        forall|i: int| 0 <= i < burst.len() ==> (#[trigger] burst[i]) == WaitEnd::Changed,
    ensures
        still_waiting(Waiting::Change, burst) == Some(Waiting::Quiet),
        next_after(Waiting::Quiet, WaitEnd::Settled) == Next::Scan,
    decreases burst.len(),
{
    assert(burst.last() == WaitEnd::Changed);
    if burst.len() > 1 {
        let before = burst.drop_last();
        assert forall|i: int| 0 <= i < before.len() implies (#[trigger] before[i]) == WaitEnd::Changed by {
            assert(before[i] == burst[i]);
        }
        a_burst_is_one_scan(before);
    } else {
        assert(burst.drop_last().len() == 0);
    }
}

/// A directory's ancestors are its parent and the parent's own.
pub proof fn ancestors_are_a_parents_own(dir: Seq<char>, parent: Seq<char>)
    ensures
        path::parent_text(dir) is None ==> above(dir).len() == 0,
        path::parent_text(dir) == Some(parent) && parent.len() < dir.len() ==> above(dir) == seq![parent] + above(
            parent,
        ),
{
}

/// The nearest directory is the first that there is.
pub proof fn the_nearest_is_the_first_there_is(is_dir: Seq<bool>, from: int)
    requires
        0 <= from <= is_dir.len(),
    ensures
        match nearest_from(is_dir, from) {
            Some(at) => from <= at < is_dir.len() && is_dir[at] && forall|j: int|
                from <= j < at ==> !(#[trigger] is_dir[j]),
            None => forall|j: int| from <= j < is_dir.len() ==> !(#[trigger] is_dir[j]),
        },
    decreases is_dir.len() - from,
{
    if from < is_dir.len() && !is_dir[from] {
        the_nearest_is_the_first_there_is(is_dir, from + 1);
    }
}

/// A change is scanned for once it has been quiet since, also where that is because no more can come;
/// without a change there is nothing to scan for, and a change starts the quiet anew.
pub proof fn a_scan_follows_a_change_and_a_quiet(waiting: Waiting, end: WaitEnd)
    ensures
        next_after(waiting, end) is Scan <==> waiting is Quiet && !(end is Changed),
        next_after(waiting, end) is Stop <==> waiting is Change && end is Closed,
        end is Changed ==> next_after(waiting, end) == Next::Wait(Waiting::Quiet),
        waiting is Change && end is Settled ==> next_after(waiting, end) == Next::Wait(Waiting::Change),
{
}

} // verus!
