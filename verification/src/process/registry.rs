//! `process.run` bookkeeping: child registration, output frames, kill and exit reports, and the
//! sweeps that reap a generation's children.

use vstd::prelude::*;

use crate::json::{self, Json};
use crate::text;

verus! {

/// Which of a child's streams a line came from.
#[derive(Debug, Clone, Copy, PartialEq, Eq, Structural)]
pub enum ProcessStream {
    Stdout,
    Stderr,
}

/// A line of a child's output, for the renderer that spawned it.
#[derive(Debug, Clone, PartialEq, Eq)]
pub struct ProcessOutputLine {
    pub id: u64,
    pub stream: ProcessStream,
    pub line: String,
}

/// A child's end. `code` is `None` after a signal, and when there was no child or no status.
#[derive(Debug, Clone, Copy, PartialEq, Eq, Structural)]
pub struct ProcessExited {
    pub id: u64,
    pub code: Option<i32>,
}

/// Tracked `process.run` children, each under the generation that spawned it and the id that
/// generation gave it.
#[derive(Debug)]
pub struct LiveProcesses<T> {
    entries: Vec<(u32, u64, T)>,
}

pub open spec fn child_from<T>(entries: Seq<(u32, u64, T)>, generation_id: u32, id: u64, from: int) -> Option<T>
    decreases entries.len() - from,
{
    if from < 0 || from >= entries.len() {
        None
    } else if entries[from].0 == generation_id && entries[from].1 == id {
        Some(entries[from].2)
    } else {
        child_from(entries, generation_id, id, from + 1)
    }
}

/// No child is under a key twice.
pub open spec fn distinct<T>(entries: Seq<(u32, u64, T)>) -> bool {
    forall|i: int, j: int|
        0 <= i < j < entries.len() ==> (#[trigger] entries[i]).0 != (#[trigger] entries[j]).0 || entries[i].1
            != entries[j].1
}

proof fn lemma_child_at<T>(entries: Seq<(u32, u64, T)>, generation_id: u32, id: u64, from: int, at: int)
    requires
        0 <= from <= at <= entries.len(),
        forall|j: int|
            from <= j < at ==> (#[trigger] entries[j]).0 != generation_id || entries[j].1 != id,
        at < entries.len() ==> entries[at].0 == generation_id && entries[at].1 == id,
    ensures
        child_from(entries, generation_id, id, from) == (if at < entries.len() {
            Some(entries[at].2)
        } else {
            None
        }),
    decreases at - from,
{
    if from < at {
        lemma_child_at(entries, generation_id, id, from + 1, at);
    }
}

/// Where an entry is found is where it stands, since no other has its key.
proof fn lemma_child_is<T>(entries: Seq<(u32, u64, T)>, at: int)
    requires
        distinct(entries),
        0 <= at < entries.len(),
    ensures
        child_from(entries, entries[at].0, entries[at].1, 0) == Some(entries[at].2),
{
    lemma_child_at(entries, entries[at].0, entries[at].1, 0, at);
}

/// An entry of one key is at some place or nowhere.
proof fn lemma_child_place<T>(entries: Seq<(u32, u64, T)>, generation_id: u32, id: u64, from: int) -> (at: int)
    requires
        0 <= from <= entries.len(),
    ensures
        from <= at <= entries.len(),
        forall|j: int|
            from <= j < at ==> (#[trigger] entries[j]).0 != generation_id || entries[j].1 != id,
        at < entries.len() ==> entries[at].0 == generation_id && entries[at].1 == id,
    decreases entries.len() - from,
{
    if from == entries.len() {
        from
    } else if entries[from].0 == generation_id && entries[from].1 == id {
        from
    } else {
        lemma_child_place(entries, generation_id, id, from + 1)
    }
}

impl<T> LiveProcesses<T> {
    pub closed spec fn spec_entries(self) -> Seq<(u32, u64, T)> {
        self.entries@
    }

    pub open spec fn wf(self) -> bool {
        distinct(self.spec_entries())
    }

    /// The child under a key.
    pub open spec fn child(self, generation_id: u32, id: u64) -> Option<T> {
        child_from(self.spec_entries(), generation_id, id, 0)
    }

    pub fn new() -> (processes: Self)
        ensures
            processes.wf(),
            processes.spec_entries().len() == 0,
    {
        LiveProcesses { entries: Vec::new() }
    }

    fn find(&self, generation_id: u32, id: u64) -> (at: Option<usize>)
        ensures
            match at {
                Some(i) => i < self.entries@.len() && self.entries@[i as int].0 == generation_id
                    && self.entries@[i as int].1 == id && self.child(generation_id, id) == Some(
                    self.entries@[i as int].2,
                ),
                None => self.child(generation_id, id) is None && forall|j: int|
                    0 <= j < self.entries@.len() ==> (#[trigger] self.entries@[j]).0 != generation_id
                        || self.entries@[j].1 != id,
            },
    {
        let mut i: usize = 0;
        while i < self.entries.len()
            invariant
                i <= self.entries@.len(),
                forall|j: int|
                    0 <= j < i ==> (#[trigger] self.entries@[j]).0 != generation_id || self.entries@[j].1 != id,
            decreases self.entries@.len() - i,
        {
            if self.entries[i].0 == generation_id && self.entries[i].1 == id {
                proof {
                    lemma_child_at(self.entries@, generation_id, id, 0, i as int);
                }
                return Some(i);
            }
            i += 1;
        }
        proof {
            lemma_child_at(self.entries@, generation_id, id, 0, self.entries@.len() as int);
        }
        None
    }

    pub fn contains(&self, generation_id: u32, id: u64) -> (found: bool)
        ensures
            found == (self.child(generation_id, id) is Some),
    {
        self.find(generation_id, id).is_some()
    }

    /// Takes the child under a key out: to kill it, or because its output ended. `None` means there
    /// is none: it was reaped before, or was never spawned.
    pub fn remove(&mut self, generation_id: u32, id: u64) -> (child: Option<T>)
        requires
            old(self).wf(),
        ensures
            final(self).wf(),
            child == old(self).child(generation_id, id),
            final(self).child(generation_id, id) is None,
            forall|g: u32, i: u64|
                g != generation_id || i != id ==> #[trigger] final(self).child(g, i) == old(self).child(g, i),
    {
        let at = match self.find(generation_id, id) {
            Some(at) => at,
            None => return None,
        };
        let ghost before = self.entries@;
        let (_, _, child) = self.entries.remove(at);
        let ghost after = self.entries@;
        proof {
            assert forall|i: int, j: int| 0 <= i < j < after.len() implies (#[trigger] after[i]).0 != (
            #[trigger] after[j]).0 || after[i].1 != after[j].1 by {
                let a = if i < at { i } else { i + 1 };
                let b = if j < at { j } else { j + 1 };
                assert(after[i] == before[a] && after[j] == before[b]);
            }
            assert forall|g: u32, k: u64| (g != generation_id || k != id) implies #[trigger] child_from(
                after,
                g,
                k,
                0,
            ) == child_from(before, g, k, 0) by {
                let place = lemma_child_place(before, g, k, 0);
                lemma_child_at(before, g, k, 0, place);
                let moved = if place < at { place } else { place - 1 };
                assert forall|j: int| 0 <= j < moved implies (#[trigger] after[j]).0 != g || after[j].1 != k by {
                    let a = if j < at { j } else { j + 1 };
                    assert(after[j] == before[a]);
                }
                if place < before.len() {
                    assert(after[moved] == before[place]);
                }
                lemma_child_at(after, g, k, 0, moved);
            }
            assert forall|j: int| 0 <= j < after.len() implies (#[trigger] after[j]).0 != generation_id || after[j].1
                != id by {
                let a = if j < at { j } else { j + 1 };
                assert(after[j] == before[a]);
                assert(before[at as int].0 == generation_id);
            }
            lemma_child_at(after, generation_id, id, 0, after.len() as int);
            assert(self.spec_entries() == after);
        }
        Some(child)
    }

    /// Registers a child; one already under the key comes back.
    pub fn insert(&mut self, generation_id: u32, id: u64, child: T) -> (replaced: Option<T>)
        requires
            old(self).wf(),
        ensures
            final(self).wf(),
            replaced == old(self).child(generation_id, id),
            final(self).child(generation_id, id) == Some(child),
            forall|g: u32, i: u64|
                g != generation_id || i != id ==> #[trigger] final(self).child(g, i) == old(self).child(g, i),
    {
        let replaced = self.remove(generation_id, id);
        let ghost rest = *self;
        let ghost before = self.entries@;
        self.entries.push((generation_id, id, child));
        let ghost after = self.entries@;
        proof {
            assert forall|j: int| 0 <= j < before.len() implies (#[trigger] before[j]).0 != generation_id
                || before[j].1 != id by {
                lemma_child_is(before, j);
            }
            assert forall|i: int, j: int| 0 <= i < j < after.len() implies (#[trigger] after[i]).0 != (
            #[trigger] after[j]).0 || after[i].1 != after[j].1 by {
                assert(after[i] == before[i]);
                if j < before.len() {
                    assert(after[j] == before[j]);
                }
            }
            assert forall|j: int| 0 <= j < before.len() implies (#[trigger] after[j]).0 != generation_id
                || after[j].1 != id by {
                assert(after[j] == before[j]);
            }
            lemma_child_at(after, generation_id, id, 0, before.len() as int);
            assert forall|g: u32, k: u64| (g != generation_id || k != id) implies #[trigger] child_from(
                after,
                g,
                k,
                0,
            ) == child_from(before, g, k, 0) by {
                let place = lemma_child_place(before, g, k, 0);
                lemma_child_at(before, g, k, 0, place);
                let moved = if place < before.len() { place } else { after.len() as int };
                assert forall|j: int| 0 <= j < moved implies (#[trigger] after[j]).0 != g || after[j].1 != k by {
                    if j < before.len() {
                        assert(after[j] == before[j]);
                    }
                }
                lemma_child_at(after, g, k, 0, moved);
            }
            assert(self.spec_entries() == after);
            assert forall|g: u32, k: u64| (g != generation_id || k != id) implies #[trigger] self.child(g, k)
                == old(self).child(g, k) by {
                assert(rest.child(g, k) == old(self).child(g, k));
                assert(child_from(after, g, k, 0) == child_from(before, g, k, 0));
            }
        }
        replaced
    }

    /// Takes out the children to reap: one generation's, or every tracked one at shutdown.
    pub fn reap(&mut self, generation_id: Option<u32>) -> (reaped: Vec<(u32, u64, T)>)
        requires
            old(self).wf(),
        ensures
            final(self).wf(),
            distinct(reaped@),
            forall|i: int| 0 <= i < reaped@.len() ==> covers(generation_id, (#[trigger] reaped@[i]).0),
            forall|g: u32, k: u64|
                covers(generation_id, g) ==> child_from(reaped@, g, k, 0) == #[trigger] old(self).child(g, k),
            forall|g: u32, k: u64|
                #[trigger] final(self).child(g, k) == (if covers(generation_id, g) {
                    None
                } else {
                    old(self).child(g, k)
                }),
    {
        let ghost all = self.entries@;
        let mut rest: Vec<(u32, u64, T)> = Vec::new();
        std::mem::swap(&mut rest, &mut self.entries);
        let mut kept: Vec<(u32, u64, T)> = Vec::new();
        let mut reaped: Vec<(u32, u64, T)> = Vec::new();
        let ghost mut done: int = 0;
        proof {
            assert(all.subrange(0, all.len() as int) =~= all);
            assert(all.subrange(0, 0) =~= Seq::<(u32, u64, T)>::empty());
            assert(part(all.subrange(0, 0), generation_id, true) =~= reaped@);
            assert(part(all.subrange(0, 0), generation_id, false) =~= kept@);
        }
        while rest.len() > 0
            invariant
                0 <= done <= all.len(),
                rest@ == all.subrange(done, all.len() as int),
                reaped@ == part(all.subrange(0, done), generation_id, true),
                kept@ == part(all.subrange(0, done), generation_id, false),
            decreases rest@.len(),
        {
            let next = rest.remove(0);
            proof {
                assert(next == all[done]);
                assert(all.subrange(0, done + 1).drop_last() =~= all.subrange(0, done));
                assert(all.subrange(0, done + 1).last() == next);
                assert(rest@ =~= all.subrange(done + 1, all.len() as int));
            }
            let take = match generation_id {
                Some(generation) => generation == next.0,
                None => true,
            };
            if take {
                reaped.push(next);
            } else {
                kept.push(next);
            }
            proof {
                done = done + 1;
            }
        }
        self.entries = kept;
        proof {
            assert(all.subrange(0, done) =~= all);
            lemma_part_keeps(all, generation_id, true);
            lemma_part_keeps(all, generation_id, false);
            assert forall|g: u32, k: u64| covers(generation_id, g) implies child_from(reaped@, g, k, 0)
                == #[trigger] old(self).child(g, k) by {
                assert(child_from(part(all, generation_id, true), g, k, 0) == child_from(all, g, k, 0));
            }
            assert forall|g: u32, k: u64| #[trigger] self.child(g, k) == (if covers(generation_id, g) {
                None
            } else {
                old(self).child(g, k)
            }) by {
                assert(child_from(part(all, generation_id, false), g, k, 0) == (if covers(generation_id, g) {
                    None
                } else {
                    child_from(all, g, k, 0)
                }));
            }
        }
        reaped
    }
}

/// Whether a sweep takes a generation's children.
pub open spec fn covers(swept: Option<u32>, generation_id: u32) -> bool {
    match swept {
        Some(generation) => generation == generation_id,
        None => true,
    }
}

/// The entries a sweep takes, or those it leaves.
spec fn part<T>(entries: Seq<(u32, u64, T)>, swept: Option<u32>, taken: bool) -> Seq<(u32, u64, T)>
    decreases entries.len(),
{
    if entries.len() == 0 {
        Seq::empty()
    } else if covers(swept, entries.last().0) == taken {
        part(entries.drop_last(), swept, taken).push(entries.last())
    } else {
        part(entries.drop_last(), swept, taken)
    }
}

proof fn lemma_last_child<T>(entries: Seq<(u32, u64, T)>, generation_id: u32, id: u64)
    requires
        entries.len() > 0,
    ensures
        child_from(entries, generation_id, id, 0) == (match child_from(entries.drop_last(), generation_id, id, 0) {
            Some(child) => Some(child),
            None => if entries.last().0 == generation_id && entries.last().1 == id {
                Some(entries.last().2)
            } else {
                None
            },
        }),
{
    let before = entries.drop_last();
    let place = lemma_child_place(before, generation_id, id, 0);
    lemma_child_at(before, generation_id, id, 0, place);
    assert forall|j: int| 0 <= j < place implies (#[trigger] entries[j]).0 != generation_id || entries[j].1 != id by {
        assert(entries[j] == before[j]);
    }
    if place < before.len() {
        assert(entries[place] == before[place]);
        lemma_child_at(entries, generation_id, id, 0, place);
    } else if entries.last().0 == generation_id && entries.last().1 == id {
        lemma_child_at(entries, generation_id, id, 0, place);
    } else {
        lemma_child_at(entries, generation_id, id, 0, entries.len() as int);
    }
}

proof fn lemma_part_keeps<T>(entries: Seq<(u32, u64, T)>, swept: Option<u32>, taken: bool)
    requires
        distinct(entries),
    ensures
        distinct(part(entries, swept, taken)),
        forall|i: int|
            0 <= i < part(entries, swept, taken).len() ==> covers(
                swept,
                (#[trigger] part(entries, swept, taken)[i]).0,
            ) == taken,
        forall|g: u32, k: u64|
            #[trigger] child_from(part(entries, swept, taken), g, k, 0) == (if covers(swept, g) == taken {
                child_from(entries, g, k, 0)
            } else {
                None
            }),
    decreases entries.len(),
{
    let whole = part(entries, swept, taken);
    if entries.len() == 0 {
    } else {
        let before = entries.drop_last();
        let head = part(before, swept, taken);
        assert(distinct(before)) by {
            assert forall|i: int, j: int| 0 <= i < j < before.len() implies (#[trigger] before[i]).0 != (
            #[trigger] before[j]).0 || before[i].1 != before[j].1 by {
                assert(before[i] == entries[i] && before[j] == entries[j]);
            }
        }
        lemma_part_keeps(before, swept, taken);
        let last = entries.last();
        assert(child_from(before, last.0, last.1, 0) is None) by {
            let place = lemma_child_place(before, last.0, last.1, 0);
            lemma_child_at(before, last.0, last.1, 0, place);
            if place < before.len() {
                assert(before[place] == entries[place]);
                assert(entries[entries.len() - 1] == last);
            }
        }
        if covers(swept, last.0) == taken {
            assert(whole == head.push(last));
            assert forall|i: int, j: int| 0 <= i < j < whole.len() implies (#[trigger] whole[i]).0 != (
            #[trigger] whole[j]).0 || whole[i].1 != whole[j].1 by {
                assert(whole[i] == head[i]);
                if j < head.len() {
                    assert(whole[j] == head[j]);
                } else if whole[i].0 == last.0 && whole[i].1 == last.1 {
                    lemma_child_is(head, i);
                    assert(child_from(head, last.0, last.1, 0) is Some);
                }
            }
            assert forall|g: u32, k: u64|
                #[trigger] child_from(whole, g, k, 0) == (if covers(swept, g) == taken {
                    child_from(entries, g, k, 0)
                } else {
                    None
                }) by {
                assert(whole.drop_last() =~= head);
                lemma_last_child(whole, g, k);
                lemma_last_child(entries, g, k);
            }
            assert forall|i: int| 0 <= i < whole.len() implies covers(swept, (#[trigger] whole[i]).0) == taken by {
                if i < head.len() {
                    assert(whole[i] == head[i]);
                }
            }
        } else {
            assert forall|g: u32, k: u64|
                #[trigger] child_from(whole, g, k, 0) == (if covers(swept, g) == taken {
                    child_from(entries, g, k, 0)
                } else {
                    None
                }) by {
                lemma_last_child(entries, g, k);
            }
        }
    }
}

// ---- commands ----

/// The text a JSON value is.
pub open spec fn text_in(level: Option<json::JsonView>) -> Option<Seq<char>> {
    match level {
        Some(json::JsonView::Text(text)) => Some(text),
        _ => None,
    }
}

/// The items of the list a JSON value is.
pub open spec fn list_in(level: Option<json::JsonView>) -> Option<Seq<Seq<char>>> {
    match level {
        Some(json::JsonView::List(items)) => Some(items),
        _ => None,
    }
}

/// The texts that JSON values are, if each is one.
pub open spec fn texts_in(items: Seq<Seq<char>>) -> Option<Seq<Seq<char>>>
    decreases items.len(),
{
    if items.len() == 0 {
        Some(Seq::empty())
    } else {
        match (texts_in(items.drop_last()), text_in(json::json_level(items.last()))) {
            (Some(before), Some(text)) => Some(before.push(text)),
            _ => None,
        }
    }
}

pub open spec fn level_view(level: Option<Json>) -> Option<json::JsonView> {
    match level {
        Some(level) => Some(level@),
        None => None,
    }
}

pub fn text_value(level: Option<Json>) -> (text: Option<String>)
    ensures
        text::optional(text) == text_in(level_view(level)),
{
    match level {
        Some(Json::Text(text)) => Some(text),
        _ => None,
    }
}

pub fn list_value(level: Option<Json>) -> (items: Option<Vec<String>>)
    ensures
        list_in(level_view(level)) == (match items {
            Some(items) => Some(text::strings(items@)),
            None => None,
        }),
{
    match level {
        Some(Json::List(items)) => Some(items),
        _ => None,
    }
}

/// A program and its arguments.
pub struct RunView {
    pub cmd: Seq<char>,
    pub args: Seq<Seq<char>>,
}

/// `[cmd, args]`: a text, and a list of texts. Further arguments are not looked at.
pub open spec fn run_args(arguments: Seq<Seq<char>>) -> Option<RunView> {
    if arguments.len() < 2 {
        None
    } else {
        match (text_in(json::json_level(arguments[0])), list_in(json::json_level(arguments[1]))) {
            (Some(cmd), Some(items)) => match texts_in(items) {
                Some(args) => Some(RunView { cmd, args }),
                None => None,
            },
            _ => None,
        }
    }
}

pub open spec fn run_view(run: Option<(String, Vec<String>)>) -> Option<RunView> {
    match run {
        Some((cmd, args)) => Some(RunView { cmd: cmd@, args: text::strings(args@) }),
        None => None,
    }
}

proof fn lemma_texts_fail(items: Seq<Seq<char>>, upto: int)
    requires
        0 <= upto <= items.len(),
        texts_in(items.subrange(0, upto)) is None,
    ensures
        texts_in(items) is None,
    decreases items.len() - upto,
{
    if upto < items.len() {
        assert(items.subrange(0, upto + 1).drop_last() =~= items.subrange(0, upto));
        lemma_texts_fail(items, upto + 1);
    } else {
        assert(items.subrange(0, upto) =~= items);
    }
}

fn all_texts(items: &Vec<String>) -> (out: Option<Vec<String>>)
    ensures
        texts_in(text::strings(items@)) == (match out {
            Some(list) => Some(text::strings(list@)),
            None => None,
        }),
{
    let ghost views = text::strings(items@);
    let mut list: Vec<String> = Vec::new();
    let mut i: usize = 0;
    assert(views.subrange(0, 0) =~= Seq::<Seq<char>>::empty());
    assert(text::strings(list@) =~= Seq::<Seq<char>>::empty());
    while i < items.len()
        invariant
            i <= items@.len(),
            views == text::strings(items@),
            texts_in(views.subrange(0, i as int)) == Some(text::strings(list@)),
        decreases items@.len() - i,
    {
        let ghost before = list@;
        assert(views.subrange(0, i + 1).drop_last() =~= views.subrange(0, i as int));
        assert(views.subrange(0, i + 1).last() == items@[i as int]@);
        match text_value(json::read_json(items[i].as_str())) {
            Some(text) => {
                list.push(text);
                assert(text::strings(list@) =~= text::strings(before).push(text@));
            },
            None => {
                proof {
                    lemma_texts_fail(views, i + 1);
                }
                return None;
            },
        }
        i += 1;
    }
    assert(views.subrange(0, i as int) =~= views);
    Some(list)
}

/// Parses `process.run` arguments as `[cmd, args]`. `None` means another shape, not a failure to
/// spawn.
pub fn process_run_args(arguments: &Vec<String>) -> (run: Option<(String, Vec<String>)>)
    ensures
        run_view(run) == run_args(text::strings(arguments@)),
{
    let ghost views = text::strings(arguments@);
    if arguments.len() < 2 {
        return None;
    }
    assert(views[0] == arguments@[0]@ && views[1] == arguments@[1]@);
    let cmd = match text_value(json::read_json(arguments[0].as_str())) {
        Some(cmd) => cmd,
        None => return None,
    };
    let items = match list_value(json::read_json(arguments[1].as_str())) {
        Some(items) => items,
        None => return None,
    };
    match all_texts(&items) {
        Some(args) => Some((cmd, args)),
        None => None,
    }
}

/// What a `process` command asks for.
#[derive(Debug, PartialEq, Eq)]
pub enum ProcessStep {
    /// Spawn with piped output and register the child, or answer that it exited if it did not spawn.
    Run { cmd: String, args: Vec<String> },
    /// Spawn with no entry, no handle and no callbacks: a detached program is not the shell's to
    /// reap, and a renderer replacement leaves it alone.
    Detach { cmd: String, args: Vec<String> },
    /// Kill the child under the command's key, if there is one.
    Kill,
    /// Answer that the child exited: the handle's callback already waits, and no process will.
    AnswerExited,
    /// Nothing waits for an answer.
    Ignore,
}

/// Routes `run`, `detach` and `kill`.
pub fn dispatch(action: &str, arguments: &Vec<String>) -> (step: ProcessStep)
    ensures
        if action@ == "run"@ {
            match run_args(text::strings(arguments@)) {
                Some(run) => step matches ProcessStep::Run { cmd, args } && cmd@ == run.cmd && text::strings(args@)
                    == run.args,
                None => step is AnswerExited,
            }
        } else if action@ == "detach"@ {
            match run_args(text::strings(arguments@)) {
                Some(run) => step matches ProcessStep::Detach { cmd, args } && cmd@ == run.cmd && text::strings(
                    args@,
                ) == run.args,
                None => step is Ignore,
            }
        } else if action@ == "kill"@ {
            step is Kill
        } else {
            step is Ignore
        },
{
    if text::same(action, "run") {
        match process_run_args(arguments) {
            Some((cmd, args)) => ProcessStep::Run { cmd, args },
            None => ProcessStep::AnswerExited,
        }
    } else if text::same(action, "detach") {
        match process_run_args(arguments) {
            Some((cmd, args)) => ProcessStep::Detach { cmd, args },
            None => ProcessStep::Ignore,
        }
    } else if text::same(action, "kill") {
        ProcessStep::Kill
    } else {
        ProcessStep::Ignore
    }
}

/// Registers a child that spawned; the answer where none did.
pub fn spawn_and_register_process<T>(
    processes: &mut LiveProcesses<T>,
    generation_id: u32,
    id: u64,
    spawned: Option<T>,
) -> (answer: Option<ProcessExited>)
    requires
        old(processes).wf(),
    ensures
        final(processes).wf(),
        match spawned {
            Some(child) => answer is None && final(processes).child(generation_id, id) == Some(child) && (forall|
                g: u32,
                k: u64,
            |
                g != generation_id || k != id ==> #[trigger] final(processes).child(g, k) == old(processes).child(
                    g,
                    k,
                )),
            None => answer == Some(ProcessExited { id, code: None }) && *final(processes) == *old(processes),
        },
{
    match spawned {
        Some(child) => {
            processes.insert(generation_id, id, child);
            None
        },
        None => Some(ProcessExited { id, code: None }),
    }
}

/// The answer to a child's end: a kill's reap or a wait. `None` where the status could not be had, so
/// that the callback is still answered.
pub fn exit_answer(id: u64, status: Result<Option<i32>, String>) -> (exited: ProcessExited)
    ensures
        exited.id == id,
        exited.code == (match status {
            Ok(code) => code,
            Err(_) => None,
        }),
{
    let code = match status {
        Ok(code) => code,
        Err(_) => None,
    };
    ProcessExited { id, code }
}

/// The name a stream's truncation warning gives it.
pub open spec fn stream_name(id: u64, generation_id: u32, stream: ProcessStream) -> Seq<char> {
    "process "@ + text::decimal(id as nat) + " (generation "@ + text::decimal(generation_id as nat) + ") "@ + (
    match stream {
        ProcessStream::Stdout => "stdout"@,
        ProcessStream::Stderr => "stderr"@,
    })
}

pub fn stream_label(id: u64, generation_id: u32, stream: ProcessStream) -> (label: String)
    ensures
        label@ == stream_name(id, generation_id, stream),
{
    let process = text::decimal_of(id);
    let generation = text::decimal_of(generation_id as u64);
    let start = "process ".to_owned().concat(process.as_str()).concat(" (generation ").concat(
        generation.as_str(),
    ).concat(") ");
    match stream {
        ProcessStream::Stdout => start.concat("stdout"),
        ProcessStream::Stderr => start.concat("stderr"),
    }
}

/// Handles one read of a stream: the frame for a line, and whether the stream is done, at its end or
/// at an error.
pub fn report_process_output_line(
    id: u64,
    stream: ProcessStream,
    line: Result<Option<String>, String>,
) -> (report: (Option<ProcessOutputLine>, bool))
    ensures
        match line {
            Ok(Some(line)) => report.0 == Some(ProcessOutputLine { id, stream, line }) && !report.1,
            Ok(None) | Err(_) => report.0 is None && report.1,
        },
{
    match line {
        Ok(Some(line)) => (Some(ProcessOutputLine { id, stream, line }), false),
        Ok(None) => (None, true),
        Err(_) => (None, true),
    }
}

// ---- laws ----

/// A child is found under its own key, and under no other.
pub proof fn a_child_is_found_by_its_key<T>(entries: Seq<(u32, u64, T)>, i: int, generation_id: u32, id: u64)
    requires
        forall|j: int, k: int|
            0 <= j < k < entries.len() ==> (#[trigger] entries[j]).0 != (#[trigger] entries[k]).0 || entries[j].1
                != entries[k].1,
    ensures
        0 <= i < entries.len() ==> child_from(entries, entries[i].0, entries[i].1, 0) == Some(entries[i].2),
        child_from(entries, generation_id, id, 0) is Some <==> exists|j: int|
            0 <= j < entries.len() && (#[trigger] entries[j]).0 == generation_id && entries[j].1 == id,
{
    if 0 <= i < entries.len() {
        lemma_child_is(entries, i);
    }
    let at = lemma_child_place(entries, generation_id, id, 0);
    lemma_child_at(entries, generation_id, id, 0, at);
    if at < entries.len() {
        assert(entries[at].0 == generation_id && entries[at].1 == id);
    }
}

/// A sweep of one generation takes that generation's children and no others; a sweep of all takes
/// every one.
pub proof fn a_sweep_takes_one_generation_or_all(swept: u32, generation_id: u32)
    ensures
        covers(Some(swept), generation_id) <==> swept == generation_id,
        covers(None, generation_id),
{
}

proof fn lemma_texts_in(items: Seq<Seq<char>>)
    ensures
        match texts_in(items) {
            Some(texts) => texts.len() == items.len() && forall|i: int|
                0 <= i < items.len() ==> json::json_level(#[trigger] items[i]) == Some(
                    json::JsonView::Text(texts[i]),
                ),
            None => exists|i: int|
                0 <= i < items.len() && !(json::json_level(#[trigger] items[i]) matches Some(json::JsonView::Text(_))),
        },
    decreases items.len(),
{
    if items.len() > 0 {
        let before = items.drop_last();
        let n = items.len() - 1;
        lemma_texts_in(before);
        assert(items[n] == items.last());
        assert forall|i: int| 0 <= i < n implies before[i] == #[trigger] items[i] by {}
        if texts_in(before) is None {
            let i = choose|i: int|
                0 <= i < before.len() && !(json::json_level(#[trigger] before[i]) matches Some(json::JsonView::Text(_)));
            assert(!(json::json_level(items[i]) matches Some(json::JsonView::Text(_))));
        }
    }
}

/// A process is run from a text and a list of texts, all of them and in order, and from nothing else.
pub proof fn a_run_is_a_command_and_its_arguments(arguments: Seq<Seq<char>>, items: Seq<Seq<char>>)
    ensures
        match run_args(arguments) {
            Some(run) => {
                &&& arguments.len() >= 2
                &&& json::json_level(arguments[0]) == Some(json::JsonView::Text(run.cmd))
                &&& json::json_level(arguments[1]) matches Some(json::JsonView::List(list)) && run.args.len()
                    == list.len() && forall|i: int|
                    0 <= i < list.len() ==> json::json_level(#[trigger] list[i]) == Some(
                        json::JsonView::Text(run.args[i]),
                    )
            },
            None => arguments.len() < 2 || !(json::json_level(arguments[0]) matches Some(json::JsonView::Text(_)))
                || !(json::json_level(arguments[1]) matches Some(json::JsonView::List(_))) || (json::json_level(
                arguments[1],
            ) == Some(json::JsonView::List(items)) ==> exists|i: int|
                0 <= i < items.len() && !(json::json_level(#[trigger] items[i]) matches Some(json::JsonView::Text(_)))),
        },
{
    if arguments.len() >= 2 {
        if let Some(json::JsonView::List(list)) = json::json_level(arguments[1]) {
            lemma_texts_in(list);
        }
    }
}

/// A stream's reader is named after its process, its generation and the stream.
pub proof fn a_stream_is_named_after_its_process(id: u64, generation_id: u32)
    ensures
        stream_name(id, generation_id, ProcessStream::Stdout) == "process "@ + text::decimal(id as nat)
            + " (generation "@ + text::decimal(generation_id as nat) + ") "@ + "stdout"@,
        stream_name(id, generation_id, ProcessStream::Stderr) == "process "@ + text::decimal(id as nat)
            + " (generation "@ + text::decimal(generation_id as nat) + ") "@ + "stderr"@,
{
}

} // verus!
