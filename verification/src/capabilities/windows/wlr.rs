//! The fallback for compositors without an IPC of their own: toplevels as
//! `zwlr_foreign_toplevel_management_v1` reports them.
//!
//! Events add up until the protocol says that a batch is complete. A toplevel's id is its place in
//! the order of creation.

use vstd::prelude::*;

use super::controller::WindowEntry;
use crate::text;

verus! {

/// What the protocol reports of one toplevel. An output is named by a number of the caller's.
#[derive(Debug, PartialEq, Eq)]
pub enum ToplevelEvent {
    Title { title: String },
    AppId { app_id: String },
    OutputEnter { output: u64 },
    OutputLeave { output: u64 },
    /// The states the toplevel has, as the protocol numbers them.
    State { flags: Vec<u32> },
    /// The batch is complete.
    Done,
    Closed,
}

/// The protocol's numbers for the states of a toplevel.
pub const MAXIMIZED: u32 = 0;

pub const MINIMIZED: u32 = 1;

pub const ACTIVATED: u32 = 2;

pub const FULLSCREEN: u32 = 3;

/// What an event leaves to do.
#[derive(Debug, PartialEq)]
pub enum AfterEvent {
    /// Nothing yet: the batch goes on, or the toplevel is not known.
    Nothing,
    /// Publish these windows.
    Publish(Vec<WindowEntry>),
    /// Destroy the toplevel's handle and publish what is left.
    DestroyAndPublish(Vec<WindowEntry>),
}

/// One toplevel: its window, and the outputs it sits on, oldest first.
#[derive(Debug)]
pub struct Toplevel {
    pub id: u64,
    pub window: WindowEntry,
    pub entered: Vec<u64>,
}

/// Every toplevel of the connection.
#[derive(Debug)]
pub struct ThreadState {
    outputs: Vec<(u64, String)>,
    rows: Vec<Toplevel>,
    next_id: u64,
}

pub struct ToplevelView {
    pub id: u64,
    pub window: super::controller::WindowView,
    pub entered: Seq<u64>,
}

pub struct ThreadView {
    /// The outputs' names, a later one for the same output counting.
    pub outputs: Seq<(u64, Seq<char>)>,
    /// The toplevels by ascending id.
    pub rows: Seq<ToplevelView>,
    pub next_id: u64,
}

impl View for Toplevel {
    type V = ToplevelView;

    open spec fn view(&self) -> ToplevelView {
        ToplevelView { id: self.id, window: self.window@, entered: self.entered@ }
    }
}

pub open spec fn toplevels(rows: Seq<Toplevel>) -> Seq<ToplevelView> {
    Seq::new(rows.len(), |i: int| rows[i]@)
}

pub open spec fn output_list(list: Seq<(u64, String)>) -> Seq<(u64, Seq<char>)> {
    Seq::new(list.len(), |i: int| (list[i].0, list[i].1@))
}

impl View for ThreadState {
    type V = ThreadView;

    closed spec fn view(&self) -> ThreadView {
        ThreadView {
            outputs: output_list(self.outputs@),
            rows: toplevels(self.rows@),
            next_id: self.next_id,
        }
    }
}

/// The name an output announced last.
pub open spec fn output_name(outputs: Seq<(u64, Seq<char>)>, output: u64) -> Option<Seq<char>>
    decreases outputs.len(),
{
    if outputs.len() == 0 {
        None
    } else if outputs.last().0 == output {
        Some(outputs.last().1)
    } else {
        output_name(outputs.drop_last(), output)
    }
}

/// The outputs entered and not left.
pub open spec fn without_output(entered: Seq<u64>, output: u64) -> Seq<u64>
    decreases entered.len(),
{
    if entered.len() == 0 {
        entered
    } else if entered.last() == output {
        without_output(entered.drop_last(), output)
    } else {
        without_output(entered.drop_last(), output).push(entered.last())
    }
}

/// A toplevel as it comes into being.
pub open spec fn fresh(id: u64) -> ToplevelView {
    ToplevelView {
        id,
        window: super::controller::WindowView {
            id: text::decimal(id as nat),
            title: Seq::empty(),
            app_id: Seq::empty(),
            workspace_id: None,
            output: None,
            focused: false,
            floating: None,
            fullscreen: Some(false),
            minimized: Some(false),
            maximized: Some(false),
        },
        entered: Seq::empty(),
    }
}

/// What an event makes of its toplevel.
pub open spec fn after_event(
    row: ToplevelView,
    outputs: Seq<(u64, Seq<char>)>,
    event: ToplevelEvent,
) -> ToplevelView {
    match event {
        ToplevelEvent::Title { title } => ToplevelView {
            window: super::controller::WindowView { title: title@, ..row.window },
            ..row
        },
        ToplevelEvent::AppId { app_id } => ToplevelView {
            window: super::controller::WindowView { app_id: app_id@, ..row.window },
            ..row
        },
        // The first output wins: a window names one connector, not a list.
        ToplevelEvent::OutputEnter { output } => ToplevelView {
            entered: row.entered.push(output),
            window: super::controller::WindowView {
                output: match row.window.output {
                    Some(name) => Some(name),
                    None => output_name(outputs, output),
                },
                ..row.window
            },
            ..row
        },
        ToplevelEvent::OutputLeave { output } => {
            let entered = without_output(row.entered, output);
            ToplevelView {
                entered,
                window: super::controller::WindowView {
                    output: if entered.len() > 0 {
                        output_name(outputs, entered[0])
                    } else {
                        None
                    },
                    ..row.window
                },
                ..row
            }
        },
        ToplevelEvent::State { flags } => ToplevelView {
            window: super::controller::WindowView {
                focused: flags@.contains(ACTIVATED),
                maximized: Some(flags@.contains(MAXIMIZED)),
                minimized: Some(flags@.contains(MINIMIZED)),
                fullscreen: Some(flags@.contains(FULLSCREEN)),
                ..row.window
            },
            ..row
        },
        ToplevelEvent::Done | ToplevelEvent::Closed => row,
    }
}

/// The toplevel with an id, from `from` on.
pub open spec fn row_from(rows: Seq<ToplevelView>, id: u64, from: int) -> Option<int>
    decreases rows.len() - from,
{
    if from < 0 || from >= rows.len() {
        None
    } else if rows[from].id == id {
        Some(from)
    } else {
        row_from(rows, id, from + 1)
    }
}

/// What an event makes of the connection's toplevels. An event for a toplevel that is not known
/// does nothing.
pub open spec fn next(state: ThreadView, id: u64, event: ToplevelEvent) -> ThreadView {
    match row_from(state.rows, id, 0) {
        None => state,
        Some(at) => ThreadView {
            rows: if event is Closed {
                state.rows.remove(at)
            } else {
                state.rows.update(at, after_event(state.rows[at], state.outputs, event))
            },
            ..state
        },
    }
}

/// The windows of the toplevels, by ascending id.
pub open spec fn windows_of(rows: Seq<ToplevelView>) -> Seq<super::controller::WindowView> {
    Seq::new(rows.len(), |i: int| rows[i].window)
}

impl ThreadView {
    /// Ids ascend, and the next one is above them all.
    pub open spec fn wf(self) -> bool {
        &&& forall|i: int, j: int| 0 <= i < j < self.rows.len() ==> (#[trigger] self.rows[i]).id < (#[trigger] self.rows[j]).id
        &&& forall|i: int| 0 <= i < self.rows.len() ==> (#[trigger] self.rows[i]).id < self.next_id
    }
}

fn copy_window(window: &WindowEntry) -> (copy: WindowEntry)
    ensures
        copy@ == window@,
{
    WindowEntry {
        id: window.id.clone(),
        title: window.title.clone(),
        app_id: window.app_id.clone(),
        workspace_id: window.workspace_id,
        output: match &window.output {
            Some(name) => Some(name.clone()),
            None => None,
        },
        focused: window.focused,
        floating: window.floating,
        fullscreen: window.fullscreen,
        minimized: window.minimized,
        maximized: window.maximized,
    }
}

fn has(flags: &Vec<u32>, wanted: u32) -> (found: bool)
    ensures
        found == flags@.contains(wanted),
{
    let mut i: usize = 0;
    while i < flags.len()
        invariant
            i <= flags@.len(),
            forall|j: int| 0 <= j < i ==> flags@[j] != wanted,
        decreases flags@.len() - i,
    {
        if flags[i] == wanted {
            return true;
        }
        i += 1;
    }
    false
}

impl ThreadState {
    pub fn new() -> (state: Self)
        ensures
            state@.wf(),
            state@.rows.len() == 0,
            state@.outputs.len() == 0,
            state@.next_id == 0,
    {
        ThreadState { outputs: Vec::new(), rows: Vec::new(), next_id: 0 }
    }

    /// An output told its name.
    pub fn output_named(&mut self, output: u64, name: String)
        ensures
            final(self)@ == (ThreadView { outputs: old(self)@.outputs.push((output, name@)), ..old(self)@ }),
    {
        let ghost before = self.outputs@;
        self.outputs.push((output, name));
        assert(output_list(self.outputs@) =~= output_list(before).push((output, name@)));
    }

    fn named(&self, output: u64) -> (name: Option<String>)
        ensures
            text::optional(name) == output_name(self@.outputs, output),
    {
        let mut i: usize = self.outputs.len();
        assert(self@.outputs.subrange(0, i as int) =~= self@.outputs);
        while i > 0
            invariant
                i <= self.outputs@.len(),
                output_name(self@.outputs.subrange(0, i as int), output) == output_name(self@.outputs, output),
            decreases i,
        {
            assert(self@.outputs.subrange(0, i as int).drop_last() =~= self@.outputs.subrange(0, i - 1));
            if self.outputs[i - 1].0 == output {
                return Some(self.outputs[i - 1].1.clone());
            }
            i -= 1;
        }
        None
    }

    /// A toplevel came into being; its id.
    pub fn toplevel(&mut self) -> (id: u64)
        requires
            old(self)@.next_id < u64::MAX,
        ensures
            id == old(self)@.next_id,
            final(self)@ == (ThreadView {
                rows: old(self)@.rows.push(fresh(id)),
                next_id: (id + 1) as u64,
                ..old(self)@
            }),
            old(self)@.wf() ==> final(self)@.wf(),
    {
        let id: u64 = self.next_id;
        let row = Toplevel {
            id,
            window: WindowEntry {
                id: text::decimal_of(id),
                title: String::new(),
                app_id: String::new(),
                workspace_id: None,
                output: None,
                focused: false,
                floating: None,
                fullscreen: Some(false),
                minimized: Some(false),
                maximized: Some(false),
            },
            entered: Vec::new(),
        };
        assert(row.entered@ =~= Seq::<u64>::empty());
        let ghost before = self.rows@;
        self.rows.push(row);
        self.next_id = id + 1;
        assert(toplevels(self.rows@) =~= toplevels(before).push(fresh(id)));
        id
    }

    fn windows(&self) -> (windows: Vec<WindowEntry>)
        ensures
            super::controller::entries(windows@) == windows_of(self@.rows),
    {
        let mut windows: Vec<WindowEntry> = Vec::new();
        let mut i: usize = 0;
        while i < self.rows.len()
            invariant
                i <= self.rows@.len(),
                windows@.len() == i,
                forall|j: int| 0 <= j < i ==> (#[trigger] windows@[j])@ == self.rows@[j].window@,
            decreases self.rows@.len() - i,
        {
            windows.push(copy_window(&self.rows[i].window));
            i += 1;
        }
        assert(super::controller::entries(windows@) =~= windows_of(self@.rows));
        windows
    }

    fn position(&self, id: u64) -> (at: Option<usize>)
        ensures
            match at {
                Some(at) => row_from(self@.rows, id, 0) == Some(at as int) && at < self.rows@.len(),
                None => row_from(self@.rows, id, 0) is None,
            },
    {
        let mut i: usize = 0;
        while i < self.rows.len()
            invariant
                i <= self.rows@.len(),
                row_from(self@.rows, id, i as int) == row_from(self@.rows, id, 0),
            decreases self.rows@.len() - i,
        {
            if self.rows[i].id == id {
                return Some(i);
            }
            i += 1;
        }
        None
    }

    /// Takes in one event of a toplevel.
    pub fn event(&mut self, id: u64, event: ToplevelEvent) -> (after: AfterEvent)
        ensures
            final(self)@ == next(old(self)@, id, event),
            match after {
                AfterEvent::Nothing => row_from(old(self)@.rows, id, 0) is None || !(event is Done || event is Closed),
                AfterEvent::Publish(windows) => row_from(old(self)@.rows, id, 0) is Some && event is Done
                    && super::controller::entries(windows@) == windows_of(final(self)@.rows),
                AfterEvent::DestroyAndPublish(windows) => row_from(old(self)@.rows, id, 0) is Some && event is Closed
                    && super::controller::entries(windows@) == windows_of(final(self)@.rows),
            },
    {
        let at: usize = match self.position(id) {
            Some(at) => at,
            None => return AfterEvent::Nothing,
        };
        let ghost rows = self.rows@;
        proof {
            lemma_row_from(self@.rows, id, 0);
        }
        if matches!(event, ToplevelEvent::Closed) {
            self.rows.remove(at);
            assert(toplevels(self.rows@) =~= toplevels(rows).remove(at as int));
            return AfterEvent::DestroyAndPublish(self.windows());
        }
        if matches!(event, ToplevelEvent::Done) {
            assert(toplevels(rows).update(at as int, toplevels(rows)[at as int]) =~= toplevels(rows));
            return AfterEvent::Publish(self.windows());
        }
        let mut row = self.rows.remove(at);
        let ghost seen = row@;
        match event {
            ToplevelEvent::Title { title } => {
                row.window.title = title;
            },
            ToplevelEvent::AppId { app_id } => {
                row.window.app_id = app_id;
            },
            ToplevelEvent::OutputEnter { output } => {
                row.entered.push(output);
                if row.window.output.is_none() {
                    row.window.output = self.named(output);
                }
            },
            ToplevelEvent::OutputLeave { output } => {
                row.entered = leave(&row.entered, output);
                row.window.output = if row.entered.len() > 0 {
                    self.named(row.entered[0])
                } else {
                    None
                };
            },
            ToplevelEvent::State { flags } => {
                row.window.focused = has(&flags, ACTIVATED);
                row.window.maximized = Some(has(&flags, MAXIMIZED));
                row.window.minimized = Some(has(&flags, MINIMIZED));
                row.window.fullscreen = Some(has(&flags, FULLSCREEN));
            },
            ToplevelEvent::Done | ToplevelEvent::Closed => {},
        }
        assert(row@ == after_event(seen, old(self)@.outputs, event));
        self.rows.insert(at, row);
        assert(toplevels(self.rows@) =~= toplevels(rows).update(at as int, row@));
        AfterEvent::Nothing
    }
}

fn leave(entered: &Vec<u64>, output: u64) -> (left: Vec<u64>)
    ensures
        left@ == without_output(entered@, output),
{
    let mut left: Vec<u64> = Vec::new();
    let mut i: usize = 0;
    assert(entered@.subrange(0, 0) =~= Seq::<u64>::empty());
    while i < entered.len()
        invariant
            i <= entered@.len(),
            left@ == without_output(entered@.subrange(0, i as int), output),
        decreases entered@.len() - i,
    {
        assert(entered@.subrange(0, i + 1).drop_last() =~= entered@.subrange(0, i as int));
        if entered[i] != output {
            left.push(entered[i]);
        }
        i += 1;
    }
    assert(entered@.subrange(0, i as int) =~= entered@);
    left
}

proof fn lemma_row_from(rows: Seq<ToplevelView>, id: u64, from: int)
    requires
        0 <= from,
    ensures
        row_from(rows, id, from) matches Some(at) ==> from <= at < rows.len() && rows[at].id == id,
        row_from(rows, id, from) is None ==> forall|i: int| from <= i < rows.len() ==> (#[trigger] rows[i]).id != id,
    decreases rows.len() - from,
{
    if from < rows.len() && rows[from].id != id {
        lemma_row_from(rows, id, from + 1);
    }
}

// ---- laws ----

/// Every event keeps the toplevels' ids ascending and below the next one, so no id is ever used
/// again.
pub proof fn ids_stay_unique(state: ThreadView, id: u64, event: ToplevelEvent)
    requires
        state.wf(),
    ensures
        next(state, id, event).wf(),
        next(state, id, event).next_id == state.next_id,
{
    lemma_row_from(state.rows, id, 0);
}

/// A closed toplevel is gone, and the others are as they were.
pub proof fn a_closed_toplevel_is_gone(state: ThreadView, id: u64, other: int)
    requires
        state.wf(),
        row_from(state.rows, id, 0) is Some,
        0 <= other < state.rows.len(),
        state.rows[other].id != id,
    ensures
        row_from(next(state, id, ToplevelEvent::Closed).rows, id, 0) is None,
        next(state, id, ToplevelEvent::Closed).rows.contains(state.rows[other]),
{
    lemma_row_from(state.rows, id, 0);
    let at = row_from(state.rows, id, 0)->0;
    let after = next(state, id, ToplevelEvent::Closed);
    ids_stay_unique(state, id, ToplevelEvent::Closed);
    lemma_row_from(after.rows, id, 0);
    if row_from(after.rows, id, 0) is Some {
        let k = row_from(after.rows, id, 0)->0;
        if k < at {
            assert(after.rows[k] == state.rows[k]);
        } else {
            assert(after.rows[k] == state.rows[k + 1]);
        }
    }
    if other < at {
        assert(after.rows[other] == state.rows[other]);
    } else {
        assert(after.rows[other - 1] == state.rows[other]);
    }
}

/// An output goes by the name it was given last, and by none where it was given none.
pub proof fn an_output_goes_by_its_last_name(outputs: Seq<(u64, Seq<char>)>, output: u64, i: int)
    ensures
        (forall|j: int| 0 <= j < outputs.len() ==> (#[trigger] outputs[j]).0 != output) ==> output_name(outputs, output)
            is None,
        0 <= i < outputs.len() && outputs[i].0 == output && (forall|j: int|
            i < j < outputs.len() ==> (#[trigger] outputs[j]).0 != output) ==> output_name(outputs, output) == Some(
            outputs[i].1,
        ),
    decreases outputs.len(),
{
    if outputs.len() > 0 {
        an_output_goes_by_its_last_name(outputs.drop_last(), output, i);
        assert(forall|j: int| 0 <= j < outputs.len() - 1 ==> outputs.drop_last()[j] == #[trigger] outputs[j]);
        assert(outputs.last() == outputs[outputs.len() - 1]);
    }
}

/// A window that left an output keeps all others that it entered, in their order. Returns where they
/// stand.
pub proof fn a_left_output_alone_is_forgotten(entered: Seq<u64>, output: u64) -> (at: Seq<int>)
    ensures
        at.len() == without_output(entered, output).len(),
        forall|i: int| 0 <= i < at.len() ==> 0 <= #[trigger] at[i] < entered.len() && (entered[at[i]] != output),
        forall|i: int| 0 <= i < at.len() ==> (without_output(entered, output)[i] == entered[#[trigger] at[i]]),
        forall|i: int, j: int| 0 <= i < j < at.len() ==> #[trigger] at[i] < #[trigger] at[j],
        forall|p: int| 0 <= p < entered.len() && ((#[trigger] entered[p]) != output) ==> at.contains(p),
    decreases entered.len(),
{
    if entered.len() == 0 {
        Seq::empty()
    } else {
        let shorter = entered.drop_last();
        let n = entered.len() - 1;
        let before = a_left_output_alone_is_forgotten(entered.drop_last(), output);
        assert forall|p: int| 0 <= p < n implies shorter[p] == #[trigger] entered[p] by {}
        if entered.last() != output {
            let at = before.push(n);
            assert forall|p: int| 0 <= p < entered.len() && ((#[trigger] entered[p]) != output) implies at.contains(p) by {
                if p < n {
                    assert(shorter[p] == entered[p]);
                    let k = choose|k: int| 0 <= k < before.len() && before[k] == p;
                    assert(at[k] == p);
                } else {
                    assert(at[before.len() as int] == p);
                }
            }
            at
        } else {
            assert forall|p: int| 0 <= p < entered.len() && ((#[trigger] entered[p]) != output) implies before.contains(
                p,
            ) by {
                assert(p < n);
                assert(shorter[p] == entered[p]);
            }
            before
        }
    }
}

/// A new window goes by its number, is on no output and neither focused, fullscreen, minimized nor
/// maximized; whether it floats is not known.
pub proof fn a_new_window_is_nowhere_yet(id: u64)
    ensures
        fresh(id).id == id,
        text::parse_unsigned(fresh(id).window.id, u64::MAX as nat) == Some(id as nat),
        fresh(id).window.title.len() == 0 && fresh(id).window.app_id.len() == 0 && fresh(id).entered.len() == 0,
        fresh(id).window.workspace_id is None && fresh(id).window.output is None && fresh(id).window.floating is None,
        !fresh(id).window.focused,
        fresh(id).window.fullscreen == Some(false),
        fresh(id).window.minimized == Some(false),
        fresh(id).window.maximized == Some(false),
{
    text::a_number_reads_back(id as nat, u64::MAX as nat);
}

/// Each event changes what it tells of and nothing else: a title, an id of an application, an output
/// entered or left, or the four flags, of which the protocol numbers maximized 0, minimized 1,
/// activated 2 and fullscreen 3.
pub proof fn an_event_changes_what_it_tells(row: ToplevelView, outputs: Seq<(u64, Seq<char>)>, event: ToplevelEvent)
    ensures
        after_event(row, outputs, event).id == row.id,
        after_event(row, outputs, event).window.id == row.window.id,
        after_event(row, outputs, event).window.workspace_id == row.window.workspace_id,
        after_event(row, outputs, event).window.floating == row.window.floating,
        event matches ToplevelEvent::Title { title } ==> after_event(row, outputs, event).window.title == title@,
        !(event is Title) ==> after_event(row, outputs, event).window.title == row.window.title,
        event matches ToplevelEvent::AppId { app_id } ==> after_event(row, outputs, event).window.app_id == app_id@,
        !(event is AppId) ==> after_event(row, outputs, event).window.app_id == row.window.app_id,
        event matches ToplevelEvent::State { flags } ==> {
            let window = after_event(row, outputs, event).window;
            &&& window.maximized == Some(flags@.contains(0u32))
            &&& window.minimized == Some(flags@.contains(1u32))
            &&& window.focused == flags@.contains(2u32)
            &&& window.fullscreen == Some(flags@.contains(3u32))
        },
        !(event is State) ==> {
            let window = after_event(row, outputs, event).window;
            &&& window.maximized == row.window.maximized
            &&& window.minimized == row.window.minimized
            &&& window.focused == row.window.focused
            &&& window.fullscreen == row.window.fullscreen
        },
        !(event is OutputEnter || event is OutputLeave) ==> after_event(row, outputs, event).entered == row.entered
            && after_event(row, outputs, event).window.output == row.window.output,
{
}

/// A window shows the output that it entered first of those it is still on: entering another changes
/// nothing while it shows one, and leaving all leaves it with none.
pub proof fn the_first_output_is_shown(row: ToplevelView, outputs: Seq<(u64, Seq<char>)>, output: u64, other: u64)
    ensures
        row.window.output is Some ==> after_event(row, outputs, ToplevelEvent::OutputEnter { output }).window.output
            == row.window.output,
        row.window.output is None ==> after_event(row, outputs, ToplevelEvent::OutputEnter { output }).window.output
            == output_name(outputs, output),
        after_event(row, outputs, ToplevelEvent::OutputEnter { output }).entered == row.entered + seq![output],
        !after_event(row, outputs, ToplevelEvent::OutputLeave { output }).entered.contains(output),
        row.entered.contains(other) && other != output ==> after_event(
            row,
            outputs,
            ToplevelEvent::OutputLeave { output },
        ).entered.contains(other),
        row.entered.len() > 0 && row.entered[0] != output ==> after_event(
            row,
            outputs,
            ToplevelEvent::OutputLeave { output },
        ).window.output == output_name(outputs, row.entered[0]),
        (forall|j: int| 0 <= j < row.entered.len() ==> #[trigger] row.entered[j] == output) ==> after_event(
            row,
            outputs,
            ToplevelEvent::OutputLeave { output },
        ).window.output is None,
{
    assert(row.entered.push(output) =~= row.entered + seq![output]);
    let left = without_output(row.entered, output);
    let at = a_left_output_alone_is_forgotten(row.entered, output);
    if row.entered.contains(other) && other != output {
        let p = choose|p: int| 0 <= p < row.entered.len() && row.entered[p] == other;
        assert(at.contains(p));
        let k = choose|k: int| 0 <= k < at.len() && at[k] == p;
        assert(left[k] == row.entered[at[k]]);
    }
    if row.entered.len() > 0 && row.entered[0] != output {
        assert(at.contains(0));
        let k = choose|k: int| 0 <= k < at.len() && at[k] == 0;
        if k > 0 {
            assert(at[0] < at[k]);
        }
        assert(left[0] == row.entered[at[0]]);
    }
    if forall|j: int| 0 <= j < row.entered.len() ==> #[trigger] row.entered[j] == output {
        if left.len() > 0 {
            assert(row.entered[at[0]] != output);
        }
    }
    if left.contains(output) {
        let k = choose|k: int| 0 <= k < left.len() && left[k] == output;
        assert(row.entered[at[k]] != output);
    }
}

/// An event concerns the one window with its id: the others and the outputs stay as they were, a
/// closed one is gone and every other one keeps its place. One for an unknown id changes nothing.
pub proof fn an_event_concerns_one_window(state: ThreadView, at: int, id: u64, event: ToplevelEvent)
    requires
        state.wf(),
    ensures
        (forall|j: int| 0 <= j < state.rows.len() ==> (#[trigger] state.rows[j]).id != id) ==> next(state, id, event)
            == state && row_from(state.rows, id, 0) is None,
        next(state, id, event).outputs == state.outputs,
        next(state, id, event).next_id == state.next_id,
        0 <= at < state.rows.len() && state.rows[at].id == id ==> {
            let rows = next(state, id, event).rows;
            &&& row_from(state.rows, id, 0) is Some
            &&& event is Closed ==> rows == state.rows.take(at) + state.rows.skip(at + 1)
            &&& !(event is Closed) ==> rows == state.rows.take(at) + seq![
                after_event(state.rows[at], state.outputs, event),
            ] + state.rows.skip(at + 1)
        },
{
    lemma_row_found(state.rows, id, 0);
    if 0 <= at < state.rows.len() && state.rows[at].id == id {
        let found = row_from(state.rows, id, 0)->Some_0;
        if found < at {
            assert(state.rows[found].id < state.rows[at].id);
        } else if at < found {
            assert(state.rows[at].id < state.rows[found].id);
        }
        assert(state.rows.remove(at) =~= state.rows.take(at) + state.rows.skip(at + 1));
        let row = after_event(state.rows[at], state.outputs, event);
        assert(state.rows.update(at, row) =~= state.rows.take(at) + seq![row] + state.rows.skip(at + 1));
    }
}

proof fn lemma_row_found(rows: Seq<ToplevelView>, id: u64, from: int)
    requires
        0 <= from <= rows.len(),
    ensures
        match row_from(rows, id, from) {
            Some(at) => from <= at < rows.len() && rows[at].id == id,
            None => forall|j: int| from <= j < rows.len() ==> (#[trigger] rows[j]).id != id,
        },
    decreases rows.len() - from,
{
    if from < rows.len() && rows[from].id != id {
        lemma_row_found(rows, id, from + 1);
    }
}

/// What is published is every window, in the order of the rows.
pub proof fn every_window_is_published(rows: Seq<ToplevelView>, i: int)
    ensures
        windows_of(rows).len() == rows.len(),
        0 <= i < rows.len() ==> windows_of(rows)[i] == rows[i].window,
{
}

} // verus!
