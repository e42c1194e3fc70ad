//! `mantle.windows`: the payload, its order, and what each action asks of the compositor.

use vstd::prelude::*;

use crate::capabilities::lifecycle::CompositorKind;
use crate::text;

verus! {

/// `mantle.windows`' payload.
#[derive(Debug, Clone, Default, PartialEq)]
pub struct WindowsState {
    /// `"niri"`, `"hyprland"`, or `"wlr_foreign_toplevel"`.
    pub source: String,
    /// Sorted by `workspace_id`, then backend order; windows without one last.
    pub windows: Vec<WindowEntry>,
}

/// One toplevel window. Empty optional fields are ones the backend does not report.
#[derive(Debug, Clone, PartialEq)]
pub struct WindowEntry {
    /// Opaque, backend-shaped id for `:invoke`; compare it, never parse it.
    pub id: String,
    /// Window title; empty when unset.
    pub title: String,
    /// Wayland `app_id` (Hyprland's `class`); empty when unset.
    pub app_id: String,
    /// The workspace's id; empty on wlr and on Hyprland special workspaces.
    pub workspace_id: Option<u64>,
    /// Connector name; empty when unknown. On wlr, the first output the window entered.
    pub output: Option<String>,
    /// Whether the window has keyboard focus.
    pub focused: bool,
    /// Whether the window floats rather than tiles; empty on wlr.
    pub floating: Option<bool>,
    /// Whether the window is fullscreen; empty on niri.
    pub fullscreen: Option<bool>,
    /// Whether the window is minimized; empty except on wlr.
    pub minimized: Option<bool>,
    /// Whether the window is maximized; empty on niri.
    pub maximized: Option<bool>,
}

/// Shared signal, `Changed` only.
#[derive(Debug, Clone, Copy, PartialEq, Eq, Structural)]
pub enum WindowsSignal {
    Changed,
}

/// What a [`WindowEntry`] says.
pub struct WindowView {
    pub id: Seq<char>,
    pub title: Seq<char>,
    pub app_id: Seq<char>,
    pub workspace_id: Option<u64>,
    pub output: Option<Seq<char>>,
    pub focused: bool,
    pub floating: Option<bool>,
    pub fullscreen: Option<bool>,
    pub minimized: Option<bool>,
    pub maximized: Option<bool>,
}

pub struct WindowsView {
    pub source: Seq<char>,
    pub windows: Seq<WindowView>,
}

impl View for WindowEntry {
    type V = WindowView;

    open spec fn view(&self) -> WindowView {
        WindowView {
            id: self.id@,
            title: self.title@,
            app_id: self.app_id@,
            workspace_id: self.workspace_id,
            output: text::optional(self.output),
            focused: self.focused,
            floating: self.floating,
            fullscreen: self.fullscreen,
            minimized: self.minimized,
            maximized: self.maximized,
        }
    }
}

pub open spec fn entries(list: Seq<WindowEntry>) -> Seq<WindowView> {
    Seq::new(list.len(), |i: int| list[i]@)
}

impl View for WindowsState {
    type V = WindowsView;

    open spec fn view(&self) -> WindowsView {
        WindowsView { source: self.source@, windows: entries(self.windows@) }
    }
}

// ---- order ----

/// What windows are ordered by: the workspace, and those without one last.
pub open spec fn workspace_key(window: WindowEntry) -> int {
    match window.workspace_id {
        Some(id) => id as int,
        None => u64::MAX + 1,
    }
}

/// `list` with `window` behind the last one that does not belong after it.
pub open spec fn placed(list: Seq<WindowEntry>, window: WindowEntry) -> Seq<WindowEntry>
    decreases list.len(),
{
    if list.len() == 0 || workspace_key(list.last()) <= workspace_key(window) {
        list.push(window)
    } else {
        placed(list.drop_last(), window).push(list.last())
    }
}

/// The windows by workspace, each workspace's own in the order they came.
pub open spec fn by_workspace(list: Seq<WindowEntry>) -> Seq<WindowEntry>
    decreases list.len(),
{
    if list.len() == 0 {
        list
    } else {
        placed(by_workspace(list.drop_last()), list.last())
    }
}

/// The windows of one key, in order.
pub open spec fn of_key(list: Seq<WindowEntry>, key: int) -> Seq<WindowEntry>
    decreases list.len(),
{
    if list.len() == 0 {
        list
    } else if workspace_key(list.last()) == key {
        of_key(list.drop_last(), key).push(list.last())
    } else {
        of_key(list.drop_last(), key)
    }
}

pub open spec fn ordered(list: Seq<WindowEntry>) -> bool {
    forall|i: int, j: int|
        0 <= i < j < list.len() ==> workspace_key(#[trigger] list[i]) <= workspace_key(#[trigger] list[j])
}

proof fn lemma_placed(list: Seq<WindowEntry>, window: WindowEntry, key: int)
    requires
        ordered(list),
    ensures
        ordered(placed(list, window)),
        placed(list, window).len() == list.len() + 1,
        forall|i: int|
            0 <= i <= list.len() ==> (#[trigger] placed(list, window)[i] == window || list.contains(
                placed(list, window)[i],
            )),
        of_key(placed(list, window), key) == (if workspace_key(window) == key {
            of_key(list, key).push(window)
        } else {
            of_key(list, key)
        }),
    decreases list.len(),
{
    if list.len() == 0 || workspace_key(list.last()) <= workspace_key(window) {
        assert(placed(list, window).drop_last() =~= list);
        assert forall|i: int| 0 <= i <= list.len() implies (#[trigger] placed(list, window)[i] == window
            || list.contains(placed(list, window)[i])) by {
            if i < list.len() {
                assert(list[i] == placed(list, window)[i]);
            }
        }
        assert forall|i: int, j: int| 0 <= i < j < placed(list, window).len() implies workspace_key(
            #[trigger] placed(list, window)[i],
        ) <= workspace_key(#[trigger] placed(list, window)[j]) by {
            if j == list.len() {
                assert(list.last() == list[list.len() - 1]);
            }
        }
    } else {
        let shorter = list.drop_last();
        assert(ordered(shorter)) by {
            assert forall|i: int, j: int| 0 <= i < j < shorter.len() implies workspace_key(#[trigger] shorter[i])
                <= workspace_key(#[trigger] shorter[j]) by {
                assert(workspace_key(list[i]) <= workspace_key(list[j]));
            }
        }
        lemma_placed(shorter, window, key);
        let inner = placed(shorter, window);
        assert(placed(list, window).drop_last() =~= inner);
        assert forall|i: int| 0 <= i < inner.len() implies workspace_key(#[trigger] inner[i]) <= workspace_key(
            list.last(),
        ) by {
            if inner[i] != window {
                let at = choose|k: int| 0 <= k < shorter.len() && shorter[k] == inner[i];
                assert(workspace_key(list[at]) <= workspace_key(list[list.len() - 1]));
            }
        }
        assert forall|i: int| 0 <= i <= list.len() implies (#[trigger] placed(list, window)[i] == window
            || list.contains(placed(list, window)[i])) by {
            if i < inner.len() {
                if inner[i] != window {
                    let at = choose|k: int| 0 <= k < shorter.len() && shorter[k] == inner[i];
                    assert(list[at] == inner[i]);
                }
            } else {
                assert(list[list.len() - 1] == placed(list, window)[i]);
            }
        }
    }
}

/// The order is by workspace, and keeps each workspace's windows all and in the order they came.
pub proof fn windows_are_ordered_and_stay_in_backend_order(list: Seq<WindowEntry>, key: int)
    ensures
        ordered(by_workspace(list)),
        by_workspace(list).len() == list.len(),
        of_key(by_workspace(list), key) == of_key(list, key),
    decreases list.len(),
{
    if list.len() > 0 {
        windows_are_ordered_and_stay_in_backend_order(list.drop_last(), key);
        lemma_placed(by_workspace(list.drop_last()), list.last(), key);
    }
}

fn key_of(window: &WindowEntry) -> (key: u128)
    ensures
        key == workspace_key(*window),
{
    match window.workspace_id {
        Some(id) => id as u128,
        None => u64::MAX as u128 + 1,
    }
}

fn place(list: &mut Vec<WindowEntry>, window: WindowEntry)
    ensures
        final(list)@ == placed(old(list)@, window),
{
    let ghost before = list@;
    let key: u128 = key_of(&window);
    let mut at: usize = list.len();
    assert(before.subrange(0, at as int) =~= before);
    assert(placed(before, window) + Seq::<WindowEntry>::empty() =~= placed(before, window));
    assert(before.subrange(at as int, before.len() as int) =~= Seq::<WindowEntry>::empty());
    while at > 0 && key_of(&list[at - 1]) > key
        invariant
            at <= before.len(),
            list@ == before,
            key == workspace_key(window),
            placed(before, window) == placed(before.subrange(0, at as int), window) + before.subrange(
                at as int,
                before.len() as int,
            ),
        decreases at,
    {
        proof {
            let head = before.subrange(0, at as int);
            assert(head.drop_last() =~= before.subrange(0, at - 1));
            assert(placed(head, window) == placed(before.subrange(0, at - 1), window).push(before[at - 1]));
            assert(placed(before.subrange(0, at - 1), window).push(before[at - 1]) + before.subrange(
                at as int,
                before.len() as int,
            ) =~= placed(before.subrange(0, at - 1), window) + before.subrange(at - 1, before.len() as int));
        }
        at -= 1;
    }
    list.insert(at, window);
    assert(list@ =~= before.subrange(0, at as int).push(window) + before.subrange(at as int, before.len() as int));
}

/// Sorts by workspace, keeping the order of equals.
pub fn sort_by_workspace(windows: Vec<WindowEntry>) -> (sorted: Vec<WindowEntry>)
    ensures
        sorted@ == by_workspace(windows@),
{
    let ghost all = windows@;
    let mut rest = windows;
    let mut sorted: Vec<WindowEntry> = Vec::new();
    let ghost mut done: int = 0;
    assert(all.subrange(0, 0) =~= Seq::<WindowEntry>::empty());
    assert(all.subrange(0, all.len() as int) =~= all);
    while rest.len() > 0
        invariant
            0 <= done <= all.len(),
            rest@ == all.subrange(done, all.len() as int),
            sorted@ == by_workspace(all.subrange(0, done)),
        decreases rest@.len(),
    {
        let window = rest.remove(0);
        place(&mut sorted, window);
        proof {
            assert(all.subrange(0, done + 1).drop_last() =~= all.subrange(0, done));
            assert(rest@ =~= all.subrange(done + 1, all.len() as int));
            done = done + 1;
        }
    }
    assert(all.subrange(0, done) =~= all);
    sorted
}

// ---- publishing ----

fn same_optional(a: &Option<String>, b: &Option<String>) -> (same: bool)
    ensures
        same == (text::optional(*a) == text::optional(*b)),
{
    match (a, b) {
        (Some(a), Some(b)) => text::same(a.as_str(), b.as_str()),
        (None, None) => true,
        _ => false,
    }
}

fn same_flag(a: Option<bool>, b: Option<bool>) -> (same: bool)
    ensures
        same == (a == b),
{
    match (a, b) {
        (Some(a), Some(b)) => a == b,
        (None, None) => true,
        _ => false,
    }
}

fn same_number(a: Option<u64>, b: Option<u64>) -> (same: bool)
    ensures
        same == (a == b),
{
    match (a, b) {
        (Some(a), Some(b)) => a == b,
        (None, None) => true,
        _ => false,
    }
}

fn same_window(a: &WindowEntry, b: &WindowEntry) -> (same: bool)
    ensures
        same == (a@ == b@),
{
    text::same(a.id.as_str(), b.id.as_str()) && text::same(a.title.as_str(), b.title.as_str()) && text::same(
        a.app_id.as_str(),
        b.app_id.as_str(),
    ) && same_number(a.workspace_id, b.workspace_id) && same_optional(&a.output, &b.output) && a.focused == b.focused
        && same_flag(a.floating, b.floating) && same_flag(a.fullscreen, b.fullscreen) && same_flag(
        a.minimized,
        b.minimized,
    ) && same_flag(a.maximized, b.maximized)
}

/// Whether two payloads say the same.
pub fn same_windows(a: &WindowsState, b: &WindowsState) -> (same: bool)
    ensures
        same == (a@ == b@),
{
    if !text::same(a.source.as_str(), b.source.as_str()) {
        return false;
    }
    if a.windows.len() != b.windows.len() {
        assert(a@.windows.len() != b@.windows.len());
        return false;
    }
    let mut i: usize = 0;
    while i < a.windows.len()
        invariant
            i <= a.windows@.len(),
            a.windows@.len() == b.windows@.len(),
            forall|j: int| 0 <= j < i ==> #[trigger] a@.windows[j] == b@.windows[j],
        decreases a.windows@.len() - i,
    {
        if !same_window(&a.windows[i], &b.windows[i]) {
            assert(a@.windows[i as int] != b@.windows[i as int]);
            return false;
        }
        i += 1;
    }
    assert(a@.windows =~= b@.windows);
    true
}

/// Reduces what a backend reports, drops equal updates and stores the rest.
#[derive(Debug)]
pub struct StatePublisher {
    state: WindowsState,
    source: String,
}

impl StatePublisher {
    pub closed spec fn state(self) -> WindowsState {
        self.state
    }

    pub closed spec fn source(self) -> Seq<char> {
        self.source@
    }

    pub fn new(state: WindowsState, source: &str) -> (publisher: Self)
        ensures
            publisher.state() == state,
            publisher.source() == source@,
    {
        StatePublisher { state, source: source.to_owned() }
    }

    /// Stores the windows, sorted. Whether that changed anything: an event that changes nothing
    /// wakes nobody.
    pub fn publish(&mut self, windows: Vec<WindowEntry>) -> (changed: bool)
        ensures
            final(self).source() == old(self).source(),
            final(self).state()@ == (WindowsView {
                source: old(self).source(),
                windows: entries(by_workspace(windows@)),
            }),
            changed == (final(self).state()@ != old(self).state()@),
    {
        let current = WindowsState { source: self.source.clone(), windows: sort_by_workspace(windows) };
        if same_windows(&self.state, &current) {
            return false;
        }
        self.state = current;
        true
    }

    pub fn snapshot(&self) -> (state: &WindowsState)
        ensures
            *state == self.state(),
    {
        &self.state
    }
}

/// Whether a reader goes on after a publish: nobody listening shows only when there was something
/// to say.
pub fn keeps_reading(changed: bool, listening: bool) -> (goes_on: bool)
    ensures
        goes_on == (!changed || listening),
{
    !changed || listening
}

// ---- actions ----

/// Who answers for the windows of this session.
#[derive(Debug, Clone, Copy, PartialEq, Eq, Structural)]
pub enum Backend {
    /// The compositor's own IPC, shared with `workspaces`.
    Ipc(CompositorKind),
    /// `zwlr_foreign_toplevel_manager_v1` on a connection of its own.
    Wlr,
    Absent,
}

/// What to ask of the compositor for a window.
#[derive(Debug, Clone, Copy, PartialEq, Eq, Structural)]
pub enum WindowRequest {
    NiriFocus,
    NiriClose,
    HyprlandFocus,
    HyprlandClose,
    HyprlandToggleFullscreen,
    HyprlandToggleMaximized,
    WlrActivate,
    WlrClose,
    WlrFullscreen(bool),
    WlrMinimized(bool),
    WlrMaximized(bool),
}

/// A request and the window it is for.
#[derive(Debug, PartialEq, Eq)]
pub struct WindowCommand {
    pub id: String,
    pub request: WindowRequest,
}

/// What a [`WindowCommand`] says.
pub struct CommandView {
    pub id: Seq<char>,
    pub request: WindowRequest,
}

impl View for WindowCommand {
    type V = CommandView;

    open spec fn view(&self) -> CommandView {
        CommandView { id: self.id@, request: self.request }
    }
}

/// A request made for a window; nothing where the backend has no such concept, or the window is as
/// asked already.
pub open spec fn made_for(request: Option<WindowRequest>, id: Seq<char>) -> Option<CommandView> {
    match request {
        Some(request) => Some(CommandView { id, request }),
        None => None,
    }
}

pub open spec fn command_view(command: Option<WindowCommand>) -> Option<CommandView> {
    match command {
        Some(command) => Some(command@),
        None => None,
    }
}

fn command_for(request: Option<WindowRequest>, id: &str) -> (command: Option<WindowCommand>)
    ensures
        command_view(command) == made_for(request, id@),
{
    match request {
        Some(request) => Some(WindowCommand { id: id.to_owned(), request }),
        None => None,
    }
}

pub open spec fn focus_request(backend: Backend) -> Option<WindowRequest> {
    match backend {
        Backend::Ipc(CompositorKind::Niri) => Some(WindowRequest::NiriFocus),
        Backend::Ipc(CompositorKind::Hyprland) => Some(WindowRequest::HyprlandFocus),
        Backend::Wlr => Some(WindowRequest::WlrActivate),
        Backend::Absent => None,
    }
}

pub open spec fn close_request(backend: Backend) -> Option<WindowRequest> {
    match backend {
        Backend::Ipc(CompositorKind::Niri) => Some(WindowRequest::NiriClose),
        Backend::Ipc(CompositorKind::Hyprland) => Some(WindowRequest::HyprlandClose),
        Backend::Wlr => Some(WindowRequest::WlrClose),
        Backend::Absent => None,
    }
}

/// The first window with an id, from `from` on.
pub open spec fn window_from(windows: Seq<WindowEntry>, id: Seq<char>, from: int) -> Option<WindowEntry>
    decreases windows.len() - from,
{
    if from < 0 || from >= windows.len() {
        None
    } else if windows[from].id@ == id {
        Some(windows[from])
    } else {
        window_from(windows, id, from + 1)
    }
}

pub open spec fn flag_or_off(flag: Option<bool>) -> bool {
    flag == Some(true)
}

/// Whether the window is fullscreen, as far as is known.
pub open spec fn known_fullscreen(state: WindowsState, id: Seq<char>) -> bool {
    match window_from(state.windows@, id, 0) {
        Some(window) => flag_or_off(window.fullscreen),
        None => false,
    }
}

pub open spec fn known_maximized(state: WindowsState, id: Seq<char>) -> bool {
    match window_from(state.windows@, id, 0) {
        Some(window) => flag_or_off(window.maximized),
        None => false,
    }
}

/// niri only toggles and never reports the state, so a toggle could undo the request; Hyprland only
/// toggles too, so it is asked only where its answer differs.
pub open spec fn fullscreen_request(
    backend: Backend,
    state: WindowsState,
    id: Seq<char>,
    fullscreen: bool,
) -> Option<WindowRequest> {
    match backend {
        Backend::Ipc(CompositorKind::Hyprland) => if known_fullscreen(state, id) != fullscreen {
            Some(WindowRequest::HyprlandToggleFullscreen)
        } else {
            None
        },
        Backend::Wlr => Some(WindowRequest::WlrFullscreen(fullscreen)),
        _ => None,
    }
}

pub open spec fn maximized_request(
    backend: Backend,
    state: WindowsState,
    id: Seq<char>,
    maximized: bool,
) -> Option<WindowRequest> {
    match backend {
        Backend::Ipc(CompositorKind::Hyprland) => if known_maximized(state, id) != maximized {
            Some(WindowRequest::HyprlandToggleMaximized)
        } else {
            None
        },
        Backend::Wlr => Some(WindowRequest::WlrMaximized(maximized)),
        _ => None,
    }
}

pub open spec fn minimized_request(backend: Backend, minimized: bool) -> Option<WindowRequest> {
    match backend {
        Backend::Wlr => Some(WindowRequest::WlrMinimized(minimized)),
        _ => None,
    }
}

/// A flag a window is asked to have.
#[derive(Debug, Clone, Copy, PartialEq, Eq, Structural)]
pub enum WindowFlag {
    Fullscreen,
    Maximized,
}

#[derive(Debug)]
pub struct WindowsController {
    state: WindowsState,
    backend: Backend,
}

impl WindowsController {
    pub closed spec fn state(self) -> WindowsState {
        self.state
    }

    pub closed spec fn backend(self) -> Backend {
        self.backend
    }

    /// A controller over what the shared reader knows, and whether to signal at once: a reader that
    /// was already running wrote before this controller could catch its signal.
    pub fn new(state: WindowsState, backend: Backend) -> (out: (Self, bool))
        ensures
            out.0.state() == state,
            out.0.backend() == backend,
            out.1 == (state@.source.len() > 0 || state@.windows.len() > 0),
    {
        let populated = !state.source.as_str().is_empty() || state.windows.len() > 0;
        (WindowsController { state, backend }, populated)
    }

    pub fn snapshot(&self) -> (state: &WindowsState)
        ensures
            *state == self.state(),
    {
        &self.state
    }

    /// Takes in what the reader stored.
    pub fn update(&mut self, state: WindowsState)
        ensures
            final(self).state() == state,
            final(self).backend() == old(self).backend(),
    {
        self.state = state;
    }

    /// Whether the last known value of the flag disagrees with `desired`.
    pub fn differs(&self, id: &str, flag: WindowFlag, desired: bool) -> (differs: bool)
        ensures
            differs == (desired != (match flag {
                WindowFlag::Fullscreen => known_fullscreen(self.state(), id@),
                WindowFlag::Maximized => known_maximized(self.state(), id@),
            })),
    {
        let mut i: usize = 0;
        while i < self.state.windows.len()
            invariant
                i <= self.state.windows@.len(),
                window_from(self.state.windows@, id@, i as int) == window_from(self.state.windows@, id@, 0),
            decreases self.state.windows@.len() - i,
        {
            let window = &self.state.windows[i];
            if text::same(window.id.as_str(), id) {
                let known = match flag {
                    WindowFlag::Fullscreen => window.fullscreen,
                    WindowFlag::Maximized => window.maximized,
                };
                let on = match known {
                    Some(on) => on,
                    None => false,
                };
                return on != desired;
            }
            i += 1;
        }
        desired
    }

    pub fn focus(&self, id: &str) -> (command: Option<WindowCommand>)
        ensures
            command_view(command) == made_for(focus_request(self.backend()), id@),
    {
        let request = match self.backend {
            Backend::Ipc(CompositorKind::Niri) => Some(WindowRequest::NiriFocus),
            Backend::Ipc(CompositorKind::Hyprland) => Some(WindowRequest::HyprlandFocus),
            Backend::Wlr => Some(WindowRequest::WlrActivate),
            Backend::Absent => None,
        };
        command_for(request, id)
    }

    pub fn close(&self, id: &str) -> (command: Option<WindowCommand>)
        ensures
            command_view(command) == made_for(close_request(self.backend()), id@),
    {
        let request = match self.backend {
            Backend::Ipc(CompositorKind::Niri) => Some(WindowRequest::NiriClose),
            Backend::Ipc(CompositorKind::Hyprland) => Some(WindowRequest::HyprlandClose),
            Backend::Wlr => Some(WindowRequest::WlrClose),
            Backend::Absent => None,
        };
        command_for(request, id)
    }

    pub fn set_fullscreen(&self, id: &str, fullscreen: bool) -> (command: Option<WindowCommand>)
        ensures
            command_view(command) == made_for(fullscreen_request(self.backend(), self.state(), id@, fullscreen), id@),
    {
        let request = match self.backend {
            Backend::Ipc(CompositorKind::Hyprland) => {
                if self.differs(id, WindowFlag::Fullscreen, fullscreen) {
                    Some(WindowRequest::HyprlandToggleFullscreen)
                } else {
                    None
                }
            },
            Backend::Wlr => Some(WindowRequest::WlrFullscreen(fullscreen)),
            _ => None,
        };
        command_for(request, id)
    }

    pub fn set_minimized(&self, id: &str, minimized: bool) -> (command: Option<WindowCommand>)
        ensures
            command_view(command) == made_for(minimized_request(self.backend(), minimized), id@),
    {
        let request = match self.backend {
            Backend::Wlr => Some(WindowRequest::WlrMinimized(minimized)),
            _ => None,
        };
        command_for(request, id)
    }

    pub fn set_maximized(&self, id: &str, maximized: bool) -> (command: Option<WindowCommand>)
        ensures
            command_view(command) == made_for(maximized_request(self.backend(), self.state(), id@, maximized), id@),
    {
        let request = match self.backend {
            Backend::Ipc(CompositorKind::Hyprland) => {
                if self.differs(id, WindowFlag::Maximized, maximized) {
                    Some(WindowRequest::HyprlandToggleMaximized)
                } else {
                    None
                }
            },
            Backend::Wlr => Some(WindowRequest::WlrMaximized(maximized)),
            _ => None,
        };
        command_for(request, id)
    }
}

// ---- laws ----

/// The first window with an id is the one that counts.
proof fn lemma_window_from(windows: Seq<WindowEntry>, id: Seq<char>, from: int, at: int)
    requires
        0 <= from <= at <= windows.len(),
        forall|j: int| from <= j < at ==> (#[trigger] windows[j]).id@ != id,
        at < windows.len() ==> windows[at].id@ == id,
    ensures
        window_from(windows, id, from) == (if at < windows.len() {
            Some(windows[at])
        } else {
            None
        }),
    decreases at - from,
{
    if from < at {
        assert(windows[from].id@ != id);
        lemma_window_from(windows, id, from + 1, at);
    }
}

/// Hyprland only toggles, so a toggle is sent exactly where the window's last known flag is not the
/// one asked for: the known flag, flipped where a toggle is sent, is what was asked for. `at` is the
/// place of the first window with the id; a window that is not known, or whose flag is not, counts as
/// off.
pub proof fn a_toggle_brings_the_flag_that_was_asked_for(
    state: WindowsState,
    id: Seq<char>,
    at: int,
    asked: bool,
)
    requires
        0 <= at <= state.windows@.len(),
        forall|j: int| 0 <= j < at ==> (#[trigger] state.windows@[j]).id@ != id,
        at < state.windows@.len() ==> state.windows@[at].id@ == id,
    ensures
        ({
            let known = at < state.windows@.len() && state.windows@[at].maximized == Some(true);
            let toggled = maximized_request(Backend::Ipc(CompositorKind::Hyprland), state, id, asked);
            &&& (known != (toggled is Some)) == asked
            &&& toggled matches Some(request) ==> request == WindowRequest::HyprlandToggleMaximized
        }),
        ({
            let known = at < state.windows@.len() && state.windows@[at].fullscreen == Some(true);
            let toggled = fullscreen_request(Backend::Ipc(CompositorKind::Hyprland), state, id, asked);
            &&& (known != (toggled is Some)) == asked
            &&& toggled matches Some(request) ==> request == WindowRequest::HyprlandToggleFullscreen
        }),
{
    lemma_window_from(state.windows@, id, 0, at);
}

/// A backend that can be told a flag is told the one asked for, whatever is known; niri, which only
/// toggles and reports nothing, is asked for none, and a session without windows for nothing.
pub proof fn a_flag_is_told_where_it_can_be(state: WindowsState, id: Seq<char>, asked: bool)
    ensures
        fullscreen_request(Backend::Wlr, state, id, asked) == Some(WindowRequest::WlrFullscreen(asked)),
        maximized_request(Backend::Wlr, state, id, asked) == Some(WindowRequest::WlrMaximized(asked)),
        minimized_request(Backend::Wlr, asked) == Some(WindowRequest::WlrMinimized(asked)),
        fullscreen_request(Backend::Ipc(CompositorKind::Niri), state, id, asked) is None,
        maximized_request(Backend::Ipc(CompositorKind::Niri), state, id, asked) is None,
        minimized_request(Backend::Ipc(CompositorKind::Niri), asked) is None,
        minimized_request(Backend::Ipc(CompositorKind::Hyprland), asked) is None,
        fullscreen_request(Backend::Absent, state, id, asked) is None,
        maximized_request(Backend::Absent, state, id, asked) is None,
        minimized_request(Backend::Absent, asked) is None,
{
}

/// Every backend can focus and close a window, by a request of its own, and focusing is never
/// closing; a session without a backend asks for neither.
pub proof fn a_window_can_be_focused_and_closed(backend: Backend)
    ensures
        focus_request(Backend::Ipc(CompositorKind::Niri)) == Some(WindowRequest::NiriFocus),
        focus_request(Backend::Ipc(CompositorKind::Hyprland)) == Some(WindowRequest::HyprlandFocus),
        focus_request(Backend::Wlr) == Some(WindowRequest::WlrActivate),
        close_request(Backend::Ipc(CompositorKind::Niri)) == Some(WindowRequest::NiriClose),
        close_request(Backend::Ipc(CompositorKind::Hyprland)) == Some(WindowRequest::HyprlandClose),
        close_request(Backend::Wlr) == Some(WindowRequest::WlrClose),
        focus_request(backend) is None <==> backend == Backend::Absent,
        close_request(backend) is None <==> backend == Backend::Absent,
{
}

/// A command is one for the window it was asked for, with the request made of it, and there is one
/// exactly where there is a request.
pub proof fn a_command_is_for_its_window(request: Option<WindowRequest>, id: Seq<char>)
    ensures
        made_for(request, id) is Some <==> request is Some,
        made_for(request, id) matches Some(command) ==> command.id == id && request == Some(command.request),
{
}

} // verus!
