//! Lazy capability startup, signal routing, and command dispatch.
//!
//! [`Capabilities`] remembers which backends were built and decides what a start, a signal or a
//! command does; the program around it owns the controllers and does it.

use vstd::prelude::*;

use super::signals::Signal;
use super::Capability;

verus! {

/// A compositor whose IPC `workspaces` and `windows` share.
#[derive(Debug, Clone, Copy, PartialEq, Eq, Structural)]
pub enum CompositorKind {
    Niri,
    Hyprland,
}

/// Which backends exist.
#[derive(Debug)]
pub struct Capabilities {
    built: Vec<Capability>,
    reader_started: bool,
    compositor: Option<CompositorKind>,
}

#[verifier::ext_equal]
pub struct CapabilitiesView {
    /// The capabilities whose backend was built; `Audio` once the mixer runs.
    pub built: Set<Capability>,
    /// The compositor was looked for.
    pub reader_started: bool,
    /// The compositor that was found.
    pub compositor: Option<CompositorKind>,
}

/// What starting a capability takes, in this order.
#[derive(Debug, Clone, Copy, PartialEq, Eq, Structural)]
pub struct StartPlan {
    /// Start the mixer thread.
    pub start_mixer: bool,
    /// Look for the compositor and report it with [`Capabilities::compositor_detected`].
    pub detect_compositor: bool,
    /// Connect to the session bus first; without it the backend is built inert.
    pub session_bus: bool,
    /// Build the backend.
    pub build: bool,
    /// Build it in a worker of its own, because it waits on another service.
    pub in_worker: bool,
    /// Push its state: a backend that may never speak of itself.
    pub announce: bool,
}

/// Where a command goes.
#[derive(Debug, Clone, Copy, PartialEq, Eq, Structural)]
pub enum Route {
    /// Into the worker's queue, behind its earlier requests.
    Worker,
    /// To the controller.
    Controller,
    /// Nowhere: no config has read the member yet.
    Unstarted,
    /// To the lock controller, which exists from boot.
    Lock,
    /// Nowhere from here: its controller lives beside the state push its cancel needs.
    Elsewhere,
    /// Nowhere: the capability has no actions.
    ReadOnly,
}

/// What a departed generation asked for and nobody else would take back.
#[derive(Debug, Clone, Copy, PartialEq, Eq, Structural)]
pub struct Forgotten {
    pub stop_discovery: bool,
    pub cancel_connect: bool,
    pub forget_watches: bool,
}

/// Capabilities that wait on another service, so each runs in a worker.
pub open spec fn runs_in_worker(c: Capability) -> bool {
    c is Network || c is Bluetooth || c is Keyboard
}

/// Capabilities that are served on the session bus.
pub open spec fn wants_session_bus(c: Capability) -> bool {
    c is Tray || c is Notifications || c is Mpris || c is Idle
}

/// Capabilities that share the compositor's event stream.
pub open spec fn reads_compositor(c: Capability) -> bool {
    c is Workspaces || c is Windows
}

/// Capabilities whose backend the supervisor builds at boot, or whose start is the mixer's.
pub open spec fn built_elsewhere(c: Capability) -> bool {
    c is Lock || c is Polkit || c is Audio
}

pub open spec fn read_only(c: Capability) -> bool {
    c is Battery || c is Privacy || c is System
}

/// Whether starting `c` builds its backend: once, and for the network again after its worker
/// closed.
pub open spec fn builds(state: CapabilitiesView, c: Capability, worker_closed: bool) -> bool {
    !built_elsewhere(c) && (!state.built.contains(c) || c is Network && worker_closed)
}

pub open spec fn start_plan(state: CapabilitiesView, c: Capability, worker_closed: bool) -> StartPlan {
    let build = builds(state, c, worker_closed);
    StartPlan {
        start_mixer: (c is Audio || c is Privacy && build) && !state.built.contains(Capability::Audio),
        detect_compositor: build && reads_compositor(c) && !state.reader_started,
        session_bus: build && wants_session_bus(c),
        build,
        in_worker: build && runs_in_worker(c),
        announce: c is Idle || build && (c is Tray || c is Notifications || c is Mpris),
    }
}

pub open spec fn after_start(state: CapabilitiesView, c: Capability, worker_closed: bool) -> CapabilitiesView {
    let plan = start_plan(state, c, worker_closed);
    let with_mixer = if plan.start_mixer {
        state.built.insert(Capability::Audio)
    } else {
        state.built
    };
    CapabilitiesView {
        built: if plan.build {
            with_mixer.insert(c)
        } else {
            with_mixer
        },
        reader_started: state.reader_started || plan.detect_compositor,
        compositor: state.compositor,
    }
}

/// The capability whose state a signal pushes, if its state can be had.
pub open spec fn pushed(state: CapabilitiesView, signal: Signal) -> Option<Capability> {
    if signal.spec_carries_state() || state.built.contains(signal.spec_capability()) {
        Some(signal.spec_capability())
    } else {
        None
    }
}

pub open spec fn route(state: CapabilitiesView, c: Capability) -> Route {
    if c is Lock {
        Route::Lock
    } else if c is Polkit {
        Route::Elsewhere
    } else if read_only(c) {
        Route::ReadOnly
    } else if !state.built.contains(c) {
        Route::Unstarted
    } else if runs_in_worker(c) {
        Route::Worker
    } else {
        Route::Controller
    }
}

impl View for Capabilities {
    type V = CapabilitiesView;

    closed spec fn view(&self) -> CapabilitiesView {
        CapabilitiesView {
            built: self.built@.to_set(),
            reader_started: self.reader_started,
            compositor: self.compositor,
        }
    }
}

impl Capabilities {
    /// Nothing is built until a config reads a `mantle` member.
    pub fn new() -> (out: Self)
        ensures
            out@ == (CapabilitiesView { built: Set::empty(), reader_started: false, compositor: None }),
    {
        let out = Capabilities { built: Vec::new(), reader_started: false, compositor: None };
        assert(out.built@.to_set() =~= Set::<Capability>::empty());
        out
    }

    /// Whether the backend of `capability` was built.
    pub fn holds(&self, capability: Capability) -> (held: bool)
        ensures
            held == self@.built.contains(capability),
    {
        let mut i: usize = 0;
        while i < self.built.len()
            invariant
                i <= self.built@.len(),
                forall|j: int| 0 <= j < i ==> self.built@[j] != capability,
            decreases self.built@.len() - i,
        {
            if self.built[i] == capability {
                assert(self.built@.contains(capability));
                return true;
            }
            i += 1;
        }
        false
    }

    fn remember(&mut self, capability: Capability)
        ensures
            final(self)@ == (CapabilitiesView { built: old(self)@.built.insert(capability), ..old(self)@ }),
    {
        let ghost before = self.built@;
        self.built.push(capability);
        assert(self.built@.to_set() =~= before.to_set().insert(capability)) by {
            assert(self.built@[before.len() as int] == capability);
            assert forall|c: Capability| before.contains(c) implies self.built@.contains(c) by {
                let at = choose|k: int| 0 <= k < before.len() && before[k] == c;
                assert(self.built@[at] == c);
            }
        }
    }

    /// Starts `capability`: says what has to be done and counts it as done. Re-entrant across
    /// generation swaps: nothing is built twice, except a network worker that has closed.
    pub fn start(&mut self, capability: Capability, worker_closed: bool) -> (plan: StartPlan)
        ensures
            plan == start_plan(old(self)@, capability, worker_closed),
            final(self)@ == after_start(old(self)@, capability, worker_closed),
    {
        let elsewhere = matches!(capability, Capability::Lock | Capability::Polkit | Capability::Audio);
        let build = !elsewhere && (!self.holds(capability) || (matches!(capability, Capability::Network) && worker_closed));
        let wants_mixer = matches!(capability, Capability::Audio) || (matches!(capability, Capability::Privacy) && build);
        let start_mixer = wants_mixer && !self.holds(Capability::Audio);
        let detect_compositor = build && matches!(capability, Capability::Workspaces | Capability::Windows)
            && !self.reader_started;
        let on_bus = matches!(
            capability,
            Capability::Tray | Capability::Notifications | Capability::Mpris | Capability::Idle
        );
        let idle = matches!(capability, Capability::Idle);
        let in_worker = matches!(capability, Capability::Network | Capability::Bluetooth | Capability::Keyboard);
        if start_mixer {
            self.remember(Capability::Audio);
        }
        if build {
            self.remember(capability);
        }
        if detect_compositor {
            self.reader_started = true;
        }
        StartPlan {
            start_mixer,
            detect_compositor,
            session_bus: build && on_bus,
            build,
            in_worker: build && in_worker,
            announce: idle || (build && on_bus),
        }
    }

    /// Takes in what looking for the compositor found; whether to spawn its reader.
    pub fn compositor_detected(&mut self, compositor: Option<CompositorKind>) -> (spawn_reader: bool)
        ensures
            final(self)@ == (CapabilitiesView { compositor, ..old(self)@ }),
            spawn_reader == (compositor is Some),
    {
        self.compositor = compositor;
        compositor.is_some()
    }

    /// The compositor that `workspaces` and `windows` attach to.
    pub fn compositor(&self) -> (compositor: Option<CompositorKind>)
        ensures
            compositor == self@.compositor,
    {
        self.compositor
    }

    /// The capability whose state `signal` pushes. A signal without state of its own needs the
    /// controller that holds it.
    pub fn push(&self, signal: &Signal) -> (capability: Option<Capability>)
        ensures
            capability == pushed(self@, *signal),
    {
        let capability = signal.capability();
        if signal.carries_state() || self.holds(capability) {
            Some(capability)
        } else {
            None
        }
    }

    /// Routes a command to its module.
    pub fn dispatch(&self, capability: Capability) -> (to: Route)
        ensures
            to == route(self@, capability),
    {
        match capability {
            Capability::Lock => Route::Lock,
            Capability::Polkit => Route::Elsewhere,
            Capability::Battery | Capability::Privacy | Capability::System => Route::ReadOnly,
            _ => {
                if !self.holds(capability) {
                    Route::Unstarted
                } else {
                    match capability {
                        Capability::Network | Capability::Bluetooth | Capability::Keyboard => Route::Worker,
                        _ => Route::Controller,
                    }
                }
            },
        }
    }

    /// What to take back when a generation departs: its replacement starts with fresh state and
    /// would send none of it.
    pub fn forget_departed_requests(&self) -> (forgotten: Forgotten)
        ensures
            forgotten == (Forgotten {
                stop_discovery: self@.built.contains(Capability::Bluetooth),
                cancel_connect: self@.built.contains(Capability::Network),
                forget_watches: self@.built.contains(Capability::Files),
            }),
    {
        Forgotten {
            stop_discovery: self.holds(Capability::Bluetooth),
            cancel_connect: self.holds(Capability::Network),
            forget_watches: self.holds(Capability::Files),
        }
    }

    /// Whether a password for a join reaches the network worker, which pairs it with the intent it
    /// holds; a worker whose build failed is closed. One that reaches nothing is dropped.
    pub fn connect_prompted(&self, worker_closed: bool) -> (sent: bool)
        ensures
            sent == (self@.built.contains(Capability::Network) && !worker_closed),
    {
        self.holds(Capability::Network) && !worker_closed
    }

    /// Whether there are session processes to reap: a config has read `mantle.processes`.
    pub fn reap_sessions(&self) -> (reap: bool)
        ensures
            reap == self@.built.contains(Capability::Processes),
    {
        self.holds(Capability::Processes)
    }
}

// ---- laws ----

/// A plan that does nothing, or at most pushes the idle state again.
pub open spec fn does_nothing(plan: StartPlan) -> bool {
    !plan.start_mixer && !plan.detect_compositor && !plan.session_bus && !plan.build && !plan.in_worker
}

/// Starting a capability again does nothing, whatever else was started between, as long as its
/// worker has not closed.
pub proof fn a_second_start_builds_nothing(
    state: CapabilitiesView,
    c: Capability,
    closed: bool,
    between: Seq<(Capability, bool)>,
)
    ensures
        does_nothing(start_plan(after_starts(after_start(state, c, closed), between), c, false)),
        !(c is Idle) ==> !start_plan(after_starts(after_start(state, c, closed), between), c, false).announce,
{
    lemma_starts_only_add(after_start(state, c, closed), between);
}

/// What a series of starts leaves.
pub open spec fn after_starts(state: CapabilitiesView, starts: Seq<(Capability, bool)>) -> CapabilitiesView
    decreases starts.len(),
{
    if starts.len() == 0 {
        state
    } else {
        after_start(after_starts(state, starts.drop_last()), starts.last().0, starts.last().1)
    }
}

/// No start takes a backend away, and the compositor is looked for at most once.
pub proof fn lemma_starts_only_add(state: CapabilitiesView, starts: Seq<(Capability, bool)>)
    ensures
        state.built.subset_of(after_starts(state, starts).built),
        state.reader_started ==> after_starts(state, starts).reader_started,
    decreases starts.len(),
{
    if starts.len() > 0 {
        lemma_starts_only_add(state, starts.drop_last());
    }
}

/// `audio` and `privacy` share one mixer, whichever asks first.
pub proof fn the_mixer_starts_once(
    state: CapabilitiesView,
    first: Capability,
    first_closed: bool,
    between: Seq<(Capability, bool)>,
    later: Capability,
    later_closed: bool,
)
    requires
        start_plan(state, first, first_closed).start_mixer,
    ensures
        !start_plan(after_starts(after_start(state, first, first_closed), between), later, later_closed).start_mixer,
{
    lemma_starts_only_add(after_start(state, first, first_closed), between);
}

/// `workspaces` and `windows` share one reader, whichever starts first.
pub proof fn the_compositor_is_looked_for_once(
    state: CapabilitiesView,
    first: Capability,
    first_closed: bool,
    between: Seq<(Capability, bool)>,
    later: Capability,
    later_closed: bool,
)
    requires
        start_plan(state, first, first_closed).detect_compositor,
    ensures
        !start_plan(after_starts(after_start(state, first, first_closed), between), later, later_closed).detect_compositor,
{
    lemma_starts_only_add(after_start(state, first, first_closed), between);
}

/// A network worker that closed is built again by the next start.
pub proof fn a_closed_network_worker_is_rebuilt(state: CapabilitiesView)
    ensures
        start_plan(state, Capability::Network, true).build,
{
}

/// A command reaches a controller or a worker only after the capability was started.
pub proof fn a_command_reaches_only_what_was_started(state: CapabilitiesView, c: Capability)
    requires
        route(state, c) is Worker || route(state, c) is Controller,
    ensures
        state.built.contains(c),
{
}

/// A first start builds the capability's backend, unless it is one that exists from boot: in a worker
/// where it waits on another service, on the session bus where it is served there. The mixer starts
/// with what listens to it, and the compositor is looked for by what reads it.
pub proof fn a_first_start_builds_the_backend(state: CapabilitiesView, c: Capability, closed: bool)
    requires
        !state.built.contains(c),
    ensures
        ({
            let plan = start_plan(state, c, closed);
            let built = c != Capability::Lock && c != Capability::Polkit && c != Capability::Audio;
            &&& plan.build == built
            &&& plan.in_worker == (c == Capability::Network || c == Capability::Bluetooth || c == Capability::Keyboard)
            &&& plan.session_bus == (c == Capability::Tray || c == Capability::Notifications || c == Capability::Mpris
                || c == Capability::Idle)
            &&& plan.announce == plan.session_bus
            &&& plan.start_mixer == ((c == Capability::Audio || c == Capability::Privacy) && !state.built.contains(
                Capability::Audio,
            ))
            &&& plan.detect_compositor == ((c == Capability::Workspaces || c == Capability::Windows)
                && !state.reader_started)
        }),
{
}

/// A start adds the capability it built, and the mixer it started, to what there was, and nothing
/// else.
pub proof fn a_start_adds_what_it_built(state: CapabilitiesView, c: Capability, closed: bool, other: Capability)
    ensures
        ({
            let plan = start_plan(state, c, closed);
            let after = after_start(state, c, closed);
            &&& after.built.contains(other) <==> state.built.contains(other) || (plan.build && other == c) || (
            plan.start_mixer && other == Capability::Audio)
            &&& after.reader_started == (state.reader_started || plan.detect_compositor)
            &&& after.compositor == state.compositor
        }),
{
}

/// A signal pushes its own capability or nothing; one that brings its state is always pushed, another
/// exactly where its backend was built.
pub proof fn a_signal_pushes_its_own_capability(state: CapabilitiesView, signal: Signal)
    ensures
        pushed(state, signal) matches Some(c) ==> c == signal.spec_capability(),
        pushed(state, signal) is Some <==> signal is Audio || signal is Network || signal is Bluetooth
            || signal is Keyboard || signal is Idle || state.built.contains(signal.spec_capability()),
{
}

/// A command goes to the lock where it is for the lock, and otherwise to a backend that was built: its
/// worker, or its controller. What takes no commands gets none.
pub proof fn a_command_goes_where_it_can_be_carried_out(state: CapabilitiesView, c: Capability)
    ensures
        route(state, c) is Lock <==> c == Capability::Lock,
        route(state, c) is Elsewhere <==> c == Capability::Polkit,
        route(state, c) is ReadOnly <==> c == Capability::Battery || c == Capability::Privacy || c
            == Capability::System,
        state.built.contains(c) && (c == Capability::Network || c == Capability::Bluetooth || c
            == Capability::Keyboard) ==> route(state, c) is Worker,
        state.built.contains(c) && c != Capability::Network && c != Capability::Bluetooth && c != Capability::Keyboard
            && c != Capability::Lock && c != Capability::Polkit && c != Capability::Battery && c
            != Capability::Privacy && c != Capability::System ==> route(state, c) is Controller,
        !state.built.contains(c) ==> !(route(state, c) is Worker) && !(route(state, c) is Controller),
{
}

} // verus!
