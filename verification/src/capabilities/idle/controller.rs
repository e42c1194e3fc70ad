//! `mantle.idle`'s state owner: what is published, which thresholds wait, and who holds the lock.

use std::collections::HashMap;

use vstd::prelude::*;

use super::inhibit::{
    apply_inhibit, apply_release_inhibit, apply_screensaver_inhibit, apply_screensaver_release,
    cleanup_generation_inhibit, drop_screensaver_peer, screensaver_holds, total, InhibitState, SCREENSAVER_HOLDER,
};
use super::state::{copied, same_state, IdleInhibitor, IdleState, IdleView};

verus! {

// ---- what is published ----

/// The answers to "is anything holding the session awake", and the last payload built from them.
///
/// Different tasks watch logind, the compositor's silence and the session's clients. None may
/// publish a whole payload, which would erase what the others know: each sets its own field here and
/// takes back a payload to send, or `None` when nothing moved.
#[derive(Debug)]
pub struct PublishedIdle {
    logind_blocked: bool,
    logind_inhibitors: Vec<IdleInhibitor>,
    wayland_inhibited: bool,
    screensaver: Vec<IdleInhibitor>,
    last_sent: IdleState,
}

/// What a [`PublishedIdle`] knows.
pub struct PublishedView {
    pub logind_blocked: bool,
    pub logind: Seq<(Seq<char>, Seq<char>)>,
    pub wayland_inhibited: bool,
    pub screensaver: Seq<(Seq<char>, Seq<char>)>,
    pub last_sent: IdleView,
}

impl View for PublishedIdle {
    type V = PublishedView;

    closed spec fn view(&self) -> PublishedView {
        PublishedView {
            logind_blocked: self.logind_blocked,
            logind: super::state::named(self.logind_inhibitors@),
            wayland_inhibited: self.wayland_inhibited,
            screensaver: super::state::named(self.screensaver@),
            last_sent: self.last_sent@,
        }
    }
}

/// The compositor as an inhibitor. Nothing can name whoever it holds off idle for.
pub open spec fn compositor_entry() -> (Seq<char>, Seq<char>) {
    (Seq::empty(), "the compositor is holding off idle notifications"@)
}

/// The payload that says everything known.
pub open spec fn merge(known: PublishedView) -> IdleView {
    IdleView {
        inhibited: known.logind_blocked || known.wayland_inhibited || known.screensaver.len() > 0,
        inhibitors: if known.wayland_inhibited {
            (known.logind + known.screensaver).push(compositor_entry())
        } else {
            known.logind + known.screensaver
        },
    }
}

/// What is known once `merge` was sent.
pub open spec fn settled(known: PublishedView) -> PublishedView {
    PublishedView { last_sent: merge(known), ..known }
}

/// The payload to send: none when it says what the last one said.
pub open spec fn news(known: PublishedView) -> Option<IdleView> {
    if merge(known) == known.last_sent {
        None
    } else {
        Some(merge(known))
    }
}

pub open spec fn payload(state: Option<IdleState>) -> Option<IdleView> {
    match state {
        Some(state) => Some(state@),
        None => None,
    }
}

/// Nothing holds the session awake, and a payload that says so stands as sent.
pub open spec fn nothing_published() -> PublishedView {
    PublishedView {
        logind_blocked: false,
        logind: Seq::empty(),
        wayland_inhibited: false,
        screensaver: Seq::empty(),
        last_sent: IdleView { inhibited: false, inhibitors: Seq::empty() },
    }
}

impl Default for PublishedIdle {
    fn default() -> (published: Self)
        ensures
            published@ == nothing_published(),
    {
        let published = PublishedIdle {
            logind_blocked: false,
            logind_inhibitors: Vec::new(),
            wayland_inhibited: false,
            screensaver: Vec::new(),
            last_sent: IdleState::default(),
        };
        assert(published@.logind =~= Seq::empty());
        assert(published@.screensaver =~= Seq::empty());
        published
    }
}

impl PublishedIdle {
    /// The merged payload.
    pub fn merged(&self) -> (state: IdleState)
        ensures
            state@ == merge(self@),
    {
        let mut inhibitors = copied(&self.logind_inhibitors);
        let mut holds = copied(&self.screensaver);
        let some_hold = holds.len() > 0;
        inhibitors.append(&mut holds);
        assert(super::state::named(inhibitors@) =~= self@.logind + self@.screensaver);
        if self.wayland_inhibited {
            let ghost before = inhibitors@;
            inhibitors.push(
                IdleInhibitor {
                    who: String::new(),
                    why: "the compositor is holding off idle notifications".to_owned(),
                },
            );
            assert(super::state::named(inhibitors@) =~= super::state::named(before).push(compositor_entry()));
        }
        IdleState {
            inhibited: self.logind_blocked || self.wayland_inhibited || some_hold,
            inhibitors,
        }
    }

    /// Returns the payload to send, or `None` when the answer is unchanged.
    fn settle(&mut self) -> (next: Option<IdleState>)
        ensures
            payload(next) == news(old(self)@),
            final(self)@ == settled(old(self)@),
    {
        let next = self.merged();
        if same_state(&next, &self.last_sent) {
            return None;
        }
        self.last_sent = next.clone();
        Some(next)
    }

    /// `None` means the compositor gave no evidence this round, so the last answer stands.
    pub fn set_wayland_inhibited(&mut self, held: Option<bool>) -> (next: Option<IdleState>)
        ensures
            ({
                let known = PublishedView {
                    wayland_inhibited: match held {
                        Some(held) => held,
                        None => old(self)@.wayland_inhibited,
                    },
                    ..old(self)@
                };
                payload(next) == news(known) && final(self)@ == settled(known)
            }),
    {
        if let Some(held) = held {
            self.wayland_inhibited = held;
        }
        self.settle()
    }

    /// The roster of session clients that hold the session awake.
    pub fn set_screensaver(&mut self, holds: Vec<IdleInhibitor>) -> (next: Option<IdleState>)
        ensures
            ({
                let known = PublishedView { screensaver: super::state::named(holds@), ..old(self)@ };
                payload(next) == news(known) && final(self)@ == settled(known)
            }),
    {
        self.screensaver = holds;
        self.settle()
    }

    pub fn set_logind(&mut self, blocked: bool, inhibitors: Vec<IdleInhibitor>) -> (next: Option<IdleState>)
        ensures
            ({
                let known = PublishedView {
                    logind_blocked: blocked,
                    logind: super::state::named(inhibitors@),
                    ..old(self)@
                };
                payload(next) == news(known) && final(self)@ == settled(known)
            }),
    {
        self.logind_blocked = blocked;
        self.logind_inhibitors = inhibitors;
        self.settle()
    }
}

/// Without news the payload stays unsent, and what was sent is always what is known.
pub proof fn what_was_sent_is_what_is_known(known: PublishedView)
    ensures
        settled(known).last_sent == merge(settled(known)),
        news(settled(known)) is None,
{
}

/// No evidence keeps the compositor's last answer, and only an explicit one replaces it.
pub proof fn no_evidence_latches(known: PublishedView)
    ensures
        known.wayland_inhibited ==> merge(known).inhibited,
        !known.logind_blocked && known.screensaver.len() == 0 ==> !merge(
            PublishedView { wayland_inhibited: false, ..known },
        ).inhibited,
{
}

// ---- thresholds and holds ----

/// How setting up the notifier ended.
#[derive(Debug, Clone, Copy, PartialEq, Eq, Structural)]
pub enum NotifySetup {
    /// The compositor serves the protocol, in this version.
    Live { version: u32 },
    /// Absent, failed, or not done in time: no threshold will fire in this run.
    Failed,
}

/// What registering a threshold came to.
#[derive(Debug, Clone, Copy, PartialEq, Eq, Structural)]
pub enum Registration {
    /// Kept until the notifier is live.
    Queued,
    /// To be registered now.
    Register,
}

/// The listeners a new threshold takes.
#[derive(Debug, Clone, Copy, PartialEq, Eq, Structural)]
pub struct Listener {
    pub timeout_ms: u32,
    /// A twin the compositor may not withhold: silence on the other listener alone then means that
    /// an application holds the session awake. Only from the second protocol version on.
    pub input_twin: bool,
}

/// The listeners for a threshold of `seconds`.
pub fn listener_for(seconds: u64, version: u32) -> (listener: Listener)
    ensures
        listener.timeout_ms == (if seconds * 1000 <= u32::MAX {
            seconds * 1000
        } else {
            u32::MAX as int
        }),
        listener.input_twin == (version >= 2),
{
    let timeout_ms: u32 = if seconds <= 4_294_967 {
        (seconds * 1000) as u32
    } else {
        u32::MAX
    };
    Listener { timeout_ms, input_twin: version >= 2 }
}

/// What dropping holds came to.
#[derive(Debug)]
pub struct Dropped {
    /// The last hold went: close the lock.
    pub close_fd: bool,
    /// The payload to send.
    pub push: Option<IdleState>,
}

#[derive(Debug)]
pub struct IdleController {
    pending: Vec<(u32, u64)>,
    version: Option<u32>,
    inhibit: InhibitState,
    fd_held: bool,
    published: PublishedIdle,
}

/// What an [`IdleController`] knows.
pub struct IdleControllerView {
    /// Registrations that wait for the notifier, oldest first: a generation and its seconds.
    pub pending: Seq<(u32, u64)>,
    /// The notifier's version, once it is live.
    pub version: Option<u32>,
    pub inhibit: InhibitState,
    /// The logind lock is held.
    pub fd_held: bool,
    pub published: PublishedView,
}

/// The queue without a generation's registrations.
pub open spec fn without_generation(pending: Seq<(u32, u64)>, generation: u32) -> Seq<(u32, u64)>
    decreases pending.len(),
{
    if pending.len() == 0 {
        pending
    } else if pending.last().0 == generation {
        without_generation(pending.drop_last(), generation)
    } else {
        without_generation(pending.drop_last(), generation).push(pending.last())
    }
}

/// What the live clients' holds say.
pub open spec fn roster_names(inhibit: InhibitState) -> Seq<(Seq<char>, Seq<char>)> {
    Seq::new(
        inhibit.screensaver@.len(),
        |i: int| (inhibit.screensaver@[i].hold.who@, inhibit.screensaver@[i].hold.why@),
    )
}

impl IdleController {
    pub closed spec fn view(&self) -> IdleControllerView {
        IdleControllerView {
            pending: self.pending@,
            version: self.version,
            inhibit: self.inhibit,
            fd_held: self.fd_held,
            published: self.published@,
        }
    }

    /// The lock is held exactly while somebody holds something.
    pub open spec fn wf(&self) -> bool {
        &&& self.view().inhibit.wf()
        &&& self.view().fd_held == (super::inhibit::total_of(self.view().inhibit.counts@) > 0)
    }

    /// The first hold was counted, and the lock it needs is being asked for.
    pub open spec fn opening(&self, holder: u32) -> bool {
        &&& self.view().inhibit.wf()
        &&& !self.view().fd_held
        &&& super::inhibit::total_of(self.view().inhibit.counts@) == 1
        &&& super::inhibit::held(self.view().inhibit.counts@, holder) == 1
    }

    /// Everything is as `before` had it.
    pub open spec fn unchanged(&self, before: IdleControllerView) -> bool {
        &&& self.view().inhibit.counts@ == before.inhibit.counts@
        &&& self.view().inhibit.screensaver@ == before.inhibit.screensaver@
        &&& self.view().inhibit.next_cookie == before.inhibit.next_cookie
        &&& self.view() == (IdleControllerView { inhibit: self.view().inhibit, ..before })
    }

    /// What a drop of clients' holds makes of everything else: the lock goes with the last hold, and
    /// the payload names the holds that are left.
    pub open spec fn dropped_to(&self, before: IdleControllerView, done: Dropped) -> bool {
        let known = PublishedView { screensaver: roster_names(self.view().inhibit), ..before.published };
        &&& done.close_fd == super::inhibit::closing(
            before.inhibit.counts@,
            self.view().inhibit.counts@,
        ).should_close_fd
        &&& payload(done.push) == news(known)
        &&& self.view() == (IdleControllerView {
            inhibit: self.view().inhibit,
            fd_held: before.fd_held && !done.close_fd,
            published: settled(known),
            ..before
        })
    }

    /// Nothing is held or published yet, and the notifier is still being set up: a compositor that
    /// hangs must not hold up the supervisor.
    pub fn new() -> (controller: Self)
        ensures
            controller.wf(),
            controller.view().pending == Seq::<(u32, u64)>::empty(),
            controller.view().version is None,
            !controller.view().fd_held,
            controller.view().published == nothing_published(),
            controller.view().inhibit.counts@ == Map::<u32, u32>::empty(),
            controller.view().inhibit.screensaver@.len() == 0,
            controller.view().inhibit.next_cookie == 1,
    {
        let inhibit = InhibitState { counts: HashMap::new(), screensaver: Vec::new(), next_cookie: 1 };
        assert(inhibit.counts@ =~= Map::<u32, u32>::empty());
        IdleController {
            pending: Vec::new(),
            version: None,
            inhibit,
            fd_held: false,
            published: PublishedIdle::default(),
        }
    }

    /// The payload for the first push; without it quiet machines would read nothing for ever.
    pub fn snapshot(&self) -> (state: IdleState)
        ensures
            state@ == merge(self.view().published),
    {
        self.published.merged()
    }

    /// The notifier's setup ended. Registrations that came before a live one are handed out, oldest
    /// first, to be registered now.
    pub fn setup_finished(&mut self, setup: NotifySetup) -> (replay: Vec<(u32, u64)>)
        ensures
            match setup {
                NotifySetup::Live { version } => {
                    &&& replay@ == old(self).view().pending
                    &&& final(self).view() == (IdleControllerView {
                        version: Some(version),
                        pending: Seq::empty(),
                        ..old(self).view()
                    })
                },
                NotifySetup::Failed => replay@.len() == 0 && final(self).view() == old(self).view(),
            },
    {
        match setup {
            NotifySetup::Live { version } => {
                self.version = Some(version);
                let mut replay: Vec<(u32, u64)> = Vec::new();
                replay.append(&mut self.pending);
                assert(replay@ =~= old(self).view().pending);
                replay
            },
            NotifySetup::Failed => Vec::new(),
        }
    }

    /// Registers a threshold. Before the notifier is live it waits: config evaluation reliably
    /// beats the setup.
    pub fn register_threshold(&mut self, generation_id: u32, seconds: u64) -> (registration: Registration)
        ensures
            old(self).view().version is Some ==> registration == Registration::Register && final(self).view() == old(self).view(),
            old(self).view().version is None ==> registration == Registration::Queued && final(self).view() == (
            IdleControllerView {
                pending: old(self).view().pending.push((generation_id, seconds)),
                ..old(self).view()
            }),
    {
        if self.version.is_some() {
            Registration::Register
        } else {
            self.pending.push((generation_id, seconds));
            Registration::Queued
        }
    }

    /// Drops a generation's thresholds; whether registered ones have to go too. Holds stay: a
    /// config's own record of them survives an in-place reload.
    pub fn reset_thresholds(&mut self, generation_id: u32) -> (registered: bool)
        ensures
            registered == (old(self).view().version is Some),
            final(self).view() == (IdleControllerView {
                pending: without_generation(old(self).view().pending, generation_id),
                ..old(self).view()
            }),
    {
        let mut kept: Vec<(u32, u64)> = Vec::new();
        let mut i: usize = 0;
        assert(self.pending@.subrange(0, 0) =~= Seq::<(u32, u64)>::empty());
        while i < self.pending.len()
            invariant
                i <= self.pending@.len(),
                *self == *old(self),
                kept@ == without_generation(self.pending@.subrange(0, i as int), generation_id),
            decreases self.pending@.len() - i,
        {
            let entry = self.pending[i];
            assert(self.pending@.subrange(0, i + 1).drop_last() =~= self.pending@.subrange(0, i as int));
            if entry.0 != generation_id {
                kept.push(entry);
            }
            i += 1;
        }
        assert(self.pending@.subrange(0, i as int) =~= self.pending@);
        self.pending = kept;
        self.version.is_some()
    }

    /// Whether another hold can be counted.
    pub fn has_room(&self) -> (room: bool)
        requires
            self.view().inhibit.wf(),
        ensures
            room == (super::inhibit::total_of(self.view().inhibit.counts@) < u32::MAX),
    {
        total(&self.inhibit.counts) < u32::MAX
    }

    /// `idle:inhibit(reason)`: counts the hold; whether the lock has to be opened for it.
    pub fn inhibit(&mut self, generation_id: u32) -> (open_fd: bool)
        requires
            old(self).view().inhibit.wf(),
            super::inhibit::total_of(old(self).view().inhibit.counts@) < u32::MAX,
        ensures
            open_fd == (super::inhibit::total_of(old(self).view().inhibit.counts@) == 0),
            final(self).view().inhibit.counts@ == super::inhibit::inhibited(
                old(self).view().inhibit.counts@,
                generation_id,
            ),
            final(self).view().inhibit.screensaver@ == old(self).view().inhibit.screensaver@,
            final(self).view().inhibit.next_cookie == old(self).view().inhibit.next_cookie,
            final(self).view() == (IdleControllerView { inhibit: final(self).view().inhibit, ..old(self).view() }),
            final(self).view().inhibit.wf(),
            old(self).wf() && open_fd ==> final(self).opening(generation_id),
            old(self).wf() && !open_fd ==> final(self).wf(),
    {
        proof {
            super::inhibit::a_release_undoes_a_hold(self.inhibit.counts@, generation_id, generation_id);
            super::inhibit::lemma_total_zero(self.inhibit.counts@, generation_id);
        }
        apply_inhibit(&mut self.inhibit.counts, generation_id).should_open_fd
    }

    /// Takes in whether the lock could be opened. A failure takes the hold back.
    pub fn open_shared_fd(&mut self, holder: u32, opened: bool)
        requires
            old(self).view().inhibit.wf(),
        ensures
            final(self).view().inhibit.wf(),
            old(self).opening(holder) ==> final(self).wf(),
            final(self).view().fd_held == (old(self).view().fd_held || opened),
            final(self).view().inhibit.counts@ == (if opened {
                old(self).view().inhibit.counts@
            } else {
                super::inhibit::released(old(self).view().inhibit.counts@, holder, 1)
            }),
            final(self).view().inhibit.screensaver@ == old(self).view().inhibit.screensaver@,
            final(self).view().inhibit.next_cookie == old(self).view().inhibit.next_cookie,
            final(self).view().pending == old(self).view().pending,
            final(self).view().version == old(self).view().version,
            final(self).view().published == old(self).view().published,
    {
        if opened {
            self.fd_held = true;
        } else {
            proof {
                let counts = self.inhibit.counts@;
                if counts.contains_key(holder) {
                    super::inhibit::lemma_total_insert(
                        counts,
                        holder,
                        super::inhibit::released(counts, holder, 1)[holder],
                    );
                }
            }
            apply_release_inhibit(&mut self.inhibit.counts, holder);
        }
    }

    /// `idle:release_inhibit()`; whether the lock is to be closed.
    pub fn release_inhibit(&mut self, generation_id: u32) -> (close_fd: bool)
        requires
            old(self).view().inhibit.wf(),
        ensures
            final(self).view().inhibit.wf(),
            old(self).wf() ==> final(self).wf(),
            final(self).view().inhibit.counts@ == super::inhibit::released(
                old(self).view().inhibit.counts@,
                generation_id,
                1,
            ),
            final(self).view().inhibit.screensaver@ == old(self).view().inhibit.screensaver@,
            final(self).view().inhibit.next_cookie == old(self).view().inhibit.next_cookie,
            close_fd == super::inhibit::closing(
                old(self).view().inhibit.counts@,
                final(self).view().inhibit.counts@,
            ).should_close_fd,
            final(self).view().fd_held == (old(self).view().fd_held && !close_fd),
            final(self).view().pending == old(self).view().pending,
            final(self).view().version == old(self).view().version,
            final(self).view().published == old(self).view().published,
    {
        proof {
            let counts = self.inhibit.counts@;
            if counts.contains_key(generation_id) {
                super::inhibit::lemma_total_insert(
                    counts,
                    generation_id,
                    super::inhibit::released(counts, generation_id, 1)[generation_id],
                );
            }
        }
        let close_fd = apply_release_inhibit(&mut self.inhibit.counts, generation_id).should_close_fd;
        if close_fd {
            self.fd_held = false;
        }
        close_fd
    }

    /// `ScreenSaver.Inhibit`: the client's cookie, and whether the lock has to be opened.
    pub fn screensaver_inhibit(&mut self, peer: String, who: String, why: String) -> (out: (u32, bool))
        requires
            old(self).view().inhibit.wf(),
            super::inhibit::total_of(old(self).view().inhibit.counts@) < u32::MAX,
        ensures
            out.0 == old(self).view().inhibit.next_cookie,
            out.1 == (super::inhibit::total_of(old(self).view().inhibit.counts@) == 0),
            final(self).view().inhibit.screensaver@ == super::inhibit::with_hold(
                old(self).view().inhibit.screensaver@,
                (super::inhibit::ScreenSaverHold { cookie: out.0, peer, hold: IdleInhibitor { who, why } }),
            ),
            final(self).view().inhibit.next_cookie == super::inhibit::cookie_after(out.0),
            final(self).view().inhibit.counts@ == super::inhibit::inhibited(
                old(self).view().inhibit.counts@,
                SCREENSAVER_HOLDER,
            ),
            final(self).view() == (IdleControllerView { inhibit: final(self).view().inhibit, ..old(self).view() }),
            final(self).view().inhibit.wf(),
            old(self).wf() && out.1 ==> final(self).opening(SCREENSAVER_HOLDER),
            old(self).wf() && !out.1 ==> final(self).wf(),
    {
        proof {
            super::inhibit::a_release_undoes_a_hold(
                self.inhibit.counts@,
                SCREENSAVER_HOLDER,
                SCREENSAVER_HOLDER,
            );
            super::inhibit::lemma_total_zero(self.inhibit.counts@, SCREENSAVER_HOLDER);
        }
        let (cookie, transition) = apply_screensaver_inhibit(&mut self.inhibit, peer, IdleInhibitor { who, why });
        (cookie, transition.should_open_fd)
    }

    /// The payload that names the live clients' holds.
    pub fn publish_screensaver(&mut self) -> (push: Option<IdleState>)
        ensures
            ({
                let known = PublishedView {
                    screensaver: roster_names(old(self).view().inhibit),
                    ..old(self).view().published
                };
                &&& payload(push) == news(known)
                &&& final(self).view() == (IdleControllerView { published: settled(known), ..old(self).view() })
            }),
    {
        let holds = screensaver_holds(&self.inhibit);
        assert(super::state::named(holds@) =~= roster_names(self.inhibit));
        self.published.set_screensaver(holds)
    }

    /// `ScreenSaver.UnInhibit`; `None` for a cookie nothing holds, which is answered as an error.
    pub fn screensaver_release(&mut self, cookie: u32) -> (dropped: Option<Dropped>)
        requires
            old(self).view().inhibit.wf(),
        ensures
            final(self).view().inhibit.wf(),
            old(self).wf() ==> final(self).wf(),
            dropped is Some <==> super::inhibit::knows_cookie(old(self).view().inhibit.screensaver@, cookie),
            final(self).view().inhibit.next_cookie == old(self).view().inhibit.next_cookie,
            dropped is None ==> final(self).unchanged(old(self).view()),
            dropped matches Some(done) ==> {
                &&& final(self).view().inhibit.screensaver@ == super::inhibit::without_cookie(
                    old(self).view().inhibit.screensaver@,
                    cookie,
                )
                &&& final(self).view().inhibit.counts@ == super::inhibit::released(
                    old(self).view().inhibit.counts@,
                    SCREENSAVER_HOLDER,
                    1,
                )
                &&& final(self).dropped_to(old(self).view(), done)
            },
    {
        let ghost counts = self.inhibit.counts@;
        proof {
            if counts.contains_key(SCREENSAVER_HOLDER) {
                super::inhibit::lemma_total_insert(
                    counts,
                    SCREENSAVER_HOLDER,
                    super::inhibit::released(counts, SCREENSAVER_HOLDER, 1)[SCREENSAVER_HOLDER],
                );
            }
        }
        match apply_screensaver_release(&mut self.inhibit, cookie) {
            None => None,
            Some(transition) => {
                if transition.should_close_fd {
                    self.fd_held = false;
                }
                let push = self.publish_screensaver();
                Some(Dropped { close_fd: transition.should_close_fd, push })
            },
        }
    }

    /// A client left the bus: its holds go. `None` when it held nothing.
    pub fn screensaver_peer_left(&mut self, departed: &str) -> (dropped: Option<Dropped>)
        requires
            old(self).view().inhibit.wf(),
        ensures
            final(self).view().inhibit.wf(),
            old(self).wf() ==> final(self).wf(),
            final(self).view().inhibit.screensaver@ == super::inhibit::without_peer(
                old(self).view().inhibit.screensaver@,
                departed@,
            ),
            final(self).view().inhibit.next_cookie == old(self).view().inhibit.next_cookie,
            ({
                let n = super::inhibit::peer_holds(old(self).view().inhibit.screensaver@, departed@);
                &&& dropped is Some <==> n > 0
                &&& final(self).view().inhibit.counts@ == super::inhibit::released(
                    old(self).view().inhibit.counts@,
                    SCREENSAVER_HOLDER,
                    n,
                )
                &&& dropped is None ==> final(self).unchanged(old(self).view())
                &&& dropped matches Some(done) ==> final(self).dropped_to(old(self).view(), done)
            }),
    {
        proof {
            let counts = self.inhibit.counts@;
            let n = super::inhibit::peer_holds(self.inhibit.screensaver@, departed@);
            super::inhibit::lemma_release_adds_up(counts, SCREENSAVER_HOLDER, 0);
            super::inhibit::lemma_release_shrinks(counts, SCREENSAVER_HOLDER, n);
            super::inhibit::lemma_without_peer(self.inhibit.screensaver@, departed@);
            super::inhibit::lemma_keeps_all(self.inhibit.screensaver@, departed@);
        }
        match drop_screensaver_peer(&mut self.inhibit, departed) {
            None => None,
            Some(transition) => {
                if transition.should_close_fd {
                    self.fd_held = false;
                }
                let push = self.publish_screensaver();
                Some(Dropped { close_fd: transition.should_close_fd, push })
            },
        }
    }

    /// logind's answer changed. `listed` names the inhibitors of others, where they could be
    /// listed; nothing blocking means that nobody is asked.
    pub fn logind_changed(&mut self, blocked: bool, listed: Option<Vec<IdleInhibitor>>) -> (push: Option<IdleState>)
        ensures
            ({
                let known = PublishedView {
                    logind_blocked: blocked,
                    logind: match listed {
                        Some(list) if blocked => super::state::named(list@),
                        _ => Seq::empty(),
                    },
                    ..old(self).view().published
                };
                &&& payload(push) == news(known)
                &&& final(self).view() == (IdleControllerView { published: settled(known), ..old(self).view() })
            }),
    {
        let inhibitors: Vec<IdleInhibitor> = match listed {
            Some(list) if blocked => list,
            _ => Vec::new(),
        };
        assert(inhibitors@.len() == 0 ==> super::state::named(inhibitors@) =~= Seq::empty());
        self.published.set_logind(blocked, inhibitors)
    }

    /// The compositor's silence was read; `None` is no evidence.
    pub fn compositor_answered(&mut self, held: Option<bool>) -> (push: Option<IdleState>)
        ensures
            ({
                let known = PublishedView {
                    wayland_inhibited: match held {
                        Some(held) => held,
                        None => old(self).view().published.wayland_inhibited,
                    },
                    ..old(self).view().published
                };
                &&& payload(push) == news(known)
                &&& final(self).view() == (IdleControllerView { published: settled(known), ..old(self).view() })
            }),
    {
        self.published.set_wayland_inhibited(held)
    }

    /// Drops everything a departed generation owned. `listening` says whether any listener is left:
    /// with none, no event can take back an answer of the compositor's, so it is taken back here.
    pub fn reset_registrations(&mut self, generation_id: u32, listening: bool) -> (dropped: Dropped)
        requires
            old(self).view().inhibit.wf(),
        ensures
            final(self).view().inhibit.wf(),
            old(self).wf() ==> final(self).wf(),
            final(self).view().pending == without_generation(old(self).view().pending, generation_id),
            final(self).view().version == old(self).view().version,
            final(self).view().inhibit.counts@ == old(self).view().inhibit.counts@.remove(generation_id),
            final(self).view().inhibit.screensaver@ == old(self).view().inhibit.screensaver@,
            final(self).view().inhibit.next_cookie == old(self).view().inhibit.next_cookie,
            dropped.close_fd == super::inhibit::closing(
                old(self).view().inhibit.counts@,
                final(self).view().inhibit.counts@,
            ).should_close_fd,
            final(self).view().fd_held == (old(self).view().fd_held && !dropped.close_fd),
            ({
                let known = PublishedView { wayland_inhibited: false, ..old(self).view().published };
                &&& listening ==> dropped.push is None && final(self).view().published == old(self).view().published
                &&& !listening ==> payload(dropped.push) == news(known) && final(self).view().published == settled(
                    known,
                )
            }),
    {
        self.reset_thresholds(generation_id);
        let push = if listening {
            None
        } else {
            self.published.set_wayland_inhibited(Some(false))
        };
        proof {
            super::inhibit::lemma_total_without(self.inhibit.counts@, generation_id);
        }
        let close_fd = cleanup_generation_inhibit(&mut self.inhibit.counts, generation_id).should_close_fd;
        if close_fd {
            self.fd_held = false;
        }
        Dropped { close_fd, push }
    }
}

/// What is left once a generation departs are the thresholds of the others, all of them and in their
/// order. Returns where they stood.
pub proof fn a_departed_generation_leaves_the_others_thresholds(pending: Seq<(u32, u64)>, generation: u32) -> (at: Seq<int>)
    ensures
        at.len() == without_generation(pending, generation).len(),
        forall|i: int| 0 <= i < at.len() ==> 0 <= #[trigger] at[i] < pending.len() && (pending[at[i]].0 != generation),
        forall|i: int| 0 <= i < at.len() ==> (without_generation(pending, generation)[i] == pending[#[trigger] at[i]]),
        forall|i: int, j: int| 0 <= i < j < at.len() ==> #[trigger] at[i] < #[trigger] at[j],
        forall|p: int| 0 <= p < pending.len() && ((#[trigger] pending[p]).0 != generation) ==> at.contains(p),
    decreases pending.len(),
{
    if pending.len() == 0 {
        Seq::empty()
    } else {
        let shorter = pending.drop_last();
        let n = pending.len() - 1;
        let before = a_departed_generation_leaves_the_others_thresholds(pending.drop_last(), generation);
        assert forall|p: int| 0 <= p < n implies shorter[p] == #[trigger] pending[p] by {}
        if pending.last().0 != generation {
            let at = before.push(n);
            assert forall|p: int| 0 <= p < pending.len() && ((#[trigger] pending[p]).0 != generation) implies at.contains(p) by {
                if p < n {
                    assert(shorter[p] == pending[p]);
                    let k = choose|k: int| 0 <= k < before.len() && before[k] == p;
                    assert(at[k] == p);
                } else {
                    assert(at[before.len() as int] == p);
                }
            }
            at
        } else {
            assert forall|p: int| 0 <= p < pending.len() && ((#[trigger] pending[p]).0 != generation) implies before.contains(
                p,
            ) by {
                assert(p < n);
                assert(shorter[p] == pending[p]);
            }
            before
        }
    }
}

/// The session is held awake exactly where logind, the compositor or a screensaver client says so, and
/// everyone who can be named is: logind's, then the clients, then the compositor.
pub proof fn whoever_holds_the_session_awake_is_named(known: PublishedView, i: int)
    ensures
        merge(known).inhibited <==> known.logind_blocked || known.wayland_inhibited || known.screensaver.len() > 0,
        merge(known).inhibitors.len() == known.logind.len() + known.screensaver.len() + (if known.wayland_inhibited {
            1int
        } else {
            0
        }),
        0 <= i < known.logind.len() ==> merge(known).inhibitors[i] == known.logind[i],
        0 <= i < known.screensaver.len() ==> merge(known).inhibitors[known.logind.len() + i] == known.screensaver[i],
        known.wayland_inhibited ==> merge(known).inhibitors.last().1
            == "the compositor is holding off idle notifications"@,
{
}

/// A payload goes out exactly where it is not the one sent last, and what was sent is remembered,
/// with all that is known.
pub proof fn only_news_goes_out(known: PublishedView)
    ensures
        news(known) is None <==> merge(known) == known.last_sent,
        news(known) matches Some(state) ==> state == merge(known),
        settled(known).last_sent == merge(known),
        settled(known).logind_blocked == known.logind_blocked,
        settled(known).logind == known.logind,
        settled(known).wayland_inhibited == known.wayland_inhibited,
        settled(known).screensaver == known.screensaver,
        news(settled(known)) is None,
{
}

/// The clients are named in the roster's order.
pub proof fn clients_are_named_in_order(inhibit: InhibitState, i: int)
    ensures
        roster_names(inhibit).len() == inhibit.screensaver@.len(),
        0 <= i < inhibit.screensaver@.len() ==> roster_names(inhibit)[i] == (
            inhibit.screensaver@[i].hold.who@,
            inhibit.screensaver@[i].hold.why@,
        ),
{
}

/// Before anything is published, nothing is inhibited and nobody is named.
pub proof fn nothing_is_inhibited_at_first()
    ensures
        !nothing_published().logind_blocked && !nothing_published().wayland_inhibited,
        nothing_published().logind.len() == 0 && nothing_published().screensaver.len() == 0,
        !nothing_published().last_sent.inhibited && nothing_published().last_sent.inhibitors.len() == 0,
{
}

/// The first hold of all is the one that opens.
pub proof fn the_first_hold_opens(controller: IdleController, holder: u32)
    ensures
        controller.opening(holder) <==> controller.view().inhibit.wf() && !controller.view().fd_held
            && super::inhibit::total_of(controller.view().inhibit.counts@) == 1 && super::inhibit::held(
            controller.view().inhibit.counts@,
            holder,
        ) == 1,
{
}

/// What is unchanged holds what it held: every count, every cookie and all that was published.
pub proof fn what_is_unchanged_holds_what_it_held(controller: IdleController, before: IdleControllerView)
    requires
        controller.unchanged(before),
    ensures
        controller.view().inhibit.counts@ == before.inhibit.counts@,
        controller.view().inhibit.screensaver@ == before.inhibit.screensaver@,
        controller.view().inhibit.next_cookie == before.inhibit.next_cookie,
        controller.view().fd_held == before.fd_held,
        controller.view().published == before.published,
{
}

/// Whoever lets go closes what was open where nobody else holds it; what is published is who still
/// holds, and it goes out where it is news.
pub proof fn what_was_dropped_is_published(controller: IdleController, before: IdleControllerView, done: Dropped)
    requires
        controller.dropped_to(before, done),
    ensures
        done.close_fd == super::inhibit::closing(
            before.inhibit.counts@,
            controller.view().inhibit.counts@,
        ).should_close_fd,
        controller.view().fd_held == (before.fd_held && !done.close_fd),
        payload(done.push) == news(
            PublishedView { screensaver: roster_names(controller.view().inhibit), ..before.published },
        ),
        controller.view().published == settled(
            PublishedView { screensaver: roster_names(controller.view().inhibit), ..before.published },
        ),
{
}

} // verus!
