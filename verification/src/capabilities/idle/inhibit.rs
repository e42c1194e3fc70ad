//! The inhibit half of `mantle.idle`: one logind lock, held while anyone wants it.
//!
//! Holds arrive from two sides. A config calls `idle:inhibit(reason)`; a session client calls
//! `org.freedesktop.ScreenSaver.Inhibit`. Both share one refcount, so the lock has a single source.

use std::collections::HashMap;

use vstd::prelude::*;

use super::state::IdleInhibitor;
use crate::text;

verus! {

broadcast use vstd::std_specs::hash::group_hash_axioms;

/// One refcount transition's action on the lock: open at 0->1 or close at ->0, never both.
#[derive(Debug, Clone, Copy, PartialEq, Eq, Structural)]
pub struct InhibitTransition {
    pub should_open_fd: bool,
    pub should_close_fd: bool,
}

/// What logind's lock is taken with. Only `block` stops the suspend on idle; `delay` postpones it.
pub const INHIBIT_WHAT: &'static str = "idle";

pub const INHIBIT_WHO: &'static str = "mantle";

pub const INHIBIT_MODE: &'static str = "block";

pub const SCREENSAVER_BUS_NAME: &'static str = "org.freedesktop.ScreenSaver";

/// Clients expect either object path, so both are served.
pub fn screensaver_object_paths() -> (paths: Vec<&'static str>)
    ensures
        text::texts(paths@) == seq!["/org/freedesktop/ScreenSaver"@, "/ScreenSaver"@],
{
    let mut paths: Vec<&'static str> = Vec::new();
    paths.push("/org/freedesktop/ScreenSaver");
    paths.push("/ScreenSaver");
    assert(text::texts(paths@) =~= seq!["/org/freedesktop/ScreenSaver"@, "/ScreenSaver"@]);
    paths
}

/// What a client that releases a cookie nothing holds is told.
pub fn unknown_cookie(cookie: u32) -> (message: String)
    ensures
        message@ == "no inhibitor holds cookie "@ + text::decimal(cookie as nat),
{
    let n = text::decimal_of(cookie as u64);
    "no inhibitor holds cookie ".to_owned().concat(n.as_str())
}

/// Every `ScreenSaver` client at once, as one holder. Generation ids are handed out from 1 upwards,
/// so the top of the range can never be one.
pub const SCREENSAVER_HOLDER: u32 = 0xffff_ffff;

/// How many holds a holder has.
pub open spec fn held(counts: Map<u32, u32>, holder: u32) -> nat {
    if counts.contains_key(holder) {
        counts[holder] as nat
    } else {
        0
    }
}

/// How many holds there are in all.
pub open spec fn total_of(counts: Map<u32, u32>) -> nat
    decreases counts.dom().len(),
    when counts.dom().finite()
{
    if counts.dom().len() == 0 {
        0
    } else {
        let holder = counts.dom().choose();
        counts[holder] as nat + total_of(counts.remove(holder))
    }
}

/// Any holder's share can be taken out of the total.
pub proof fn lemma_total_without(counts: Map<u32, u32>, holder: u32)
    requires
        counts.dom().finite(),
    ensures
        total_of(counts) == held(counts, holder) + total_of(counts.remove(holder)),
    decreases counts.dom().len(),
{
    if counts.contains_key(holder) {
        let first = counts.dom().choose();
        if counts.dom().len() == 0 {
            assert(counts.dom() =~= Set::empty());
        } else if first != holder {
            lemma_total_without(counts.remove(first), holder);
            lemma_total_without(counts.remove(holder), first);
            assert(counts.remove(first).remove(holder) =~= counts.remove(holder).remove(first));
        }
    } else {
        assert(counts.remove(holder) =~= counts);
    }
}

/// Changing one holder's count moves the total by as much.
pub proof fn lemma_total_insert(counts: Map<u32, u32>, holder: u32, count: u32)
    requires
        counts.dom().finite(),
    ensures
        total_of(counts.insert(holder, count)) == total_of(counts) - held(counts, holder) + count,
{
    lemma_total_without(counts, holder);
    lemma_total_without(counts.insert(holder, count), holder);
    assert(counts.insert(holder, count).remove(holder) =~= counts.remove(holder));
}

/// A total of zero is no hold at all.
pub proof fn lemma_total_zero(counts: Map<u32, u32>, holder: u32)
    requires
        counts.dom().finite(),
    ensures
        total_of(counts) >= held(counts, holder),
{
    lemma_total_without(counts, holder);
}

/// How many holds there are in all.
pub(crate) fn total(counts: &HashMap<u32, u32>) -> (sum: u32)
    requires
        total_of(counts@) <= u32::MAX,
    ensures
        sum == total_of(counts@),
{
    let mut sum: u32 = 0;
    let ghost mut rest: Map<u32, u32> = counts@;
    for holder in it: counts.keys()
        invariant
            total_of(counts@) <= u32::MAX,
            sum + total_of(rest) == total_of(counts@),
            rest.dom().finite(),
            rest.dom().len() == it.seq().len() - it.index(),
            it.seq().unref().to_set() == counts@.dom(),
            it.seq().no_duplicates(),
            forall|k: u32| #[trigger]
                rest.contains_key(k) <==> counts@.contains_key(k) && forall|j: int|
                    0 <= j < it.index() ==> *#[trigger] it.seq()[j] != k,
            forall|k: u32| #[trigger] rest.contains_key(k) ==> rest[k] == counts@[k],
    {
        proof {
            let at = it.index();
            assert(it.seq().unref()[at] == *holder);
            assert(it.seq().unref().to_set().contains(*holder));
            assert(counts@.contains_key(*holder));
            assert(rest.contains_key(*holder)) by {
                assert forall|j: int| 0 <= j < at implies *#[trigger] it.seq()[j] != *holder by {
                    assert(it.seq()[j] != it.seq()[at]);
                }
            }
            lemma_total_without(rest, *holder);
            rest = rest.remove(*holder);
        }
        let count: u32 = match counts.get(holder) {
            Some(count) => *count,
            None => 0,
        };
        sum += count;
    }
    sum
}

/// The counts after one more hold.
pub open spec fn inhibited(counts: Map<u32, u32>, holder: u32) -> Map<u32, u32> {
    counts.insert(holder, (held(counts, holder) + 1) as u32)
}

/// The counts after `n` releases: never below zero, and a holder nobody knows stays unknown.
pub open spec fn released(counts: Map<u32, u32>, holder: u32, n: nat) -> Map<u32, u32> {
    if counts.contains_key(holder) {
        counts.insert(
            holder,
            (if held(counts, holder) >= n {
                held(counts, holder) - n
            } else {
                0
            }) as u32,
        )
    } else {
        counts
    }
}

/// The transition between two counts by a release.
pub open spec fn closing(before: Map<u32, u32>, after: Map<u32, u32>) -> InhibitTransition {
    InhibitTransition { should_open_fd: false, should_close_fd: total_of(before) > 0 && total_of(after) == 0 }
}

/// `idle:inhibit(reason)`'s refcount half: the lock opens only when nobody held anything before.
pub fn apply_inhibit(counts: &mut HashMap<u32, u32>, generation_id: u32) -> (transition: InhibitTransition)
    requires
        total_of(old(counts)@) < u32::MAX,
    ensures
        final(counts)@ == inhibited(old(counts)@, generation_id),
        transition == (InhibitTransition {
            should_open_fd: total_of(old(counts)@) == 0,
            should_close_fd: false,
        }),
{
    let total_before: u32 = total(counts);
    proof {
        lemma_total_zero(counts@, generation_id);
    }
    let count: u32 = match counts.get(&generation_id) {
        Some(count) => *count,
        None => 0,
    };
    counts.insert(generation_id, count + 1);
    InhibitTransition { should_open_fd: total_before == 0, should_close_fd: false }
}

/// `idle:release_inhibit()`: the lock closes only when the last hold goes. Releasing for a
/// generation that holds nothing does nothing.
pub fn apply_release_inhibit(counts: &mut HashMap<u32, u32>, generation_id: u32) -> (transition: InhibitTransition)
    requires
        total_of(old(counts)@) <= u32::MAX,
    ensures
        final(counts)@ == released(old(counts)@, generation_id, 1),
        transition == closing(old(counts)@, final(counts)@),
{
    let total_before: u32 = total(counts);
    let count: Option<u32> = match counts.get(&generation_id) {
        Some(count) => Some(*count),
        None => None,
    };
    if let Some(count) = count {
        let less: u32 = if count > 0 {
            count - 1
        } else {
            0
        };
        proof {
            lemma_total_insert(counts@, generation_id, less);
        }
        counts.insert(generation_id, less);
    }
    let total_after: u32 = total(counts);
    InhibitTransition { should_open_fd: false, should_close_fd: total_before > 0 && total_after == 0 }
}

/// Drops everything a generation held, so that a crashed last holder releases the lock.
pub fn cleanup_generation_inhibit(counts: &mut HashMap<u32, u32>, generation_id: u32) -> (transition: InhibitTransition)
    requires
        total_of(old(counts)@) <= u32::MAX,
    ensures
        final(counts)@ == old(counts)@.remove(generation_id),
        transition == closing(old(counts)@, final(counts)@),
{
    let total_before: u32 = total(counts);
    proof {
        lemma_total_without(counts@, generation_id);
    }
    counts.remove(&generation_id);
    let total_after: u32 = total(counts);
    InhibitTransition { should_open_fd: false, should_close_fd: total_before > 0 && total_after == 0 }
}

// ---- holds of session clients ----

/// One `ScreenSaver` client's hold.
#[derive(Debug, PartialEq, Eq)]
pub struct ScreenSaverHold {
    pub cookie: u32,
    /// The bus name of the client that asked.
    pub peer: String,
    pub hold: IdleInhibitor,
}

/// Everything that holds the session awake.
#[derive(Debug)]
pub struct InhibitState {
    /// Refcount per holder: one per config generation, plus [`SCREENSAVER_HOLDER`] for every
    /// `ScreenSaver` client together. Only the total decides the lock.
    pub counts: HashMap<u32, u32>,
    /// Live `ScreenSaver` holds by ascending cookie, so a drawn roster keeps its order.
    pub screensaver: Vec<ScreenSaverHold>,
    pub next_cookie: u32,
}

/// Cookies ascend, and the next one is never 0.
pub open spec fn ascending(roster: Seq<ScreenSaverHold>) -> bool {
    forall|i: int, j: int| 0 <= i < j < roster.len() ==> (#[trigger] roster[i]).cookie < (#[trigger] roster[j]).cookie
}

impl InhibitState {
    pub open spec fn wf(self) -> bool {
        &&& ascending(self.screensaver@)
        &&& self.next_cookie >= 1
        &&& total_of(self.counts@) <= u32::MAX
    }
}

/// The place of `cookie` in an ascending roster: the first that is not below it.
pub open spec fn slot_from(roster: Seq<ScreenSaverHold>, cookie: u32, from: int) -> int
    decreases roster.len() - from,
{
    if from < 0 || from >= roster.len() || roster[from].cookie >= cookie {
        from
    } else {
        slot_from(roster, cookie, from + 1)
    }
}

/// The roster with a hold under its cookie, in place of whatever stood there.
pub open spec fn with_hold(roster: Seq<ScreenSaverHold>, hold: ScreenSaverHold) -> Seq<ScreenSaverHold> {
    let at = slot_from(roster, hold.cookie, 0);
    if at < roster.len() && roster[at].cookie == hold.cookie {
        roster.update(at, hold)
    } else {
        roster.insert(at, hold)
    }
}

/// The roster without a cookie.
pub open spec fn without_cookie(roster: Seq<ScreenSaverHold>, cookie: u32) -> Seq<ScreenSaverHold> {
    let at = slot_from(roster, cookie, 0);
    if at < roster.len() && roster[at].cookie == cookie {
        roster.remove(at)
    } else {
        roster
    }
}

pub open spec fn knows_cookie(roster: Seq<ScreenSaverHold>, cookie: u32) -> bool {
    exists|i: int| 0 <= i < roster.len() && (#[trigger] roster[i]).cookie == cookie
}

/// The roster without a peer's holds.
pub open spec fn without_peer(roster: Seq<ScreenSaverHold>, peer: Seq<char>) -> Seq<ScreenSaverHold>
    decreases roster.len(),
{
    if roster.len() == 0 {
        roster
    } else if roster.last().peer@ == peer {
        without_peer(roster.drop_last(), peer)
    } else {
        without_peer(roster.drop_last(), peer).push(roster.last())
    }
}

/// How many holds a peer has.
pub open spec fn peer_holds(roster: Seq<ScreenSaverHold>, peer: Seq<char>) -> nat {
    (roster.len() - without_peer(roster, peer).len()) as nat
}

/// The cookie after `cookie`: never 0, which clients routinely read as failure.
pub open spec fn cookie_after(cookie: u32) -> u32 {
    if cookie == u32::MAX {
        1
    } else {
        (cookie + 1) as u32
    }
}

proof fn lemma_slot(roster: Seq<ScreenSaverHold>, cookie: u32, from: int)
    requires
        0 <= from <= roster.len(),
        ascending(roster),
        forall|j: int| 0 <= j < from ==> (#[trigger] roster[j]).cookie < cookie,
    ensures
        from <= slot_from(roster, cookie, from) <= roster.len(),
        forall|j: int|
            0 <= j < slot_from(roster, cookie, from) ==> (#[trigger] roster[j]).cookie < cookie,
        forall|j: int|
            slot_from(roster, cookie, from) <= j < roster.len() ==> (#[trigger] roster[j]).cookie >= cookie,
    decreases roster.len() - from,
{
    if from < roster.len() && roster[from].cookie < cookie {
        lemma_slot(roster, cookie, from + 1);
    }
}

pub proof fn lemma_without_peer(roster: Seq<ScreenSaverHold>, peer: Seq<char>)
    ensures
        without_peer(roster, peer).len() <= roster.len(),
        forall|i: int|
            0 <= i < without_peer(roster, peer).len() ==> roster.contains(#[trigger] without_peer(roster, peer)[i]),
        ascending(roster) ==> ascending(without_peer(roster, peer)),
    decreases roster.len(),
{
    if roster.len() > 0 {
        let shorter = roster.drop_last();
        lemma_without_peer(shorter, peer);
        assert forall|i: int| 0 <= i < without_peer(roster, peer).len() implies roster.contains(
            #[trigger] without_peer(roster, peer)[i],
        ) by {
            if i < without_peer(shorter, peer).len() {
                let kept = without_peer(shorter, peer)[i];
                let at = choose|k: int| 0 <= k < shorter.len() && shorter[k] == kept;
                assert(roster[at] == kept);
            } else {
                assert(roster[roster.len() - 1] == roster.last());
            }
        }
        if ascending(roster) {
            assert(ascending(shorter)) by {
                assert forall|i: int, j: int| 0 <= i < j < shorter.len() implies (#[trigger] shorter[i]).cookie < (
                #[trigger] shorter[j]).cookie by {
                    assert(roster[i].cookie < roster[j].cookie);
                }
            }
            let kept = without_peer(shorter, peer);
            assert forall|i: int| 0 <= i < kept.len() implies (#[trigger] kept[i]).cookie < roster.last().cookie by {
                let at = choose|k: int| 0 <= k < shorter.len() && shorter[k] == kept[i];
                assert(roster[at].cookie < roster[roster.len() - 1].cookie);
            }
        }
    }
}

/// A peer that holds nothing takes nothing away.
pub proof fn lemma_keeps_all(roster: Seq<ScreenSaverHold>, peer: Seq<char>)
    ensures
        without_peer(roster, peer).len() == roster.len() ==> without_peer(roster, peer) == roster,
    decreases roster.len(),
{
    if roster.len() > 0 {
        lemma_keeps_all(roster.drop_last(), peer);
        lemma_without_peer(roster.drop_last(), peer);
        assert(roster.drop_last().push(roster.last()) =~= roster);
    }
}

fn slot(roster: &Vec<ScreenSaverHold>, cookie: u32) -> (at: usize)
    ensures
        at == slot_from(roster@, cookie, 0),
        at <= roster@.len(),
{
    let mut i: usize = 0;
    while i < roster.len() && roster[i].cookie < cookie
        invariant
            i <= roster@.len(),
            slot_from(roster@, cookie, i as int) == slot_from(roster@, cookie, 0),
        decreases roster@.len() - i,
    {
        i += 1;
    }
    i
}

/// `ScreenSaver.Inhibit`: records the hold and reports the same 0->1 transition a config's hold
/// does. The cookie is the client's handle for releasing it.
pub fn apply_screensaver_inhibit(state: &mut InhibitState, peer: String, hold: IdleInhibitor) -> (out: (
    u32,
    InhibitTransition,
))
    requires
        old(state).wf(),
        total_of(old(state).counts@) < u32::MAX,
    ensures
        final(state).wf(),
        out.0 == old(state).next_cookie,
        final(state).next_cookie == cookie_after(old(state).next_cookie),
        final(state).screensaver@ == with_hold(
            old(state).screensaver@,
            (ScreenSaverHold { cookie: out.0, peer, hold }),
        ),
        final(state).counts@ == inhibited(old(state).counts@, SCREENSAVER_HOLDER),
        out.1 == (InhibitTransition {
            should_open_fd: total_of(old(state).counts@) == 0,
            should_close_fd: false,
        }),
{
    let cookie: u32 = state.next_cookie;
    state.next_cookie = if cookie == u32::MAX {
        1
    } else {
        cookie + 1
    };
    let entry = ScreenSaverHold { cookie, peer, hold };
    let at: usize = slot(&state.screensaver, cookie);
    proof {
        lemma_slot(state.screensaver@, cookie, 0);
        lemma_total_insert(
            state.counts@,
            SCREENSAVER_HOLDER,
            (held(state.counts@, SCREENSAVER_HOLDER) + 1) as u32,
        );
        lemma_total_zero(state.counts@, SCREENSAVER_HOLDER);
    }
    if at < state.screensaver.len() && state.screensaver[at].cookie == cookie {
        state.screensaver.set(at, entry);
    } else {
        state.screensaver.insert(at, entry);
    }
    let transition = apply_inhibit(&mut state.counts, SCREENSAVER_HOLDER);
    (cookie, transition)
}

/// `ScreenSaver.UnInhibit`. `None` for a cookie nothing holds, which must not move the refcount: a
/// client releasing twice would otherwise drop someone else's hold.
pub fn apply_screensaver_release(state: &mut InhibitState, cookie: u32) -> (transition: Option<InhibitTransition>)
    requires
        old(state).wf(),
    ensures
        final(state).wf(),
        final(state).next_cookie == old(state).next_cookie,
        !knows_cookie(old(state).screensaver@, cookie) ==> transition is None && final(state).counts@ == old(state).counts@ && final(state).screensaver@ == old(state).screensaver@,
        knows_cookie(old(state).screensaver@, cookie) ==> {
            &&& final(state).screensaver@ == without_cookie(old(state).screensaver@, cookie)
            &&& final(state).counts@ == released(old(state).counts@, SCREENSAVER_HOLDER, 1)
            &&& transition == Some(closing(old(state).counts@, final(state).counts@))
        },
{
    let at: usize = slot(&state.screensaver, cookie);
    proof {
        lemma_slot(state.screensaver@, cookie, 0);
    }
    if at >= state.screensaver.len() || state.screensaver[at].cookie != cookie {
        return None;
    }
    assert(knows_cookie(state.screensaver@, cookie));
    state.screensaver.remove(at);
    proof {
        lemma_release_shrinks(state.counts@, SCREENSAVER_HOLDER, 1);
    }
    Some(apply_release_inhibit(&mut state.counts, SCREENSAVER_HOLDER))
}

pub proof fn lemma_release_shrinks(counts: Map<u32, u32>, holder: u32, n: nat)
    requires
        counts.dom().finite(),
    ensures
        total_of(released(counts, holder, n)) <= total_of(counts),
        released(counts, holder, n).dom().finite(),
{
    if counts.contains_key(holder) {
        lemma_total_insert(counts, holder, released(counts, holder, n)[holder]);
    }
}

pub proof fn lemma_release_adds_up(counts: Map<u32, u32>, holder: u32, n: nat)
    ensures
        released(released(counts, holder, n), holder, 1) == released(counts, holder, n + 1),
        n == 0 ==> released(counts, holder, n) == counts,
{
    assert(released(released(counts, holder, n), holder, 1) =~= released(counts, holder, n + 1));
    if n == 0 {
        assert(released(counts, holder, n) =~= counts);
    }
}

/// Every hold of a departed peer goes. A client that crashes mid-video releases nothing itself, so
/// without this the session never idles again. The transition spans all its releases: a hold whose lock
/// could not be opened was taken back from the count, so the count can run out before the roster does.
pub fn drop_screensaver_peer(state: &mut InhibitState, departed: &str) -> (transition: Option<InhibitTransition>)
    requires
        old(state).wf(),
    ensures
        final(state).wf(),
        final(state).next_cookie == old(state).next_cookie,
        final(state).screensaver@ == without_peer(old(state).screensaver@, departed@),
        ({
            let n = peer_holds(old(state).screensaver@, departed@);
            &&& final(state).counts@ == released(old(state).counts@, SCREENSAVER_HOLDER, n)
            &&& n == 0 ==> transition is None
            &&& n > 0 ==> transition == Some(closing(old(state).counts@, final(state).counts@))
        }),
{
    let ghost before = state.screensaver@;
    let ghost counts = state.counts@;
    let ghost mut n: nat = 0;
    let total_before: u32 = total(&state.counts);
    let mut dropped = false;
    let mut kept: usize = 0;
    proof {
        lemma_release_adds_up(counts, SCREENSAVER_HOLDER, 0);
        assert(before.subrange(0, 0) =~= Seq::<ScreenSaverHold>::empty());
    }
    while kept < state.screensaver.len()
        invariant
            kept <= state.screensaver@.len(),
            n + state.screensaver@.len() == before.len(),
            state.next_cookie == old(state).next_cookie,
            state.next_cookie >= 1,
            counts.dom().finite(),
            total_of(counts) <= u32::MAX,
            state.counts@ == released(counts, SCREENSAVER_HOLDER, n),
            state.screensaver@.subrange(0, kept as int) == without_peer(before.subrange(0, kept + n), departed@),
            forall|i: int|
                kept <= i < state.screensaver@.len() ==> #[trigger] state.screensaver@[i] == before[i + n],
            dropped == (n > 0),
        decreases state.screensaver@.len() - kept,
    {
        let ghost roster = state.screensaver@;
        proof {
            let at = kept + n;
            assert(before[at as int] == roster[kept as int]);
            assert(before.subrange(0, at + 1).drop_last() =~= before.subrange(0, at as int));
            assert(before.subrange(0, at + 1).last() == before[at as int]);
        }
        if text::same(state.screensaver[kept].peer.as_str(), departed) {
            state.screensaver.remove(kept);
            proof {
                lemma_release_shrinks(counts, SCREENSAVER_HOLDER, n);
                lemma_release_adds_up(counts, SCREENSAVER_HOLDER, n);
                assert(state.screensaver@.subrange(0, kept as int) =~= roster.subrange(0, kept as int));
                n = n + 1;
            }
            apply_release_inhibit(&mut state.counts, SCREENSAVER_HOLDER);
            dropped = true;
        } else {
            proof {
                assert(roster.subrange(0, kept + 1) =~= roster.subrange(0, kept as int).push(roster[kept as int]));
            }
            kept += 1;
        }
    }
    proof {
        assert(before.subrange(0, kept + n) =~= before);
        assert(state.screensaver@.subrange(0, kept as int) =~= state.screensaver@);
        lemma_without_peer(before, departed@);
        lemma_release_shrinks(counts, SCREENSAVER_HOLDER, n);
    }
    if !dropped {
        return None;
    }
    let total_after: u32 = total(&state.counts);
    Some(InhibitTransition { should_open_fd: false, should_close_fd: total_before > 0 && total_after == 0 })
}

/// What every live `ScreenSaver` hold says, lowest cookie first.
pub fn screensaver_holds(state: &InhibitState) -> (holds: Vec<IdleInhibitor>)
    ensures
        holds@ == Seq::new(state.screensaver@.len(), |i: int| state.screensaver@[i].hold),
{
    let mut holds: Vec<IdleInhibitor> = Vec::new();
    let mut i: usize = 0;
    while i < state.screensaver.len()
        invariant
            i <= state.screensaver@.len(),
            holds@ == Seq::new(i as nat, |j: int| state.screensaver@[j].hold),
        decreases state.screensaver@.len() - i,
    {
        holds.push(state.screensaver[i].hold.clone());
        i += 1;
        assert(holds@ =~= Seq::new(i as nat, |j: int| state.screensaver@[j].hold));
    }
    holds
}

// ---- laws ----

/// A hold and its release leave every count as it was, and the release closes exactly what the hold
/// opened.
pub proof fn a_release_undoes_a_hold(counts: Map<u32, u32>, holder: u32, other: u32)
    requires
        counts.dom().finite(),
        total_of(counts) < u32::MAX,
    ensures
        held(released(inhibited(counts, holder), holder, 1), other) == held(counts, other),
        total_of(inhibited(counts, holder)) == total_of(counts) + 1,
        closing(inhibited(counts, holder), released(inhibited(counts, holder), holder, 1)).should_close_fd <==> total_of(
            counts,
        ) == 0,
{
    lemma_total_zero(counts, holder);
    lemma_total_insert(counts, holder, (held(counts, holder) + 1) as u32);
    let more = inhibited(counts, holder);
    lemma_total_insert(more, holder, released(more, holder, 1)[holder]);
}

/// Reaping a generation takes its own holds and nobody else's: the hold of a session client
/// survives a config reload.
pub proof fn a_reload_reaps_its_own_generation_only(counts: Map<u32, u32>, generation: u32, other: u32)
    requires
        counts.dom().finite(),
        other != generation,
    ensures
        held(counts.remove(generation), generation) == 0,
        held(counts.remove(generation), other) == held(counts, other),
        held(counts, other) > 0 ==> !closing(counts, counts.remove(generation)).should_close_fd,
{
    lemma_total_zero(counts.remove(generation), other);
}

/// What is held after a peer departed is what the configs hold and what of the clients' count its
/// holds leave, so its departure closes a lock exactly when neither is anything. Where every client's
/// hold was counted, what is left of the count are the other clients' holds.
pub proof fn a_departed_peer_closes_only_what_it_held_alone(state: InhibitState, peer: Seq<char>)
    requires
        state.wf(),
    ensures
        ({
            let n = peer_holds(state.screensaver@, peer);
            let clients = held(state.counts@, SCREENSAVER_HOLDER);
            let configs = total_of(state.counts@.remove(SCREENSAVER_HOLDER));
            let after = released(state.counts@, SCREENSAVER_HOLDER, n);
            &&& total_of(after) == configs + (if clients >= n {
                clients - n
            } else {
                0
            })
            &&& closing(state.counts@, after).should_close_fd <==> total_of(state.counts@) > 0 && configs == 0
                && clients <= n
            &&& clients == state.screensaver@.len() ==> held(after, SCREENSAVER_HOLDER) == without_peer(
                state.screensaver@,
                peer,
            ).len()
        }),
{
    let n = peer_holds(state.screensaver@, peer);
    lemma_without_peer(state.screensaver@, peer);
    let after = released(state.counts@, SCREENSAVER_HOLDER, n);
    lemma_total_without(state.counts@, SCREENSAVER_HOLDER);
    lemma_total_without(after, SCREENSAVER_HOLDER);
    assert(after.remove(SCREENSAVER_HOLDER) =~= state.counts@.remove(SCREENSAVER_HOLDER));
}

/// A hold counts one more for its holder, a release one less and never below none, and neither touches
/// another holder's count.
pub proof fn a_count_is_its_holders_own(counts: Map<u32, u32>, holder: u32, other: u32, n: nat)
    requires
        held(counts, holder) < u32::MAX,
    ensures
        held(inhibited(counts, holder), holder) == held(counts, holder) + 1,
        held(released(counts, holder, n), holder) == (if held(counts, holder) >= n {
            held(counts, holder) - n
        } else {
            0
        }),
        other != holder ==> held(inhibited(counts, holder), other) == held(counts, other) && held(
            released(counts, holder, n),
            other,
        ) == held(counts, other),
        counts.contains_key(holder) ==> held(counts, holder) == counts[holder],
        !counts.contains_key(holder) ==> held(counts, holder) == 0,
{
}

/// The total is what all holders count together: it grows by one with a hold, and there is none exactly
/// where no holder has any.
pub proof fn the_total_is_what_all_hold(counts: Map<u32, u32>, holder: u32)
    requires
        counts.dom().finite(),
        held(counts, holder) < u32::MAX,
    ensures
        total_of(inhibited(counts, holder)) == total_of(counts) + 1,
        total_of(counts) == held(counts, holder) + total_of(counts.remove(holder)),
        counts.dom().len() == 0 ==> total_of(counts) == 0,
{
    lemma_total_insert(counts, holder, (held(counts, holder) + 1) as u32);
    if counts.contains_key(holder) {
        lemma_total_without(counts, holder);
    } else {
        assert(counts.remove(holder) =~= counts);
    }
}

/// The lock is closed exactly where holds end that were there, and a release never opens it.
pub proof fn the_last_release_closes(before: Map<u32, u32>, after: Map<u32, u32>)
    ensures
        closing(before, after).should_close_fd <==> total_of(before) > 0 && total_of(after) == 0,
        !closing(before, after).should_open_fd,
{
}

proof fn lemma_slot_parts(roster: Seq<ScreenSaverHold>, cookie: u32, from: int)
    requires
        0 <= from <= roster.len(),
    ensures
        from <= slot_from(roster, cookie, from) <= roster.len(),
        forall|i: int| from <= i < slot_from(roster, cookie, from) ==> (#[trigger] roster[i]).cookie < cookie,
        slot_from(roster, cookie, from) < roster.len() ==> roster[slot_from(roster, cookie, from)].cookie >= cookie,
    decreases roster.len() - from,
{
    if from < roster.len() && roster[from].cookie < cookie {
        lemma_slot_parts(roster, cookie, from + 1);
    }
}

/// A hold is on the roster under its cookie, and every other one stays: the roster holds the new one
/// and those with other cookies, and keeps its order.
pub proof fn a_hold_joins_the_others(roster: Seq<ScreenSaverHold>, hold: ScreenSaverHold, other: ScreenSaverHold)
    requires
        forall|i: int, j: int|
            0 <= i < j < roster.len() ==> (#[trigger] roster[i]).cookie < (#[trigger] roster[j]).cookie,
    ensures
        with_hold(roster, hold).contains(hold),
        other.cookie != hold.cookie ==> (with_hold(roster, hold).contains(other) <==> roster.contains(other)),
        other.cookie == hold.cookie && with_hold(roster, hold).contains(other) ==> other == hold,
        forall|i: int, j: int|
            0 <= i < j < with_hold(roster, hold).len() ==> (#[trigger] with_hold(roster, hold)[i]).cookie < (
            #[trigger] with_hold(roster, hold)[j]).cookie,
{
    lemma_slot_parts(roster, hold.cookie, 0);
    let at = slot_from(roster, hold.cookie, 0);
    let after = with_hold(roster, hold);
    assert(after[at] == hold);
    let replaced = at < roster.len() && roster[at].cookie == hold.cookie;
    if roster.contains(other) && other.cookie != hold.cookie {
        let i = choose|i: int| 0 <= i < roster.len() && roster[i] == other;
        assert(after[if i < at || replaced {
            i
        } else {
            i + 1
        }] == other);
    }
    if after.contains(other) {
        let i = choose|i: int| 0 <= i < after.len() && after[i] == other;
        if i != at {
            assert(roster[if i < at || replaced {
                i
            } else {
                i - 1
            }] == other);
        }
    }
    assert forall|i: int, j: int| 0 <= i < j < after.len() implies (#[trigger] after[i]).cookie < (
    #[trigger] after[j]).cookie by {
        let a = if i < at || replaced {
            i
        } else {
            i - 1
        };
        let b = if j < at || replaced {
            j
        } else {
            j - 1
        };
        if i != at {
            assert(after[i] == roster[a]);
        }
        if j != at {
            assert(after[j] == roster[b]);
        }
    }
}

/// A release takes the one hold of its cookie off the roster and leaves the rest, in their order.
pub proof fn a_release_takes_one_hold_off(roster: Seq<ScreenSaverHold>, cookie: u32, other: ScreenSaverHold)
    requires
        forall|i: int, j: int|
            0 <= i < j < roster.len() ==> (#[trigger] roster[i]).cookie < (#[trigger] roster[j]).cookie,
    ensures
        without_cookie(roster, cookie).contains(other) <==> roster.contains(other) && other.cookie != cookie,
        knows_cookie(roster, cookie) ==> without_cookie(roster, cookie).len() == roster.len() - 1,
        !knows_cookie(roster, cookie) ==> without_cookie(roster, cookie) == roster,
        knows_cookie(roster, cookie) <==> exists|i: int| 0 <= i < roster.len() && (#[trigger] roster[i]).cookie == cookie,
{
    lemma_slot_parts(roster, cookie, 0);
    let at = slot_from(roster, cookie, 0);
    let after = without_cookie(roster, cookie);
    if at < roster.len() && roster[at].cookie == cookie {
        assert(knows_cookie(roster, cookie));
        if roster.contains(other) && other.cookie != cookie {
            let i = choose|i: int| 0 <= i < roster.len() && roster[i] == other;
            assert(after[if i < at {
                i
            } else {
                i - 1
            }] == other);
        }
        if after.contains(other) {
            let i = choose|i: int| 0 <= i < after.len() && after[i] == other;
            let a = if i < at {
                i
            } else {
                i + 1
            };
            assert(roster[a] == other);
            assert(a != at);
        }
    } else {
        assert forall|i: int| 0 <= i < roster.len() implies (#[trigger] roster[i]).cookie != cookie by {
            if i >= at {
                assert(roster[at].cookie > cookie);
            }
        }
    }
}

/// What is left once a peer departs are the holds of the others, all of them and in their order. Returns
/// where they stood.
pub proof fn a_departed_peer_leaves_the_others(roster: Seq<ScreenSaverHold>, peer: Seq<char>) -> (at: Seq<int>)
    ensures
        at.len() == without_peer(roster, peer).len(),
        forall|i: int| 0 <= i < at.len() ==> 0 <= #[trigger] at[i] < roster.len() && (roster[at[i]].peer@ != peer),
        forall|i: int| 0 <= i < at.len() ==> (without_peer(roster, peer)[i] == roster[#[trigger] at[i]]),
        forall|i: int, j: int| 0 <= i < j < at.len() ==> #[trigger] at[i] < #[trigger] at[j],
        forall|p: int| 0 <= p < roster.len() && ((#[trigger] roster[p]).peer@ != peer) ==> at.contains(p),
    decreases roster.len(),
{
    if roster.len() == 0 {
        Seq::empty()
    } else {
        let shorter = roster.drop_last();
        let n = roster.len() - 1;
        let before = a_departed_peer_leaves_the_others(roster.drop_last(), peer);
        assert forall|p: int| 0 <= p < n implies shorter[p] == #[trigger] roster[p] by {}
        if roster.last().peer@ != peer {
            let at = before.push(n);
            assert forall|p: int| 0 <= p < roster.len() && ((#[trigger] roster[p]).peer@ != peer) implies at.contains(p) by {
                if p < n {
                    assert(shorter[p] == roster[p]);
                    let k = choose|k: int| 0 <= k < before.len() && before[k] == p;
                    assert(at[k] == p);
                } else {
                    assert(at[before.len() as int] == p);
                }
            }
            at
        } else {
            assert forall|p: int| 0 <= p < roster.len() && ((#[trigger] roster[p]).peer@ != peer) implies before.contains(
                p,
            ) by {
                assert(p < n);
                assert(shorter[p] == roster[p]);
            }
            before
        }
    }
}

/// Cookies go up one by one and start anew at one, so that none is zero and none comes again before all
/// others did.
pub proof fn cookies_go_up(cookie: u32)
    ensures
        cookie_after(cookie) >= 1,
        cookie < u32::MAX ==> cookie_after(cookie) == cookie + 1,
        cookie == u32::MAX ==> cookie_after(cookie) == 1,
{
}

} // verus!
