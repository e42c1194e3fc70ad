//! What the idle capability publishes.

use vstd::prelude::*;

use super::inhibit::{INHIBIT_MODE, INHIBIT_WHAT};
use crate::text;

verus! {

/// Who holds off idle, and why.
#[derive(Debug, PartialEq, Eq)]
pub struct IdleInhibitor {
    pub who: String,
    pub why: String,
}

/// `mantle.idle`'s payload.
#[derive(Debug, PartialEq, Eq)]
pub struct IdleState {
    /// Something holds the session awake.
    pub inhibited: bool,
    /// Everything that does, as far as it can be named.
    pub inhibitors: Vec<IdleInhibitor>,
}

/// An inhibitor's name and reason.
pub open spec fn named(list: Seq<IdleInhibitor>) -> Seq<(Seq<char>, Seq<char>)> {
    Seq::new(list.len(), |i: int| (list[i].who@, list[i].why@))
}

/// What an [`IdleState`] says.
pub struct IdleView {
    pub inhibited: bool,
    pub inhibitors: Seq<(Seq<char>, Seq<char>)>,
}

impl View for IdleState {
    type V = IdleView;

    open spec fn view(&self) -> IdleView {
        IdleView { inhibited: self.inhibited, inhibitors: named(self.inhibitors@) }
    }
}

impl Clone for IdleInhibitor {
    fn clone(&self) -> (copy: Self)
        ensures
            copy == *self,
    {
        IdleInhibitor { who: self.who.clone(), why: self.why.clone() }
    }
}

/// A list with the same inhibitors.
pub fn copied(list: &Vec<IdleInhibitor>) -> (out: Vec<IdleInhibitor>)
    ensures
        out@ == list@,
{
    let mut out: Vec<IdleInhibitor> = Vec::new();
    let mut i: usize = 0;
    while i < list.len()
        invariant
            i <= list@.len(),
            out@ == list@.subrange(0, i as int),
        decreases list@.len() - i,
    {
        out.push(list[i].clone());
        i += 1;
        assert(out@ =~= list@.subrange(0, i as int));
    }
    assert(list@.subrange(0, i as int) =~= list@);
    out
}

impl Clone for IdleState {
    fn clone(&self) -> (copy: Self)
        ensures
            copy@ == self@,
    {
        IdleState { inhibited: self.inhibited, inhibitors: copied(&self.inhibitors) }
    }
}

impl Default for IdleState {
    fn default() -> (state: Self)
        ensures
            state@ == (IdleView { inhibited: false, inhibitors: Seq::empty() }),
    {
        let state = IdleState { inhibited: false, inhibitors: Vec::new() };
        assert(state@.inhibitors =~= Seq::empty());
        state
    }
}

/// Whether two payloads say the same.
pub fn same_state(a: &IdleState, b: &IdleState) -> (same: bool)
    ensures
        same == (a@ == b@),
{
    if a.inhibited != b.inhibited {
        return false;
    }
    if a.inhibitors.len() != b.inhibitors.len() {
        assert(a@.inhibitors.len() != b@.inhibitors.len());
        return false;
    }
    let mut i: usize = 0;
    while i < a.inhibitors.len()
        invariant
            i <= a.inhibitors@.len(),
            a.inhibitors@.len() == b.inhibitors@.len(),
            forall|j: int| 0 <= j < i ==> #[trigger] a@.inhibitors[j] == b@.inhibitors[j],
        decreases a.inhibitors@.len() - i,
    {
        if !text::same(a.inhibitors[i].who.as_str(), b.inhibitors[i].who.as_str()) || !text::same(
            a.inhibitors[i].why.as_str(),
            b.inhibitors[i].why.as_str(),
        ) {
            assert(a@.inhibitors[i as int] != b@.inhibitors[i as int]);
            return false;
        }
        i += 1;
    }
    assert(a@.inhibitors =~= b@.inhibitors);
    true
}

// ---- logind's inhibitors ----

/// One row of logind's list of inhibitors.
#[derive(Debug, PartialEq, Eq)]
pub struct InhibitorRow {
    /// What is inhibited, separated by colons.
    pub what: String,
    pub who: String,
    pub why: String,
    pub mode: String,
    pub pid: u32,
}

/// Whether `idle` is among what is inhibited.
pub open spec fn names_idle(what: Seq<char>) -> bool {
    text::split(what, ":"@).contains(INHIBIT_WHAT@)
}

/// Whether logind's `BlockInhibited`, a list separated by colons, names idle.
pub fn blocks_idle(what: &str) -> (blocked: bool)
    ensures
        blocked == names_idle(what@),
{
    proof {
        reveal_strlit(":");
    }
    let parts = text::str_split(what, ":");
    assert(text::texts(parts@).len() == parts@.len());
    let mut i: usize = 0;
    while i < parts.len()
        invariant
            i <= parts@.len(),
            text::texts(parts@) == text::split(what@, ":"@),
            forall|j: int| 0 <= j < i ==> (#[trigger] parts@[j])@ != INHIBIT_WHAT@,
        decreases parts@.len() - i,
    {
        if text::same(parts[i], INHIBIT_WHAT) {
            assert(text::texts(parts@)[i as int] == INHIBIT_WHAT@);
            return true;
        }
        i += 1;
    }
    assert forall|j: int| 0 <= j < text::split(what@, ":"@).len() implies text::split(what@, ":"@)[j] != INHIBIT_WHAT@ by {
        assert(text::texts(parts@)[j] == parts@[j]@);
    }
    false
}

/// Whether a row blocks idle for somebody else.
pub open spec fn is_foreign(row: InhibitorRow, own_pid: u32) -> bool {
    names_idle(row.what@) && row.mode@ == INHIBIT_MODE@ && row.pid != own_pid
}

/// Who blocks idle besides this process, as logind lists them.
pub open spec fn foreign_names(rows: Seq<InhibitorRow>, own_pid: u32) -> Seq<(Seq<char>, Seq<char>)>
    decreases rows.len(),
{
    if rows.len() == 0 {
        Seq::empty()
    } else if is_foreign(rows.last(), own_pid) {
        foreign_names(rows.drop_last(), own_pid).push((rows.last().who@, rows.last().why@))
    } else {
        foreign_names(rows.drop_last(), own_pid)
    }
}

/// Who blocks idle besides this process. Its own lock stands for holds that are named elsewhere.
pub fn foreign_idle_inhibitors(rows: &Vec<InhibitorRow>, own_pid: u32) -> (list: Vec<IdleInhibitor>)
    ensures
        named(list@) == foreign_names(rows@, own_pid),
{
    let mut list: Vec<IdleInhibitor> = Vec::new();
    let mut i: usize = 0;
    assert(rows@.subrange(0, 0) =~= Seq::<InhibitorRow>::empty());
    assert(named(list@) =~= Seq::<(Seq<char>, Seq<char>)>::empty());
    while i < rows.len()
        invariant
            i <= rows@.len(),
            named(list@) == foreign_names(rows@.subrange(0, i as int), own_pid),
        decreases rows@.len() - i,
    {
        let ghost before = list@;
        assert(rows@.subrange(0, i + 1).drop_last() =~= rows@.subrange(0, i as int));
        if blocks_idle(rows[i].what.as_str()) && text::same(rows[i].mode.as_str(), INHIBIT_MODE) && rows[i].pid
            != own_pid {
            list.push(IdleInhibitor { who: rows[i].who.clone(), why: rows[i].why.clone() });
            assert(named(list@) =~= named(before).push((rows@[i as int].who@, rows@[i as int].why@)));
        }
        i += 1;
    }
    assert(rows@.subrange(0, i as int) =~= rows@);
    list
}

/// Those named are the rows that block idle, `idle` being one of what they inhibit and their mode being
/// `block`, of other processes; all of them and in their order. Returns where they stood.
pub proof fn only_others_that_block_idle_are_named(rows: Seq<InhibitorRow>, own_pid: u32) -> (at: Seq<int>)
    ensures
        at.len() == foreign_names(rows, own_pid).len(),
        forall|i: int| 0 <= i < at.len() ==> 0 <= #[trigger] at[i] < rows.len() && (text::split(rows[at[i]].what@, ":"@).contains("idle"@) && rows[at[i]].mode@ == "block"@ && rows[at[i]].pid != own_pid),
        forall|i: int| 0 <= i < at.len() ==> (foreign_names(rows, own_pid)[i].0 == rows[#[trigger] at[i]].who@ && foreign_names(rows, own_pid)[i].1 == rows[at[i]].why@),
        forall|i: int, j: int| 0 <= i < j < at.len() ==> #[trigger] at[i] < #[trigger] at[j],
        forall|p: int| 0 <= p < rows.len() && (text::split((#[trigger] rows[p]).what@, ":"@).contains("idle"@) && (#[trigger] rows[p]).mode@ == "block"@ && (#[trigger] rows[p]).pid != own_pid) ==> at.contains(p),
    decreases rows.len(),
{
    if rows.len() == 0 {
        Seq::empty()
    } else {
        let shorter = rows.drop_last();
        let n = rows.len() - 1;
        let before = only_others_that_block_idle_are_named(rows.drop_last(), own_pid);
        assert forall|p: int| 0 <= p < n implies shorter[p] == #[trigger] rows[p] by {}
        if text::split(rows.last().what@, ":"@).contains("idle"@) && rows.last().mode@ == "block"@ && rows.last().pid != own_pid {
            let at = before.push(n);
            assert forall|p: int| 0 <= p < rows.len() && (text::split((#[trigger] rows[p]).what@, ":"@).contains("idle"@) && (#[trigger] rows[p]).mode@ == "block"@ && (#[trigger] rows[p]).pid != own_pid) implies at.contains(p) by {
                if p < n {
                    assert(shorter[p] == rows[p]);
                    let k = choose|k: int| 0 <= k < before.len() && before[k] == p;
                    assert(at[k] == p);
                } else {
                    assert(at[before.len() as int] == p);
                }
            }
            at
        } else {
            assert forall|p: int| 0 <= p < rows.len() && (text::split((#[trigger] rows[p]).what@, ":"@).contains("idle"@) && (#[trigger] rows[p]).mode@ == "block"@ && (#[trigger] rows[p]).pid != own_pid) implies before.contains(
                p,
            ) by {
                assert(p < n);
                assert(shorter[p] == rows[p]);
            }
            before
        }
    }
}

} // verus!
