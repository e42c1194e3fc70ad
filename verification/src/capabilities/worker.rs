//! Workers: controllers whose construction and signal handling wait on another service.

use vstd::prelude::*;

use super::bluetooth::BluetoothSignal;
use super::network::NetworkSignal;

verus! {

/// The first value of each run of equal neighbours.
pub open spec fn runs<T>(burst: Seq<T>) -> Seq<T>
    decreases burst.len(),
{
    if burst.len() <= 1 {
        burst
    } else if burst[burst.len() - 2] == burst.last() {
        runs(burst.drop_last())
    } else {
        runs(burst.drop_last()).push(burst.last())
    }
}

/// Keeps the first signal of each run; `same` tells whether two signals are equal.
fn first_of_each_run<T: Copy, F: Fn(T, T) -> bool>(burst: &Vec<T>, same: F) -> (signals: Vec<T>)
    requires
        forall|a: T, b: T| #[trigger] call_requires(same, (a, b)),
        forall|a: T, b: T, equal: bool| #[trigger] call_ensures(same, (a, b), equal) ==> equal == (a == b),
    ensures
        signals@ == runs(burst@),
{
    let mut signals: Vec<T> = Vec::new();
    let mut i: usize = 0;
    assert(burst@.subrange(0, 0) =~= Seq::<T>::empty());
    while i < burst.len()
        invariant
            i <= burst@.len(),
            signals@ == runs(burst@.subrange(0, i as int)),
            forall|a: T, b: T| #[trigger] call_requires(same, (a, b)),
            forall|a: T, b: T, equal: bool| #[trigger] call_ensures(same, (a, b), equal) ==> equal == (a == b),
        decreases burst@.len() - i,
    {
        let ghost next = burst@.subrange(0, i + 1);
        assert(next.drop_last() =~= burst@.subrange(0, i as int));
        if i == 0 || !same(burst[i - 1], burst[i]) {
            signals.push(burst[i]);
        }
        assert(i == 0 ==> burst@.subrange(0, 0) =~= Seq::<T>::empty());
        assert(i == 0 ==> next =~= seq![burst@[0]]);
        i += 1;
    }
    assert(burst@.subrange(0, i as int) =~= burst@);
    signals
}

fn same_network_signal(a: NetworkSignal, b: NetworkSignal) -> (equal: bool)
    ensures
        equal == (a == b),
{
    a == b
}

fn same_bluetooth_signal(a: BluetoothSignal, b: BluetoothSignal) -> (equal: bool)
    ensures
        equal == (a == b),
{
    a == b
}

/// What a burst of signals comes down to: every handler re-reads the live service, so one pass
/// covers a run of the same signal.
pub fn network_burst(burst: &Vec<NetworkSignal>) -> (signals: Vec<NetworkSignal>)
    ensures
        signals@ == runs(burst@),
{
    first_of_each_run(burst, same_network_signal)
}

/// [`network_burst`] for Bluetooth.
pub fn bluetooth_burst(burst: &Vec<BluetoothSignal>) -> (signals: Vec<BluetoothSignal>)
    ensures
        signals@ == runs(burst@),
{
    first_of_each_run(burst, same_bluetooth_signal)
}

proof fn lemma_runs<T>(burst: Seq<T>)
    ensures
        runs(burst).len() <= burst.len(),
        burst.len() > 0 ==> runs(burst).len() > 0 && runs(burst).last() == burst.last(),
    decreases burst.len(),
{
    if burst.len() > 1 {
        lemma_runs(burst.drop_last());
    }
}

/// No signal of a burst is lost, and no two neighbours of what is left are equal.
pub proof fn a_burst_keeps_every_signal_and_repeats_none<T>(burst: Seq<T>, i: int)
    ensures
        0 <= i < burst.len() ==> runs(burst).contains(burst[i]),
        0 < i < runs(burst).len() ==> runs(burst)[i - 1] != runs(burst)[i],
    decreases burst.len(),
{
    lemma_runs(burst);
    if burst.len() > 1 {
        let shorter = burst.drop_last();
        lemma_runs(shorter);
        a_burst_keeps_every_signal_and_repeats_none(shorter, i);
        if 0 <= i < burst.len() {
            if i == burst.len() - 1 {
                assert(runs(burst)[runs(burst).len() - 1] == burst[i]);
            } else {
                let at = choose|k: int| 0 <= k < runs(shorter).len() && runs(shorter)[k] == burst[i];
                assert(runs(burst)[at] == burst[i]);
            }
        }
    } else if 0 <= i < burst.len() {
        assert(runs(burst)[i] == burst[i]);
    }
}

} // verus!
