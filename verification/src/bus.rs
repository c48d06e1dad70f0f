//! Carrying a run of commands out on a bus where a write can fail.
//!
//! A failed write does not stop the run: the commands after it are still
//! tried. Only a bus that has gone away ends it.

use vstd::prelude::*;

verus! {

/// How one write ended.
#[derive(Clone, Copy, Debug, PartialEq, Eq, Structural)]
pub enum WriteOutcome {
    /// The write went through.
    Written,
    /// The write failed; the bus is still there.
    Failed,
    /// The bus has gone away.
    Disconnected,
}

/// Whether one of the writes found the bus gone.
pub open spec fn bus_lost(outcomes: Seq<WriteOutcome>) -> bool {
    exists|i: int| 0 <= i < outcomes.len() && outcomes[i] == WriteOutcome::Disconnected
}

/// The command to try next, by its place in a run of `planned` commands:
/// the one after those tried so far, until all were tried or the bus is
/// gone.
pub open spec fn next_index(planned: nat, outcomes: Seq<WriteOutcome>) -> Option<nat> {
    if outcomes.len() < planned && !bus_lost(outcomes) {
        Some(outcomes.len())
    } else {
        None
    }
}

/// The places of the writes that did not go through, in rising order.
pub open spec fn failed_places(outcomes: Seq<WriteOutcome>) -> Seq<nat>
    decreases outcomes.len(),
{
    if outcomes.len() == 0 {
        Seq::empty()
    } else if outcomes.last() == WriteOutcome::Written {
        failed_places(outcomes.drop_last())
    } else {
        failed_places(outcomes.drop_last()).push((outcomes.len() - 1) as nat)
    }
}

/// Whether two outcomes are the same.
fn same_outcome(a: WriteOutcome, b: WriteOutcome) -> (same: bool)
    ensures
        same == (a == b),
{
    a == b
}

/// The place of the command to try next in a run of `planned` commands, of
/// which the first `outcomes.len()` were tried.
pub fn next_write(planned: usize, outcomes: &Vec<WriteOutcome>) -> (next: Option<usize>)
    ensures
        next.is_some() == next_index(planned as nat, outcomes@).is_some(),
        next matches Some(place) ==> next_index(planned as nat, outcomes@) == Some(place as nat),
        next matches Some(place) ==> place == outcomes@.len() && place < planned,
{
    if outcomes.len() >= planned {
        return None;
    }
    let mut i: usize = 0;
    while i < outcomes.len()
        invariant
            i <= outcomes.len(),
            forall|k: int| 0 <= k < i ==> outcomes@[k] != WriteOutcome::Disconnected,
        decreases outcomes.len() - i,
    {
        if same_outcome(outcomes[i], WriteOutcome::Disconnected) {
            return None;
        }
        i += 1;
    }
    Some(outcomes.len())
}

/// The places of the writes to report as failed.
pub fn failed_writes(outcomes: &Vec<WriteOutcome>) -> (places: Vec<usize>)
    ensures
        places@.len() == failed_places(outcomes@).len(),
        forall|k: int| 0 <= k < places@.len() ==> places@[k] as nat == failed_places(outcomes@)[k],
{
    let mut places: Vec<usize> = Vec::new();
    let mut i: usize = 0;
    proof {
        assert(outcomes@.take(0) =~= Seq::<WriteOutcome>::empty());
    }
    while i < outcomes.len()
        invariant
            i <= outcomes.len(),
            places@.len() == failed_places(outcomes@.take(i as int)).len(),
            forall|k: int|
                0 <= k < places@.len() ==> places@[k] as nat == failed_places(
                    outcomes@.take(i as int),
                )[k],
        decreases outcomes.len() - i,
    {
        proof {
            let grown = outcomes@.take(i as int + 1);
            assert(grown.drop_last() =~= outcomes@.take(i as int));
            assert(grown.last() == outcomes@[i as int]);
        }
        if !same_outcome(outcomes[i], WriteOutcome::Written) {
            places.push(i);
        }
        i += 1;
    }
    assert(outcomes@.take(i as int) =~= outcomes@);
    places
}

/// While the bus is there, a failed write does not end the run: every
/// command is tried in its turn.
pub proof fn lemma_failures_do_not_halt(planned: nat, outcomes: Seq<WriteOutcome>)
    requires
        outcomes.len() < planned,
        forall|i: int| 0 <= i < outcomes.len() ==> outcomes[i] != WriteOutcome::Disconnected,
    ensures
        next_index(planned, outcomes) == Some(outcomes.len()),
{
}

/// A run in which every write went through has nothing to report.
pub proof fn lemma_nothing_failed(outcomes: Seq<WriteOutcome>)
    requires
        forall|i: int| 0 <= i < outcomes.len() ==> outcomes[i] == WriteOutcome::Written,
    ensures
        failed_places(outcomes).len() == 0,
    decreases outcomes.len(),
{
    if outcomes.len() > 0 {
        lemma_nothing_failed(outcomes.drop_last());
    }
}

} // verus!
