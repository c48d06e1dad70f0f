//! Choosing the departure to count down to.

use vstd::prelude::*;
use crate::time::{remaining_until, time_until, Departure, Remaining, Timestamp};

verus! {

/// Minutes from which on the clock cannot show the time left: it has two
/// digits for them.
pub const MINUTES_LIMIT: i64 = 100;

/// What the clock is to show.
#[derive(Clone, Copy, Debug, PartialEq, Eq, Structural)]
pub enum SelectorResult {
    /// Count down this time.
    Show(Remaining),
    /// Nothing to show.
    Empty,
}

/// The time left that is looked at: that of the first departure, or that of
/// the second where the first leaves in fewer than `min_lead_minutes` whole
/// minutes. No departure beyond the second is looked at.
pub open spec fn candidate(snapshot: Seq<Departure>, now: Timestamp, min_lead_minutes: i64) -> Option<
    Remaining,
> {
    if snapshot.len() == 0 {
        None
    } else if remaining_until(snapshot[0], now).minutes >= min_lead_minutes {
        Some(remaining_until(snapshot[0], now))
    } else if snapshot.len() > 1 {
        Some(remaining_until(snapshot[1], now))
    } else {
        None
    }
}

/// Whether a time left is shown: its whole minutes lie strictly between the
/// lead time and the limit of the clock.
pub open spec fn in_window(left: Remaining, min_lead_minutes: i64) -> bool {
    min_lead_minutes < left.minutes < MINUTES_LIMIT
}

/// The choice between showing a departure and showing nothing.
pub open spec fn selection(snapshot: Seq<Departure>, now: Timestamp, min_lead_minutes: i64) -> SelectorResult {
    match candidate(snapshot, now, min_lead_minutes) {
        Some(left) => if in_window(left, min_lead_minutes) {
            SelectorResult::Show(left)
        } else {
            SelectorResult::Empty
        },
        None => SelectorResult::Empty,
    }
}

/// Chooses what the clock shows at `now`.
pub fn select(snapshot: &Vec<Departure>, now: &Timestamp, min_lead_minutes: i64) -> (result:
    SelectorResult)
    ensures
        result == selection(snapshot@, *now, min_lead_minutes),
        snapshot@.len() == 0 ==> result == SelectorResult::Empty,
        result matches SelectorResult::Show(left) ==> min_lead_minutes < left.minutes < MINUTES_LIMIT
            && -60 < left.seconds < 60 && (min_lead_minutes >= 0 ==> left.seconds >= 0),
{
    if snapshot.len() == 0 {
        return SelectorResult::Empty;
    }
    let mut left: Remaining = time_until(&snapshot[0], now);
    if left.minutes < min_lead_minutes {
        if snapshot.len() > 1 {
            left = time_until(&snapshot[1], now);
        } else {
            return SelectorResult::Empty;
        }
    }
    if min_lead_minutes < left.minutes && left.minutes < MINUTES_LIMIT {
        SelectorResult::Show(left)
    } else {
        SelectorResult::Empty
    }
}

/// Where the first departure leaves in fewer whole minutes than the lead
/// time and a second one is known, the choice is made on the second alone.
pub proof fn lemma_second_departure_selected(
    snapshot: Seq<Departure>,
    now: Timestamp,
    min_lead_minutes: i64,
)
    requires
        snapshot.len() >= 2,
        remaining_until(snapshot[0], now).minutes < min_lead_minutes,
    ensures
        candidate(snapshot, now, min_lead_minutes) == Some(remaining_until(snapshot[1], now)),
        selection(snapshot, now, min_lead_minutes) == if in_window(
            remaining_until(snapshot[1], now),
            min_lead_minutes,
        ) {
            SelectorResult::Show(remaining_until(snapshot[1], now))
        } else {
            SelectorResult::Empty
        },
        selection(snapshot, now, min_lead_minutes) != SelectorResult::Show(
            remaining_until(snapshot[0], now),
        ),
{
}

/// A time left of exactly the lead time is not shown, and neither is one of
/// a hundred minutes or more: both bounds are strict.
pub proof fn lemma_window_is_strict(snapshot: Seq<Departure>, now: Timestamp, min_lead_minutes: i64)
    ensures
        candidate(snapshot, now, min_lead_minutes) matches Some(left) && (left.minutes
            == min_lead_minutes || left.minutes >= MINUTES_LIMIT) ==> selection(
            snapshot,
            now,
            min_lead_minutes,
        ) == SelectorResult::Empty,
        selection(snapshot, now, min_lead_minutes) matches SelectorResult::Show(left)
            ==> min_lead_minutes < left.minutes < MINUTES_LIMIT,
{
}

} // verus!
