//! Keeping the list of departures that the displays read up to date.
//!
//! Fetching runs on a slow cadence of its own; the displays are redrawn on a
//! fast one and always read the list published last. A fetch that fails
//! leaves that list in place. A published list is never changed, only
//! replaced as a whole, so that a reader shares it instead of copying it.

use std::sync::Arc;
use vstd::prelude::*;
use crate::errors::SourceError;
use crate::time::Departure;

verus! {

/// Seconds between two fetches.
pub const REFRESH_SECONDS: u64 = 60;

/// Milliseconds between two redraws.
pub const RENDER_MILLIS: u64 = 250;

/// What one fetch came back with, the departures as a sequence.
pub open spec fn outcome_of(fetched: Result<Vec<Departure>, SourceError>) -> Result<
    Seq<Departure>,
    SourceError,
> {
    match fetched {
        Ok(departures) => Ok(departures@),
        Err(error) => Err(error),
    }
}

/// The list published after one fetch: the fetched one, or on failure the
/// one from before.
pub open spec fn after_fetch(published: Seq<Departure>, outcome: Result<Seq<Departure>, SourceError>) -> Seq<
    Departure,
> {
    match outcome {
        Ok(departures) => departures,
        Err(_) => published,
    }
}

/// The list published after a run of fetches.
pub open spec fn after_fetches(
    published: Seq<Departure>,
    outcomes: Seq<Result<Seq<Departure>, SourceError>>,
) -> Seq<Departure>
    decreases outcomes.len(),
{
    if outcomes.len() == 0 {
        published
    } else {
        after_fetch(after_fetches(published, outcomes.drop_last()), outcomes.last())
    }
}

/// `Arc::clone` of std makes one more pointer to the same list.
#[verifier::external_body]
fn share(list: &Arc<Vec<Departure>>) -> (shared: Arc<Vec<Departure>>)
    ensures
        shared == *list,
{
    Arc::clone(list)
}

/// The list of departures published last.
pub struct RefreshCoordinator {
    published: Arc<Vec<Departure>>,
}

impl View for RefreshCoordinator {
    type V = Seq<Departure>;

    closed spec fn view(&self) -> Seq<Departure> {
        (*self.published)@
    }
}

impl RefreshCoordinator {
    /// A coordinator that has published `departures`.
    pub fn new(departures: Vec<Departure>) -> (coordinator: RefreshCoordinator)
        ensures
            coordinator@ == departures@,
    {
        RefreshCoordinator { published: Arc::new(departures) }
    }

    /// Takes in what a fetch came back with. A list replaces the published
    /// one as a whole; a failure leaves it as it is and is handed back to be
    /// reported.
    pub fn publish(&mut self, fetched: Result<Vec<Departure>, SourceError>) -> (report: Option<
        SourceError,
    >)
        ensures
            final(self)@ == after_fetch(old(self)@, outcome_of(fetched)),
            report == match fetched {
                Ok(_) => None,
                Err(error) => Some(error),
            },
    {
        match fetched {
            Ok(departures) => {
                self.published = Arc::new(departures);
                None
            },
            Err(error) => Some(error),
        }
    }

    /// The published list, for one redraw: shared with the coordinator, not
    /// copied.
    pub fn snapshot(&self) -> (departures: Arc<Vec<Departure>>)
        ensures
            (*departures)@ == self@,
    {
        share(&self.published)
    }
}

/// However many fetches fail in a row, the published list stays the one
/// from before them.
pub proof fn lemma_failures_keep_snapshot(
    published: Seq<Departure>,
    outcomes: Seq<Result<Seq<Departure>, SourceError>>,
)
    requires
        forall|i: int| 0 <= i < outcomes.len() ==> outcomes[i].is_err(),
    ensures
        after_fetches(published, outcomes) == published,
    decreases outcomes.len(),
{
    if outcomes.len() > 0 {
        lemma_failures_keep_snapshot(published, outcomes.drop_last());
    }
}

/// After a fetch that succeeds, failures keep its list published.
pub proof fn lemma_last_success_stays(
    published: Seq<Departure>,
    fetched: Seq<Departure>,
    failures: Seq<Result<Seq<Departure>, SourceError>>,
)
    requires
        forall|i: int| 0 <= i < failures.len() ==> failures[i].is_err(),
    ensures
        after_fetches(after_fetch(published, Ok(fetched)), failures) == fetched,
{
    lemma_failures_keep_snapshot(fetched, failures);
}

} // verus!
