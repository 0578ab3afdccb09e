//! The schedule on which the catalog is fetched anew.
//!
//! The library decides; its caller acts. The caller holds a
//! [`RefreshState`], tells [`update_database_step`] what happened, does what
//! the returned [`RefreshAction`] asks, and comes back with the outcome.

use crate::error::BotError;
use crate::storage::PaperDatabase;
use vstd::prelude::*;

verus! {

/// Where a refresh cycle stands.
#[derive(Clone, Copy, Debug, Eq, PartialEq)]
pub enum RefreshState {
    /// Between two cycles.
    Idle,
    /// The catalog has been asked for.
    Fetching,
    /// A new catalog has come and is being put in place.
    Replacing,
}

/// What the caller reports.
pub enum RefreshEvent {
    /// The period has passed.
    Tick,
    /// The source answered with this catalog.
    Fetched(PaperDatabase),
    /// The source could not be reached or answered with no catalog.
    FetchFailed(BotError),
    /// The new catalog is in place and holds this many papers.
    Replaced(usize),
}

/// What the caller is to do next.
pub enum RefreshAction {
    /// Nothing.
    Wait,
    /// Ask the source for the catalog.
    Fetch,
    /// Put this catalog in the place of the old one, all of it at once.
    Replace(PaperDatabase),
    /// Record that the catalog was refreshed and holds this many papers.
    ReportSuccess(usize),
    /// Record that the refresh failed. The old catalog stays as it is.
    ReportFailure(BotError),
}

/// The next state and the action for an event in a state.
///
/// A cycle runs from [`RefreshState::Idle`] over
/// [`RefreshState::Fetching`] and, where the fetch succeeded,
/// [`RefreshState::Replacing`] back to [`RefreshState::Idle`]. An event
/// that does not belong to the state, such as a tick while a cycle is
/// under way, changes nothing.
pub open spec fn spec_update_database_step(state: RefreshState, event: RefreshEvent) -> (
    RefreshState,
    RefreshAction,
) {
    match (state, event) {
        (RefreshState::Idle, RefreshEvent::Tick) => (RefreshState::Fetching, RefreshAction::Fetch),
        (RefreshState::Fetching, RefreshEvent::Fetched(papers)) => (
            RefreshState::Replacing,
            RefreshAction::Replace(papers),
        ),
        (RefreshState::Fetching, RefreshEvent::FetchFailed(error)) => (
            RefreshState::Idle,
            RefreshAction::ReportFailure(error),
        ),
        (RefreshState::Replacing, RefreshEvent::Replaced(size)) => (
            RefreshState::Idle,
            RefreshAction::ReportSuccess(size),
        ),
        (state, _) => (state, RefreshAction::Wait),
    }
}

/// Decides what follows `event` in `state`.
pub fn update_database_step(state: RefreshState, event: RefreshEvent) -> (result: (
    RefreshState,
    RefreshAction,
))
    ensures
        result == spec_update_database_step(state, event),
{
    match state {
        RefreshState::Idle => match event {
            RefreshEvent::Tick => (RefreshState::Fetching, RefreshAction::Fetch),
            _ => (RefreshState::Idle, RefreshAction::Wait),
        },
        RefreshState::Fetching => match event {
            RefreshEvent::Fetched(papers) => (
                RefreshState::Replacing,
                RefreshAction::Replace(papers),
            ),
            RefreshEvent::FetchFailed(error) => (
                RefreshState::Idle,
                RefreshAction::ReportFailure(error),
            ),
            _ => (RefreshState::Fetching, RefreshAction::Wait),
        },
        RefreshState::Replacing => match event {
            RefreshEvent::Replaced(size) => (RefreshState::Idle, RefreshAction::ReportSuccess(size)),
            _ => (RefreshState::Replacing, RefreshAction::Wait),
        },
    }
}

/// A new catalog is put in place only when a fetch has succeeded, and it
/// is the catalog that was fetched. Whatever else happens, a failed fetch
/// among it, leaves the catalog alone.
pub proof fn lemma_only_a_fetched_catalog_replaces(state: RefreshState, event: RefreshEvent)
    ensures
        spec_update_database_step(state, event).1 is Replace <==> state is Fetching
            && event is Fetched,
        spec_update_database_step(state, event).1 matches RefreshAction::Replace(papers)
            ==> event == RefreshEvent::Fetched(papers),
{
}

/// No cycle starts while another is under way: a tick counts in
/// [`RefreshState::Idle`] only.
pub proof fn lemma_cycles_do_not_overlap(state: RefreshState)
    ensures
        spec_update_database_step(state, RefreshEvent::Tick).1 is Fetch <==> state is Idle,
        !(state is Idle) ==> spec_update_database_step(state, RefreshEvent::Tick) == (
            state,
            RefreshAction::Wait,
        ),
{
}

} // verus!
