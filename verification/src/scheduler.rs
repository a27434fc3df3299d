//! The cancellation scheduler: what it holds, what each event and each answer
//! of the chain does to it, and the functions that do so.

use crate::canceller::Canceller;
use crate::error::Error;
use crate::primitives::{AccountId, H256};
use crate::requests::{
    active_requests_spec, drain_expired, expired_requests, remove_cancelled, remove_executed,
    requests_without, to_active_requests, without_first, ActiveRequest, ListState,
    UnconvertedOpenTime,
};
use vstd::prelude::*;

verus! {

/// What the scheduler is told of the chains, one event at a time.
#[derive(Clone, Copy, Debug, PartialEq, Eq)]
pub enum Event {
    /// A request was opened, or the chain's parameters may have changed.
    Opened,
    /// The request with this identifier was executed.
    Executed(H256),
    /// The parachain has reached this height.
    ParachainBlock(u32),
    /// Bitcoin has reached this height.
    BitcoinBlock(u32),
}

/// The scheduler asks for the requests that the chain holds for its vault.
#[derive(Debug)]
pub struct OpenRequestsQuery {
    /// The vault whose requests are asked for.
    pub vault_id: AccountId,
    /// The event that is handled once the list is known.
    pub event: Event,
}

/// The scheduler asks for the cancellation period, which it has not cached.
#[derive(Debug)]
pub struct PeriodQuery {
    /// The event that is handled once the list is known.
    pub event: Event,
    /// The open requests that wait for their deadlines.
    pub open_requests: Vec<UnconvertedOpenTime>,
}

/// The scheduler asks the chain to cancel one expired request. The request
/// and those that wait behind it stay in the list until they are cancelled.
#[derive(Debug)]
pub struct Cancellation {
    /// The request to cancel now.
    pub request: ActiveRequest,
    /// The expired requests to cancel after it, in the order of the list.
    pub remaining: Vec<ActiveRequest>,
}

/// Where the handling of one event stands: a call that the scheduler needs
/// made on the chain before it can go on, or the event's result.
#[derive(Debug)]
pub enum Step {
    /// The requests that the chain holds for the vault are to be fetched,
    /// and handed to `open_requests_received`.
    GetOpenRequests(OpenRequestsQuery),
    /// The cancellation period is to be fetched, and handed to
    /// `period_received`.
    GetPeriod(PeriodQuery),
    /// A request is to be cancelled, and the outcome handed to
    /// `cancellation_resolved`.
    CancelRequest(Cancellation),
    /// The event is handled: the list's new state, or the error that ends
    /// the scheduler's run.
    Done(Result<ListState, Error>),
}

/// A `Step` as contracts see it.
pub enum StepView {
    GetOpenRequests { vault_id: AccountId, event: Event },
    GetPeriod { event: Event, open_requests: Seq<UnconvertedOpenTime> },
    CancelRequest { request: ActiveRequest, remaining: Seq<ActiveRequest> },
    Done(Result<ListState, Error>),
}

impl View for Step {
    type V = StepView;

    open spec fn view(&self) -> StepView {
        match *self {
            Step::GetOpenRequests(query) => StepView::GetOpenRequests {
                vault_id: query.vault_id,
                event: query.event,
            },
            Step::GetPeriod(query) => StepView::GetPeriod {
                event: query.event,
                open_requests: query.open_requests@,
            },
            Step::CancelRequest(cancellation) => StepView::CancelRequest {
                request: cancellation.request,
                remaining: cancellation.remaining@,
            },
            Step::Done(result) => StepView::Done(result),
        }
    }
}

/// The scheduler's own state as contracts see it.
pub struct SchedulerState<P> {
    pub parachain_rpc: P,
    pub vault_id: AccountId,
    /// The cancellation period, once it has been fetched.
    pub period: Option<u32>,
    pub parachain_height: u32,
    pub bitcoin_height: u32,
}

/// The state in which a function of the scheduler leaves the scheduler and
/// the list of active requests, and the step that it returns.
pub struct Outcome<P> {
    pub scheduler: SchedulerState<P>,
    pub active_requests: Seq<ActiveRequest>,
    pub step: StepView,
}

/// The step that cancels a batch of expired requests one by one: the first
/// of them, or a valid list where the batch is empty.
pub open spec fn next_cancellation(expired: Seq<ActiveRequest>) -> StepView {
    if expired.len() == 0 {
        StepView::Done(Ok(ListState::Valid))
    } else {
        StepView::CancelRequest { request: expired[0], remaining: expired.skip(1) }
    }
}

/// Draining: the expired requests are cancelled in turn, in the order of the
/// list. Each stays in the list, at its place, until the chain has cancelled
/// it.
pub open spec fn cancel_requests_spec<P>(
    scheduler: SchedulerState<P>,
    active_requests: Seq<ActiveRequest>,
) -> Outcome<P> {
    Outcome {
        scheduler,
        active_requests,
        step: next_cancellation(
            expired_requests(active_requests, scheduler.parachain_height, scheduler.bitcoin_height),
        ),
    }
}

/// The scheduler once it has stored the height that a block event brings.
/// Other events leave it as it is.
pub open spec fn at_height<P>(scheduler: SchedulerState<P>, event: Event) -> SchedulerState<P> {
    match event {
        Event::ParachainBlock(height) => SchedulerState { parachain_height: height, ..scheduler },
        Event::BitcoinBlock(height) => SchedulerState { bitcoin_height: height, ..scheduler },
        _ => scheduler,
    }
}

/// What an event does to a list that is up to date.
pub open spec fn dispatch_spec<P>(
    scheduler: SchedulerState<P>,
    event: Event,
    active_requests: Seq<ActiveRequest>,
) -> Outcome<P> {
    match event {
        Event::ParachainBlock(_) | Event::BitcoinBlock(_) => cancel_requests_spec(
            at_height(scheduler, event),
            active_requests,
        ),
        Event::Executed(id) => Outcome {
            scheduler,
            active_requests: requests_without(active_requests, id),
            step: StepView::Done(Ok(ListState::Valid)),
        },
        Event::Opened => Outcome {
            scheduler,
            active_requests,
            step: StepView::Done(Ok(ListState::Invalid)),
        },
    }
}

/// A refresh that failed on a query is no error. It leaves an empty list,
/// which stays invalid whatever the event is, so that the next event tries
/// again. A new height is stored all the same.
pub open spec fn refresh_failed_spec<P>(scheduler: SchedulerState<P>, event: Event) -> Outcome<P> {
    Outcome {
        scheduler: at_height(scheduler, event),
        active_requests: Seq::empty(),
        step: StepView::Done(Ok(ListState::Invalid)),
    }
}

/// A refresh with the period known: the open requests get their deadlines
/// and become the list, which then meets the event. A deadline that does not
/// fit ends the run and leaves the list empty.
pub open spec fn refresh_spec<P>(
    scheduler: SchedulerState<P>,
    event: Event,
    open_requests: Seq<UnconvertedOpenTime>,
    period: u32,
) -> Outcome<P> {
    match active_requests_spec(open_requests, period) {
        Ok(requests) => dispatch_spec(scheduler, event, requests),
        Err(e) => Outcome {
            scheduler,
            active_requests: Seq::empty(),
            step: StepView::Done(Err(e)),
        },
    }
}

/// What the scheduler does with an event: with a stale list it first asks
/// the chain for the vault's requests.
pub open spec fn process_event_spec<P>(
    scheduler: SchedulerState<P>,
    event: Event,
    active_requests: Seq<ActiveRequest>,
    list_state: ListState,
) -> Outcome<P> {
    match list_state {
        ListState::Invalid => Outcome {
            scheduler,
            active_requests,
            step: StepView::GetOpenRequests { vault_id: scheduler.vault_id, event },
        },
        ListState::Valid => dispatch_spec(scheduler, event, active_requests),
    }
}

/// What the scheduler does with the event queue's next delivery: it handles
/// an event, and ends its run once the queue is closed.
pub open spec fn handle_cancellation_spec<P>(
    scheduler: SchedulerState<P>,
    received: Option<Event>,
    active_requests: Seq<ActiveRequest>,
    list_state: ListState,
) -> Outcome<P> {
    match received {
        Some(event) => process_event_spec(scheduler, event, active_requests, list_state),
        None => Outcome {
            scheduler,
            active_requests,
            step: StepView::Done(Err(Error::ChannelClosed)),
        },
    }
}

/// What the scheduler does once the chain has answered for the vault's
/// requests: `None` stands for a query that failed, `Some` for the open
/// requests among those that the chain reported.
pub open spec fn open_requests_received_spec<P>(
    scheduler: SchedulerState<P>,
    event: Event,
    active_requests: Seq<ActiveRequest>,
    reply: Option<Seq<UnconvertedOpenTime>>,
) -> Outcome<P> {
    match reply {
        None => refresh_failed_spec(scheduler, event),
        Some(open_requests) => if open_requests.len() == 0 {
            dispatch_spec(scheduler, event, Seq::empty())
        } else {
            match scheduler.period {
                Some(period) => refresh_spec(scheduler, event, open_requests, period),
                None => Outcome {
                    scheduler,
                    active_requests,
                    step: StepView::GetPeriod { event, open_requests },
                },
            }
        },
    }
}

/// The period that a scheduler uses once the chain has reported `fetched`:
/// the one it had cached, if any.
pub open spec fn cached_period(cached: Option<u32>, fetched: u32) -> u32 {
    match cached {
        Some(period) => period,
        None => fetched,
    }
}

/// What the scheduler does once the chain has answered for the period:
/// `None` stands for a query that failed.
pub open spec fn period_received_spec<P>(
    scheduler: SchedulerState<P>,
    event: Event,
    open_requests: Seq<UnconvertedOpenTime>,
    reply: Option<u32>,
) -> Outcome<P> {
    match reply {
        None => refresh_failed_spec(scheduler, event),
        Some(fetched) => {
            let period = cached_period(scheduler.period, fetched);
            refresh_spec(
                SchedulerState { period: Some(period), ..scheduler },
                event,
                open_requests,
                period,
            )
        },
    }
}

/// What becomes of the list and of the batch once the chain has answered a
/// cancellation. After a success the request leaves the list and the next
/// expired request is cancelled. After a failure the list is left as it is:
/// the request and those that wait behind it keep their places, and the list
/// is stale from then on.
pub open spec fn cancellation_resolved_spec(
    active_requests: Seq<ActiveRequest>,
    request: ActiveRequest,
    remaining: Seq<ActiveRequest>,
    cancelled: bool,
) -> (Seq<ActiveRequest>, StepView) {
    if cancelled {
        (without_first(active_requests, request), next_cancellation(remaining))
    } else {
        (active_requests, StepView::Done(Ok(ListState::Invalid)))
    }
}

/// Follows the expiry of a vault's open issue or replace requests on both
/// chains, and has each cancelled once both chains are past its deadline.
///
/// The scheduler makes no call on the chain itself. Handling an event
/// returns a `Step`: either a call that the scheduler needs made, whose
/// answer is handed back to it for the next step, or the event's result.
pub struct CancellationScheduler<P> {
    parachain_rpc: P,
    vault_id: AccountId,
    period: Option<u32>,
    parachain_height: u32,
    bitcoin_height: u32,
}

impl<P> View for CancellationScheduler<P> {
    type V = SchedulerState<P>;

    closed spec fn view(&self) -> SchedulerState<P> {
        SchedulerState {
            parachain_rpc: self.parachain_rpc,
            vault_id: self.vault_id,
            period: self.period,
            parachain_height: self.parachain_height,
            bitcoin_height: self.bitcoin_height,
        }
    }
}

/// The step that cancels `expired` one by one.
fn start_cancellations(expired: Vec<ActiveRequest>) -> (step: Step)
    ensures
        step@ == next_cancellation(expired@),
{
    if expired.len() == 0 {
        Step::Done(Ok(ListState::Valid))
    } else {
        let mut remaining = expired;
        let request = remaining.remove(0);
        Step::CancelRequest(Cancellation { request, remaining })
    }
}

impl<P> CancellationScheduler<P> {
    /// A scheduler for the vault `vault_id` that knows the current height of
    /// both chains and has not yet fetched the cancellation period.
    pub fn new(
        parachain_rpc: P,
        parachain_height: u32,
        bitcoin_height: u32,
        vault_id: AccountId,
    ) -> (scheduler: CancellationScheduler<P>)
        ensures
            scheduler@ == (SchedulerState {
                parachain_rpc,
                vault_id,
                period: None,
                parachain_height,
                bitcoin_height,
            }),
    {
        CancellationScheduler {
            parachain_rpc,
            vault_id,
            period: None,
            bitcoin_height,
            parachain_height,
        }
    }

    /// The handle on which the scheduler's calls are to be made.
    pub fn parachain_rpc(&self) -> (parachain_rpc: &P)
        ensures
            *parachain_rpc == self@.parachain_rpc,
    {
        &self.parachain_rpc
    }

    /// The vault whose requests the scheduler follows.
    pub fn vault_id(&self) -> (vault_id: AccountId)
        ensures
            vault_id == self@.vault_id,
    {
        self.vault_id
    }

    /// The cancellation period, if it has been fetched.
    pub fn period(&self) -> (period: Option<u32>)
        ensures
            period == self@.period,
    {
        self.period
    }

    /// The last parachain height that the scheduler was told.
    pub fn parachain_height(&self) -> (height: u32)
        ensures
            height == self@.parachain_height,
    {
        self.parachain_height
    }

    /// The last Bitcoin height that the scheduler was told.
    pub fn bitcoin_height(&self) -> (height: u32)
        ensures
            height == self@.bitcoin_height,
    {
        self.bitcoin_height
    }

    /// Takes what the event queue delivered: the next event, which is
    /// handled as `process_event` does, or nothing once the queue is closed.
    /// A closed queue ends the run with `Error::ChannelClosed`; nothing is
    /// changed and no call is asked for.
    pub fn handle_cancellation(
        &mut self,
        received: Option<Event>,
        active_requests: &mut Vec<ActiveRequest>,
        list_state: ListState,
    ) -> (step: Step)
        ensures
            (Outcome {
                scheduler: final(self)@,
                active_requests: final(active_requests)@,
                step: step@,
            }) == handle_cancellation_spec(
                old(self)@,
                received,
                old(active_requests)@,
                list_state,
            ),
            received is None ==> step@ == StepView::Done(Err(Error::ChannelClosed)) && final(self)@
                == old(self)@ && final(active_requests)@ == old(active_requests)@,
    {
        match received {
            Some(event) => self.process_event(event, active_requests, list_state),
            None => Step::Done(Err(Error::ChannelClosed)),
        }
    }

    /// Handles one event. With a valid list the event takes effect at once.
    /// With an invalid list the scheduler first asks for the vault's
    /// requests, and the event takes effect once the list is refreshed.
    pub fn process_event(
        &mut self,
        event: Event,
        active_requests: &mut Vec<ActiveRequest>,
        list_state: ListState,
    ) -> (step: Step)
        ensures
            (Outcome {
                scheduler: final(self)@,
                active_requests: final(active_requests)@,
                step: step@,
            }) == process_event_spec(old(self)@, event, old(active_requests)@, list_state),
    {
        match list_state {
            ListState::Invalid => Step::GetOpenRequests(
                OpenRequestsQuery { vault_id: self.vault_id, event },
            ),
            ListState::Valid => self.dispatch_event(event, active_requests),
        }
    }

    /// Lets an event take effect on a list that is up to date: a new height
    /// is stored and the expired requests are drained, an executed request
    /// leaves the list, and an opened request makes the list stale.
    pub fn dispatch_event(
        &mut self,
        event: Event,
        active_requests: &mut Vec<ActiveRequest>,
    ) -> (step: Step)
        ensures
            (Outcome {
                scheduler: final(self)@,
                active_requests: final(active_requests)@,
                step: step@,
            }) == dispatch_spec(old(self)@, event, old(active_requests)@),
    {
        match event {
            Event::ParachainBlock(_) | Event::BitcoinBlock(_) => {
                self.store_height(event);
                self.cancel_requests(active_requests)
            },
            Event::Executed(id) => {
                remove_executed(active_requests, &id);
                Step::Done(Ok(ListState::Valid))
            },
            Event::Opened => Step::Done(Ok(ListState::Invalid)),
        }
    }

    /// Stores the height that a block event brings.
    fn store_height(&mut self, event: Event)
        ensures
            final(self)@ == at_height(old(self)@, event),
    {
        match event {
            Event::ParachainBlock(height) => {
                self.parachain_height = height;
            },
            Event::BitcoinBlock(height) => {
                self.bitcoin_height = height;
            },
            _ => {},
        }
    }

    /// Gives up a refresh after a query has failed: the list is emptied and
    /// stays invalid, and a new height is stored.
    fn refresh_failed(
        &mut self,
        event: Event,
        active_requests: &mut Vec<ActiveRequest>,
    ) -> (step: Step)
        ensures
            (Outcome {
                scheduler: final(self)@,
                active_requests: final(active_requests)@,
                step: step@,
            }) == refresh_failed_spec(old(self)@, event),
    {
        active_requests.clear();
        self.store_height(event);
        Step::Done(Ok(ListState::Invalid))
    }

    /// Starts to cancel the requests that have expired on both chains: those
    /// that a drain takes out of the list, in the order in which they stand.
    /// The list itself is left as it is: a request leaves it once the chain
    /// has cancelled it. With nothing expired the list is valid.
    pub fn cancel_requests(&self, active_requests: &mut Vec<ActiveRequest>) -> (step: Step)
        ensures
            (Outcome { scheduler: self@, active_requests: final(active_requests)@, step: step@ })
                == cancel_requests_spec(self@, old(active_requests)@),
    {
        let mut unexpired = active_requests.clone();
        let cancellable_requests = drain_expired(
            &mut unexpired,
            self.parachain_height,
            self.bitcoin_height,
        );
        start_cancellations(cancellable_requests)
    }

    /// Takes the chain's answer to a cancellation. After a success the
    /// request leaves the list, the next expired request of the batch is
    /// cancelled, and the list is valid once the batch is done. After a
    /// failure no further request is cancelled: the request and the rest of
    /// the batch stay in the list where they stand, and the list is invalid.
    pub fn cancellation_resolved<E>(
        &self,
        cancellation: Cancellation,
        reply: Result<(), E>,
        active_requests: &mut Vec<ActiveRequest>,
    ) -> (step: Step)
        ensures
            (final(active_requests)@, step@) == cancellation_resolved_spec(
                old(active_requests)@,
                cancellation.request,
                cancellation.remaining@,
                reply is Ok,
            ),
    {
        let Cancellation { request, remaining } = cancellation;
        match reply {
            Ok(_) => {
                remove_cancelled(active_requests, &request);
                start_cancellations(remaining)
            },
            Err(_) => Step::Done(Ok(ListState::Invalid)),
        }
    }

    /// The period to compute deadlines with, given the one that the chain
    /// reported: the cached period if there is one, else `fetched`, which is
    /// cached from then on.
    pub fn get_cached_period(&mut self, fetched: u32) -> (period: u32)
        ensures
            period == cached_period(old(self)@.period, fetched),
            final(self)@ == (SchedulerState { period: Some(period), ..old(self)@ }),
    {
        match self.period {
            Some(period) => period,
            None => {
                self.period = Some(fetched);
                fetched
            },
        }
    }

    /// Replaces the list by the open requests with their deadlines under
    /// `period`, and lets the event take effect on it. A deadline that does
    /// not fit leaves an empty list and ends the run with the overflow.
    fn refresh(
        &mut self,
        event: Event,
        open_requests: &Vec<UnconvertedOpenTime>,
        period: u32,
        active_requests: &mut Vec<ActiveRequest>,
    ) -> (step: Step)
        ensures
            (Outcome {
                scheduler: final(self)@,
                active_requests: final(active_requests)@,
                step: step@,
            }) == refresh_spec(old(self)@, event, open_requests@, period),
    {
        match to_active_requests(open_requests, period) {
            Ok(requests) => {
                *active_requests = requests;
                self.dispatch_event(event, active_requests)
            },
            Err(e) => {
                active_requests.clear();
                Step::Done(Err(e))
            },
        }
    }

    /// Takes the chain's answer to the query for the vault's requests, which
    /// `T` narrows to the pending ones. A failed query leaves an empty list
    /// that stays invalid. With no open request the list is empty and the
    /// event takes effect on it. Otherwise the requests get their deadlines:
    /// with the cached period at once, else after the period has been asked
    /// for.
    pub fn open_requests_received<T: Canceller, E>(
        &mut self,
        query: OpenRequestsQuery,
        reply: Result<Vec<(H256, T::Request)>, E>,
        active_requests: &mut Vec<ActiveRequest>,
    ) -> (step: Step)
        ensures
            (Outcome {
                scheduler: final(self)@,
                active_requests: final(active_requests)@,
                step: step@,
            }) == open_requests_received_spec(
                old(self)@,
                query.event,
                old(active_requests)@,
                open_requests_reply::<T, E>(reply),
            ),
    {
        let event = query.event;
        match reply {
            Err(_) => self.refresh_failed(event, active_requests),
            Ok(requests) => {
                let open_requests = T::get_open_requests(&requests);
                if open_requests.len() == 0 {
                    active_requests.clear();
                    self.dispatch_event(event, active_requests)
                } else {
                    match self.period {
                        Some(period) => {
                            self.refresh(event, &open_requests, period, active_requests)
                        },
                        None => Step::GetPeriod(PeriodQuery { event, open_requests }),
                    }
                }
            },
        }
    }

    /// Takes the chain's answer to the query for the cancellation period. A
    /// failed query leaves an empty list that stays invalid. Otherwise the
    /// period is cached and the waiting requests get their deadlines.
    pub fn period_received<E>(
        &mut self,
        query: PeriodQuery,
        reply: Result<u32, E>,
        active_requests: &mut Vec<ActiveRequest>,
    ) -> (step: Step)
        ensures
            (Outcome {
                scheduler: final(self)@,
                active_requests: final(active_requests)@,
                step: step@,
            }) == period_received_spec(
                old(self)@,
                query.event,
                query.open_requests@,
                period_reply(reply),
            ),
    {
        let PeriodQuery { event, open_requests } = query;
        match reply {
            Err(_) => self.refresh_failed(event, active_requests),
            Ok(fetched) => {
                let period = self.get_cached_period(fetched);
                self.refresh(event, &open_requests, period, active_requests)
            },
        }
    }
}

/// The chain's answer for the vault's requests as the scheduler reads it:
/// the pending ones, or nothing where the query failed.
pub open spec fn open_requests_reply<T: Canceller, E>(
    reply: Result<Vec<(H256, T::Request)>, E>,
) -> Option<Seq<UnconvertedOpenTime>> {
    match reply {
        Ok(requests) => Some(T::open_times(requests@)),
        Err(_) => None,
    }
}

/// The chain's answer for the period as the scheduler reads it.
pub open spec fn period_reply<E>(reply: Result<u32, E>) -> Option<u32> {
    match reply {
        Ok(period) => Some(period),
        Err(_) => None,
    }
}

} // verus!
