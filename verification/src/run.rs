//! What one event comes to once the chain has answered every call that the
//! scheduler asks for, and what holds of that for every event, list and
//! answer.

use crate::error::Error;
use crate::primitives::H256;
use crate::requests::{
    active_requests_spec, expired_requests, lemma_all_cancelled, lemma_cancelled_bring_nothing,
    lemma_cancelled_leave_the_rest, lemma_filter_members, lemma_first_cancelled,
    lemma_next_cancelled, requests_without, unexpired_requests, without_first,
    without_first_expired, ActiveRequest, ListState, UnconvertedOpenTime,
};
use crate::scheduler::{
    at_height, cancel_requests_spec, cancellation_resolved_spec, open_requests_received_spec,
    period_received_spec, process_event_spec, Event, Outcome, SchedulerState, StepView,
};
use vstd::prelude::*;

verus! {

/// What the chain answers to the calls that the handling of one event makes.
pub struct ChainReplies {
    /// The vault's open requests, or nothing where the query fails.
    pub open_requests: Option<Seq<UnconvertedOpenTime>>,
    /// The cancellation period, or nothing where the query fails.
    pub period: Option<u32>,
    /// How many cancellations succeed before one fails, or nothing where
    /// none fails.
    pub failed_cancellation: Option<nat>,
}

impl ChainReplies {
    /// The replies that are left once one cancellation has been answered.
    pub open spec fn after_cancellation(self) -> ChainReplies {
        ChainReplies {
            failed_cancellation: match self.failed_cancellation {
                Some(succeeding) => Some((succeeding - 1) as nat),
                None => None,
            },
            ..self
        }
    }
}

/// How far a step is from the end of its event.
pub open spec fn calls_ahead(step: StepView) -> (nat, nat) {
    match step {
        StepView::GetOpenRequests { .. } => (3, 0),
        StepView::GetPeriod { .. } => (2, 0),
        StepView::CancelRequest { remaining, .. } => (1, remaining.len()),
        StepView::Done(_) => (0, 0),
    }
}

/// Answers every call that the scheduler asks for from `replies`, until the
/// event is handled.
pub open spec fn complete<P>(outcome: Outcome<P>, replies: ChainReplies) -> Outcome<P>
    decreases calls_ahead(outcome.step).0, calls_ahead(outcome.step).1,
{
    match outcome.step {
        StepView::GetOpenRequests { event, .. } => complete(
            open_requests_received_spec(
                outcome.scheduler,
                event,
                outcome.active_requests,
                replies.open_requests,
            ),
            replies,
        ),
        StepView::GetPeriod { event, open_requests } => complete(
            period_received_spec(outcome.scheduler, event, open_requests, replies.period),
            replies,
        ),
        StepView::CancelRequest { request, remaining } => {
            let resolved = cancellation_resolved_spec(
                outcome.active_requests,
                request,
                remaining,
                replies.failed_cancellation != Some(0nat),
            );
            complete(
                Outcome {
                    scheduler: outcome.scheduler,
                    active_requests: resolved.0,
                    step: resolved.1,
                },
                replies.after_cancellation(),
            )
        },
        StepView::Done(_) => outcome,
    }
}

/// What one event comes to: the state in which it leaves the scheduler and
/// the list, with its result in the step, when the chain answers as
/// `replies` says.
pub open spec fn run_event<P>(
    scheduler: SchedulerState<P>,
    event: Event,
    active_requests: Seq<ActiveRequest>,
    list_state: ListState,
    replies: ChainReplies,
) -> Outcome<P> {
    complete(process_event_spec(scheduler, event, active_requests, list_state), replies)
}

/// What a refresh comes to.
pub enum Refreshed {
    /// The query for the vault's requests failed, or the one for the period.
    QueryFailed,
    /// One of the deadlines does not fit.
    Overflow,
    /// The open requests with their deadlines.
    List(Seq<ActiveRequest>),
}

/// The period that a refresh computes deadlines with: the cached one, else
/// the one that the chain reports.
pub open spec fn refresh_period(cached: Option<u32>, replies: ChainReplies) -> Option<u32> {
    match cached {
        Some(period) => Some(period),
        None => replies.period,
    }
}

/// What the refresh of a scheduler with the period `cached` comes to. The
/// period is asked for only where there are open requests and none is
/// cached.
pub open spec fn refresh(cached: Option<u32>, replies: ChainReplies) -> Refreshed {
    match replies.open_requests {
        None => Refreshed::QueryFailed,
        Some(open_requests) => if open_requests.len() == 0 {
            Refreshed::List(Seq::empty())
        } else {
            match refresh_period(cached, replies) {
                None => Refreshed::QueryFailed,
                Some(period) => match active_requests_spec(open_requests, period) {
                    Ok(requests) => Refreshed::List(requests),
                    Err(_) => Refreshed::Overflow,
                },
            }
        },
    }
}

/// The scheduler after a refresh: it has cached the period if it had to
/// fetch it.
pub open spec fn refreshed_scheduler<P>(
    scheduler: SchedulerState<P>,
    replies: ChainReplies,
) -> SchedulerState<P> {
    match (replies.open_requests, scheduler.period, replies.period) {
        (Some(open_requests), None, Some(period)) => if open_requests.len() > 0 {
            SchedulerState { period: Some(period), ..scheduler }
        } else {
            scheduler
        },
        _ => scheduler,
    }
}

/// Whether one of the cancellations of a batch fails.
pub open spec fn cancellation_fails(batch: Seq<ActiveRequest>, replies: ChainReplies) -> bool {
    replies.failed_cancellation matches Some(succeeding) && succeeding < batch.len()
}

/// How many requests of a batch are cancelled: those before the first
/// failure, or all of them.
pub open spec fn cancelled(batch: Seq<ActiveRequest>, replies: ChainReplies) -> nat {
    match replies.failed_cancellation {
        Some(succeeding) => if succeeding < batch.len() {
            succeeding
        } else {
            batch.len()
        },
        None => batch.len(),
    }
}

/// What a list comes to once its expired requests have been cancelled in
/// turn, up to the first failure: the cancelled requests are gone, every
/// other request stands at its place, and the list is valid unless a
/// cancellation failed.
pub open spec fn drained<P>(
    scheduler: SchedulerState<P>,
    active_requests: Seq<ActiveRequest>,
    replies: ChainReplies,
) -> Outcome<P> {
    let expired = expired_requests(
        active_requests,
        scheduler.parachain_height,
        scheduler.bitcoin_height,
    );
    Outcome {
        scheduler,
        active_requests: without_first_expired(
            active_requests,
            cancelled(expired, replies),
            scheduler.parachain_height,
            scheduler.bitcoin_height,
        ),
        step: StepView::Done(
            Ok(
                if cancellation_fails(expired, replies) {
                    ListState::Invalid
                } else {
                    ListState::Valid
                },
            ),
        ),
    }
}

/// Cancelling the expired requests of a list one at a time ends at the
/// first failure. The requests cancelled until then are gone from the list;
/// the request that failed and all others keep their places, and the list is
/// invalid. With no failure the list is valid.
pub proof fn lemma_cancellations_stop_at_first_failure<P>(
    scheduler: SchedulerState<P>,
    active_requests: Seq<ActiveRequest>,
    replies: ChainReplies,
)
    ensures
        complete(cancel_requests_spec(scheduler, active_requests), replies) == drained(
            scheduler,
            active_requests,
            replies,
        ),
    decreases
            expired_requests(
                active_requests,
                scheduler.parachain_height,
                scheduler.bitcoin_height,
            ).len(),
{
    let batch = expired_requests(
        active_requests,
        scheduler.parachain_height,
        scheduler.bitcoin_height,
    );
    let start = cancel_requests_spec(scheduler, active_requests);
    if batch.len() > 0 {
        if replies.failed_cancellation == Some(0nat) {
            let failed = Outcome {
                scheduler,
                active_requests,
                step: StepView::Done(Ok(ListState::Invalid)),
            };
            assert(complete(start, replies) == complete(failed, replies.after_cancellation()));
        } else {
            let left = without_first(active_requests, batch[0]);
            assert(complete(start, replies) == complete(
                cancel_requests_spec(scheduler, left),
                replies.after_cancellation(),
            )) by {
                lemma_first_cancelled(
                    active_requests,
                    scheduler.parachain_height,
                    scheduler.bitcoin_height,
                );
            }
            lemma_first_cancelled(
                active_requests,
                scheduler.parachain_height,
                scheduler.bitcoin_height,
            );
            lemma_next_cancelled(
                active_requests,
                (cancelled(batch, replies) - 1) as nat,
                scheduler.parachain_height,
                scheduler.bitcoin_height,
            );
            lemma_cancellations_stop_at_first_failure(
                scheduler,
                left,
                replies.after_cancellation(),
            );
        }
    }
}

/// What an event comes to on a list that is up to date. `Opened` and
/// `Executed` are handled at once; a new height is stored and the expired
/// requests are cancelled until one fails.
pub open spec fn event_on_list<P>(
    scheduler: SchedulerState<P>,
    event: Event,
    active_requests: Seq<ActiveRequest>,
    replies: ChainReplies,
) -> Outcome<P> {
    match event {
        Event::Opened => Outcome {
            scheduler,
            active_requests,
            step: StepView::Done(Ok(ListState::Invalid)),
        },
        Event::Executed(id) => Outcome {
            scheduler,
            active_requests: requests_without(active_requests, id),
            step: StepView::Done(Ok(ListState::Valid)),
        },
        _ => drained(at_height(scheduler, event), active_requests, replies),
    }
}

/// An event that meets a valid list makes no query: it comes to what
/// `event_on_list` says.
pub proof fn lemma_valid_list_is_not_refreshed<P>(
    scheduler: SchedulerState<P>,
    event: Event,
    active_requests: Seq<ActiveRequest>,
    replies: ChainReplies,
)
    ensures
        run_event(scheduler, event, active_requests, ListState::Valid, replies) == event_on_list(
            scheduler,
            event,
            active_requests,
            replies,
        ),
{
    if event is ParachainBlock || event is BitcoinBlock {
        lemma_cancellations_stop_at_first_failure(
            at_height(scheduler, event),
            active_requests,
            replies,
        );
    }
}

/// An event that meets an invalid list waits for the refresh. Where a query
/// fails the list is left empty and invalid, and only a new height is
/// stored. Where a deadline does not fit the run ends with an overflow, on
/// an empty list. Else the event is handled on the refreshed list as on a
/// valid one.
pub proof fn lemma_invalid_list_is_refreshed_first<P>(
    scheduler: SchedulerState<P>,
    event: Event,
    active_requests: Seq<ActiveRequest>,
    replies: ChainReplies,
)
    ensures
        run_event(scheduler, event, active_requests, ListState::Invalid, replies) == match refresh(
            scheduler.period,
            replies,
        ) {
            Refreshed::QueryFailed => Outcome {
                scheduler: at_height(scheduler, event),
                active_requests: Seq::empty(),
                step: StepView::Done(Ok(ListState::Invalid)),
            },
            Refreshed::Overflow => Outcome {
                scheduler: refreshed_scheduler(scheduler, replies),
                active_requests: Seq::empty(),
                step: StepView::Done(Err(Error::ArithmeticOverflow)),
            },
            Refreshed::List(requests) => run_event(
                refreshed_scheduler(scheduler, replies),
                event,
                requests,
                ListState::Valid,
                replies,
            ),
        },
{
    let answered = open_requests_received_spec(
        scheduler,
        event,
        active_requests,
        replies.open_requests,
    );
    match answered.step {
        StepView::GetPeriod { event: waiting, open_requests } => {
            let fetched = period_received_spec(scheduler, waiting, open_requests, replies.period);
            assert(complete(answered, replies) == complete(fetched, replies));
        },
        _ => {},
    }
}

/// The list on which an event takes effect: the list as it is where it is
/// valid, the refreshed list where it is not.
pub open spec fn list_at_event(
    cached: Option<u32>,
    active_requests: Seq<ActiveRequest>,
    list_state: ListState,
    replies: ChainReplies,
) -> Seq<ActiveRequest> {
    match (list_state, refresh(cached, replies)) {
        (ListState::Valid, _) => active_requests,
        (ListState::Invalid, Refreshed::List(requests)) => requests,
        (ListState::Invalid, _) => Seq::empty(),
    }
}

/// The scheduler when an event takes effect: as it is where the list is
/// valid, after the refresh where it is not.
pub open spec fn scheduler_at_event<P>(
    scheduler: SchedulerState<P>,
    list_state: ListState,
    replies: ChainReplies,
) -> SchedulerState<P> {
    match list_state {
        ListState::Valid => scheduler,
        ListState::Invalid => refreshed_scheduler(scheduler, replies),
    }
}

/// Whether an event takes effect: always on a valid list, and on an invalid
/// list if the refresh succeeds.
pub open spec fn takes_effect(
    cached: Option<u32>,
    list_state: ListState,
    replies: ChainReplies,
) -> bool {
    list_state is Valid || refresh(cached, replies) is List
}

/// What one event comes to, for either state of the list. Where the event
/// takes effect, it does so on the list and the scheduler as they stand at
/// the event. Where it does not, a query of the refresh has failed, which
/// leaves an empty invalid list, or a deadline does not fit, which ends the
/// run.
pub proof fn lemma_run_event<P>(
    scheduler: SchedulerState<P>,
    event: Event,
    active_requests: Seq<ActiveRequest>,
    list_state: ListState,
    replies: ChainReplies,
)
    ensures
        run_event(scheduler, event, active_requests, list_state, replies) == if takes_effect(
            scheduler.period,
            list_state,
            replies,
        ) {
            event_on_list(
                scheduler_at_event(scheduler, list_state, replies),
                event,
                list_at_event(scheduler.period, active_requests, list_state, replies),
                replies,
            )
        } else if refresh(scheduler.period, replies) is QueryFailed {
            Outcome {
                scheduler: at_height(scheduler, event),
                active_requests: Seq::empty(),
                step: StepView::Done(Ok(ListState::Invalid)),
            }
        } else {
            Outcome {
                scheduler: refreshed_scheduler(scheduler, replies),
                active_requests: Seq::empty(),
                step: StepView::Done(Err(Error::ArithmeticOverflow)),
            }
        },
{
    match list_state {
        ListState::Valid => {
            lemma_valid_list_is_not_refreshed(scheduler, event, active_requests, replies);
        },
        ListState::Invalid => {
            lemma_invalid_list_is_refreshed_first(scheduler, event, active_requests, replies);
            lemma_valid_list_is_not_refreshed(
                refreshed_scheduler(scheduler, replies),
                event,
                list_at_event(scheduler.period, active_requests, list_state, replies),
                replies,
            );
        },
    }
}

/// A new height on either chain, whose cancellations all succeed, removes a
/// request from the list if and only if both chains are strictly past its
/// deadlines. A request with only one deadline passed stays. The list is
/// valid afterwards.
pub proof fn lemma_drain_removes_exactly_the_expired<P>(
    scheduler: SchedulerState<P>,
    event: Event,
    active_requests: Seq<ActiveRequest>,
    list_state: ListState,
    replies: ChainReplies,
)
    requires
        event is ParachainBlock || event is BitcoinBlock,
        takes_effect(scheduler.period, list_state, replies),
        !cancellation_fails(
            expired_requests(
                list_at_event(scheduler.period, active_requests, list_state, replies),
                at_height(scheduler, event).parachain_height,
                at_height(scheduler, event).bitcoin_height,
            ),
            replies,
        ),
    ensures
        ({
            let before = list_at_event(scheduler.period, active_requests, list_state, replies);
            let now = at_height(scheduler, event);
            let after = run_event(scheduler, event, active_requests, list_state, replies);
            &&& after.scheduler.parachain_height == now.parachain_height
            &&& after.scheduler.bitcoin_height == now.bitcoin_height
            &&& after.step == StepView::Done(Ok(ListState::Valid))
            &&& after.active_requests == unexpired_requests(
                before,
                now.parachain_height,
                now.bitcoin_height,
            )
            &&& forall|request: ActiveRequest|
                #[trigger] after.active_requests.contains(request) <==> before.contains(request)
                    && !request.has_expired(now.parachain_height, now.bitcoin_height)
        }),
{
    let before = list_at_event(scheduler.period, active_requests, list_state, replies);
    let now = at_height(scheduler, event);
    lemma_run_event(scheduler, event, active_requests, list_state, replies);
    lemma_all_cancelled(
        before,
        expired_requests(before, now.parachain_height, now.bitcoin_height).len(),
        now.parachain_height,
        now.bitcoin_height,
    );
    lemma_filter_members(
        before,
        |request: ActiveRequest| !request.has_expired(now.parachain_height, now.bitcoin_height),
    );
}

/// Where a cancellation fails in the middle of a drain, the list is the
/// list on which the event took effect without the requests that were
/// cancelled before the failure. Those stay removed. Every other request
/// stands at its old place: the unexpired requests, the request that failed
/// and the expired requests behind it, in the order in which they stood. The
/// list is invalid.
pub proof fn lemma_failed_cancellation_keeps_the_rest<P>(
    scheduler: SchedulerState<P>,
    event: Event,
    active_requests: Seq<ActiveRequest>,
    list_state: ListState,
    replies: ChainReplies,
    succeeding: nat,
)
    requires
        event is ParachainBlock || event is BitcoinBlock,
        takes_effect(scheduler.period, list_state, replies),
        replies.failed_cancellation == Some(succeeding),
        succeeding < expired_requests(
            list_at_event(scheduler.period, active_requests, list_state, replies),
            at_height(scheduler, event).parachain_height,
            at_height(scheduler, event).bitcoin_height,
        ).len(),
    ensures
        ({
            let before = list_at_event(scheduler.period, active_requests, list_state, replies);
            let now = at_height(scheduler, event);
            let after = run_event(scheduler, event, active_requests, list_state, replies);
            &&& after.step == StepView::Done(Ok(ListState::Invalid))
            &&& after.active_requests == without_first_expired(
                before,
                succeeding,
                now.parachain_height,
                now.bitcoin_height,
            )
            &&& unexpired_requests(after.active_requests, now.parachain_height, now.bitcoin_height)
                == unexpired_requests(before, now.parachain_height, now.bitcoin_height)
            &&& expired_requests(after.active_requests, now.parachain_height, now.bitcoin_height)
                == expired_requests(before, now.parachain_height, now.bitcoin_height).skip(
                succeeding as int,
            )
        }),
{
    let before = list_at_event(scheduler.period, active_requests, list_state, replies);
    let now = at_height(scheduler, event);
    lemma_run_event(scheduler, event, active_requests, list_state, replies);
    lemma_cancelled_leave_the_rest(before, succeeding, now.parachain_height, now.bitcoin_height);
}

/// An executed request leaves a valid list, whatever the list's state was
/// before. Exactly the requests with the executed identifier are removed;
/// the others stay as they stood. Where the list was invalid this holds of
/// the refreshed list, if the refresh succeeds.
pub proof fn lemma_executed_request_is_removed<P>(
    scheduler: SchedulerState<P>,
    id: H256,
    active_requests: Seq<ActiveRequest>,
    list_state: ListState,
    replies: ChainReplies,
)
    requires
        takes_effect(scheduler.period, list_state, replies),
    ensures
        ({
            let before = list_at_event(scheduler.period, active_requests, list_state, replies);
            let after = run_event(
                scheduler,
                Event::Executed(id),
                active_requests,
                list_state,
                replies,
            );
            &&& after.step == StepView::Done(Ok(ListState::Valid))
            &&& after.active_requests == requests_without(before, id)
            &&& forall|request: ActiveRequest|
                #[trigger] after.active_requests.contains(request) <==> before.contains(request)
                    && request.id != id
        }),
{
    let before = list_at_event(scheduler.period, active_requests, list_state, replies);
    lemma_run_event(scheduler, Event::Executed(id), active_requests, list_state, replies);
    lemma_filter_members(before, |request: ActiveRequest| request.id != id);
}

/// An opened request leaves an invalid list, whatever the list held and
/// whatever its state was before, and does not touch what the list holds. A
/// valid list stays as it was; an invalid list is refreshed first. The one
/// exception is a refresh that ends the run with an overflow.
pub proof fn lemma_opened_request_invalidates<P>(
    scheduler: SchedulerState<P>,
    active_requests: Seq<ActiveRequest>,
    list_state: ListState,
    replies: ChainReplies,
)
    requires
        list_state is Valid || !(refresh(scheduler.period, replies) is Overflow),
    ensures
        ({
            let after = run_event(scheduler, Event::Opened, active_requests, list_state, replies);
            &&& after.step == StepView::Done(Ok(ListState::Invalid))
            &&& after.active_requests == list_at_event(
                scheduler.period,
                active_requests,
                list_state,
                replies,
            )
            &&& list_state is Valid ==> after.scheduler == scheduler
        }),
{
    lemma_run_event(scheduler, Event::Opened, active_requests, list_state, replies);
}

/// A refresh that fails on a query is no error: whatever the event, it
/// leaves an empty list that is invalid, so that the next event tries again.
/// No period is cached and no cancellation is made; a new height is stored.
pub proof fn lemma_failed_refresh_empties_the_list<P>(
    scheduler: SchedulerState<P>,
    event: Event,
    active_requests: Seq<ActiveRequest>,
    replies: ChainReplies,
)
    requires
        refresh(scheduler.period, replies) is QueryFailed,
    ensures
        run_event(scheduler, event, active_requests, ListState::Invalid, replies) == (Outcome {
            scheduler: at_height(scheduler, event),
            active_requests: Seq::empty(),
            step: StepView::Done(Ok(ListState::Invalid)),
        }),
{
    lemma_run_event(scheduler, event, active_requests, ListState::Invalid, replies);
}

/// Nothing but a deadline that does not fit ends the run of a scheduler
/// whose event queue is open: every other event is handled and leaves the
/// list valid or invalid.
pub proof fn lemma_only_overflow_ends_the_run<P>(
    scheduler: SchedulerState<P>,
    event: Event,
    active_requests: Seq<ActiveRequest>,
    list_state: ListState,
    replies: ChainReplies,
)
    ensures
        ({
            let after = run_event(scheduler, event, active_requests, list_state, replies);
            let overflow = list_state is Invalid && refresh(scheduler.period, replies) is Overflow;
            &&& overflow ==> after.step == StepView::Done(Err(Error::ArithmeticOverflow))
            &&& !overflow ==> after.step == StepView::Done(Ok(ListState::Valid)) || after.step
                == StepView::Done(Ok(ListState::Invalid))
        }),
{
    lemma_run_event(scheduler, event, active_requests, list_state, replies);
}

/// The deadlines of a request are computed when it enters the list and
/// never again: whatever an event does to a valid list, every request that
/// the list holds afterwards it held before, with the same deadlines.
pub proof fn lemma_deadlines_are_kept<P>(
    scheduler: SchedulerState<P>,
    event: Event,
    active_requests: Seq<ActiveRequest>,
    replies: ChainReplies,
)
    ensures
        forall|request: ActiveRequest| #[trigger]
            run_event(
                scheduler,
                event,
                active_requests,
                ListState::Valid,
                replies,
            ).active_requests.contains(request) ==> active_requests.contains(request),
{
    let now = at_height(scheduler, event);
    lemma_run_event(scheduler, event, active_requests, ListState::Valid, replies);
    lemma_cancelled_bring_nothing(
        active_requests,
        cancelled(
            expired_requests(active_requests, now.parachain_height, now.bitcoin_height),
            replies,
        ),
        now.parachain_height,
        now.bitcoin_height,
    );
    if let Event::Executed(id) = event {
        lemma_filter_members(active_requests, |request: ActiveRequest| request.id != id);
    }
}

/// An event changes nothing of the scheduler but the height that it brings
/// and the period that its refresh fetches. The handle and the vault stay,
/// a cached period stays, and a period is cached only as the chain reported
/// it. The height is stored unless a deadline that does not fit ends the
/// run.
pub proof fn lemma_event_changes_height_and_period_only<P>(
    scheduler: SchedulerState<P>,
    event: Event,
    active_requests: Seq<ActiveRequest>,
    list_state: ListState,
    replies: ChainReplies,
)
    ensures
        ({
            let after = run_event(scheduler, event, active_requests, list_state, replies).scheduler;
            let overflow = list_state is Invalid && refresh(scheduler.period, replies) is Overflow;
            let stored = if overflow {
                scheduler
            } else {
                at_height(scheduler, event)
            };
            &&& after == (SchedulerState { period: after.period, ..stored })
            &&& after.period == scheduler.period || (scheduler.period is None && after.period
                == replies.period)
            &&& list_state is Valid ==> after.period == scheduler.period
        }),
{
    lemma_run_event(scheduler, event, active_requests, list_state, replies);
}

/// The cancellation period is fetched at most once: a scheduler that has
/// cached a period never asks for it, and keeps it through every event.
pub proof fn lemma_cached_period_is_kept<P>(
    scheduler: SchedulerState<P>,
    event: Event,
    active_requests: Seq<ActiveRequest>,
    list_state: ListState,
    replies: ChainReplies,
)
    requires
        scheduler.period is Some,
    ensures
        !(open_requests_received_spec(
            scheduler,
            event,
            active_requests,
            replies.open_requests,
        ).step is GetPeriod),
        run_event(scheduler, event, active_requests, list_state, replies).scheduler.period
            == scheduler.period,
{
    lemma_run_event(scheduler, event, active_requests, list_state, replies);
}

} // verus!
