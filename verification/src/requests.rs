//! The list of active requests: how requests get their deadlines, and how
//! expired and executed requests leave the list.

use crate::conversion::{
    bitcoin_blocks_rounded_up, blocks_rounded_up_spec, lemma_bitcoin_blocks_rounded_up,
    parachain_blocks_to_bitcoin_blocks_rounded_up, BITCOIN_BLOCK_INTERVAL_MILLIS,
    MILLISECS_PER_BLOCK,
};
use crate::error::Error;
use crate::primitives::H256;
use vstd::prelude::*;

verus! {

/// Whether the list of active requests can be relied on.
#[derive(Clone, Copy, Debug, PartialEq, Eq, Structural)]
pub enum ListState {
    /// The list holds the vault's open requests as of the last event.
    Valid,
    /// The list may be stale and is queried anew before it is used.
    Invalid,
}

impl Default for ListState {
    /// A scheduler starts without knowledge of the chain.
    fn default() -> (state: ListState)
        ensures
            state == ListState::Invalid,
    {
        ListState::Invalid
    }
}

/// An open request as the chain reports it: its identifier and the heights of
/// both chains at which it was opened.
#[derive(Clone, Copy, Debug, PartialEq, Eq)]
pub struct UnconvertedOpenTime {
    pub id: H256,
    pub parachain_open_height: u32,
    pub bitcoin_open_height: u32,
}

/// An open request with the height on each chain that must be passed before
/// it may be cancelled.
#[derive(Clone, Copy, Debug, PartialEq, Eq)]
pub struct ActiveRequest {
    pub id: H256,
    pub parachain_deadline_height: u32,
    pub bitcoin_deadline_height: u32,
}

impl ActiveRequest {
    /// A request has expired once both chains are strictly past its deadlines.
    pub open spec fn has_expired(self, parachain_height: u32, bitcoin_height: u32) -> bool {
        parachain_height > self.parachain_deadline_height && bitcoin_height
            > self.bitcoin_deadline_height
    }
}

impl UnconvertedOpenTime {
    /// Whether both deadlines under `period` fit the height's integer width.
    pub open spec fn deadlines_fit(self, period: u32) -> bool {
        self.parachain_open_height + period <= u32::MAX && self.bitcoin_open_height
            + bitcoin_blocks_rounded_up(period) <= u32::MAX
    }

    /// The request with its deadlines: `period` parachain blocks, and the
    /// equivalent in Bitcoin blocks, after the heights at which it was opened.
    pub open spec fn with_deadlines(self, period: u32) -> ActiveRequest {
        ActiveRequest {
            id: self.id,
            parachain_deadline_height: (self.parachain_open_height + period) as u32,
            bitcoin_deadline_height: (self.bitcoin_open_height + bitcoin_blocks_rounded_up(
                period,
            )) as u32,
        }
    }

    /// Computes the deadlines of this request under a cancellation period of
    /// `period` parachain blocks.
    pub fn to_active_request(&self, period: u32) -> (request: Result<ActiveRequest, Error>)
        ensures
            self.deadlines_fit(period) ==> request == Ok::<ActiveRequest, Error>(
                self.with_deadlines(period),
            ),
            !self.deadlines_fit(period) ==> request == Err::<ActiveRequest, Error>(
                Error::ArithmeticOverflow,
            ),
    {
        let parachain_deadline_height = match self.parachain_open_height.checked_add(period) {
            Some(height) => height,
            None => {
                return Err(Error::ArithmeticOverflow);
            },
        };
        let bitcoin_period = match parachain_blocks_to_bitcoin_blocks_rounded_up(period) {
            Ok(blocks) => blocks,
            Err(e) => {
                return Err(e);
            },
        };
        let bitcoin_deadline_height = match self.bitcoin_open_height.checked_add(bitcoin_period) {
            Some(height) => height,
            None => {
                return Err(Error::ArithmeticOverflow);
            },
        };
        Ok(ActiveRequest { id: self.id, parachain_deadline_height, bitcoin_deadline_height })
    }
}

/// What a refresh makes of the open requests that the chain reported: each
/// with its deadlines, in the order reported, or an overflow if one of the
/// deadlines does not fit.
pub open spec fn active_requests_spec(
    open_requests: Seq<UnconvertedOpenTime>,
    period: u32,
) -> Result<Seq<ActiveRequest>, Error> {
    if forall|i: int| 0 <= i < open_requests.len() ==> (#[trigger] open_requests[i]).deadlines_fit(
        period,
    ) {
        Ok(Seq::new(open_requests.len(), |i: int| open_requests[i].with_deadlines(period)))
    } else {
        Err(Error::ArithmeticOverflow)
    }
}

/// After a refresh with a period of `period` parachain blocks, each request
/// stands in the list where the chain reported it, with a parachain deadline
/// of its open height plus the period, and a Bitcoin deadline of its open
/// height plus the period converted to Bitcoin blocks.
pub proof fn lemma_refresh_sets_deadlines(
    open_requests: Seq<UnconvertedOpenTime>,
    period: u32,
    i: int,
)
    requires
        active_requests_spec(open_requests, period) is Ok,
        0 <= i < open_requests.len(),
    ensures
        ({
            let requests = active_requests_spec(open_requests, period)->Ok_0;
            &&& requests.len() == open_requests.len()
            &&& requests[i].id == open_requests[i].id
            &&& requests[i].parachain_deadline_height == open_requests[i].parachain_open_height
                + period
            &&& requests[i].bitcoin_deadline_height == open_requests[i].bitcoin_open_height
                + bitcoin_blocks_rounded_up(period)
            &&& blocks_rounded_up_spec(period, MILLISECS_PER_BLOCK, BITCOIN_BLOCK_INTERVAL_MILLIS)
                == Ok::<u32, Error>(bitcoin_blocks_rounded_up(period))
        }),
{
    lemma_bitcoin_blocks_rounded_up(period);
}

/// Computes the deadlines of all open requests under one cancellation period.
pub fn to_active_requests(open_requests: &Vec<UnconvertedOpenTime>, period: u32) -> (active:
    Result<Vec<ActiveRequest>, Error>)
    ensures
        match active {
            Ok(requests) => active_requests_spec(open_requests@, period) == Ok::<
                Seq<ActiveRequest>,
                Error,
            >(requests@),
            Err(e) => active_requests_spec(open_requests@, period) == Err::<
                Seq<ActiveRequest>,
                Error,
            >(e),
        },
{
    let mut requests: Vec<ActiveRequest> = Vec::new();
    let mut i: usize = 0;
    while i < open_requests.len()
        invariant
            i <= open_requests.len(),
            requests@.len() == i,
            forall|j: int| 0 <= j < i ==> (#[trigger] open_requests@[j]).deadlines_fit(period),
            forall|j: int|
                0 <= j < i ==> requests@[j] == (#[trigger] open_requests@[j]).with_deadlines(
                    period,
                ),
        decreases open_requests.len() - i,
    {
        match open_requests[i].to_active_request(period) {
            Ok(request) => {
                requests.push(request);
            },
            Err(e) => {
                return Err(e);
            },
        }
        i += 1;
    }
    assert(requests@ =~= Seq::new(
        open_requests@.len(),
        |i: int| open_requests@[i].with_deadlines(period),
    ));
    Ok(requests)
}

/// The requests that are past both deadlines at the given heights, in order.
pub open spec fn expired_requests(
    requests: Seq<ActiveRequest>,
    parachain_height: u32,
    bitcoin_height: u32,
) -> Seq<ActiveRequest> {
    requests.filter(|request: ActiveRequest| request.has_expired(parachain_height, bitcoin_height))
}

/// The requests that are not past both deadlines at the given heights, in
/// order.
pub open spec fn unexpired_requests(
    requests: Seq<ActiveRequest>,
    parachain_height: u32,
    bitcoin_height: u32,
) -> Seq<ActiveRequest> {
    requests.filter(
        |request: ActiveRequest| !request.has_expired(parachain_height, bitcoin_height),
    )
}

/// The requests with another identifier than `id`, in order.
pub open spec fn requests_without(requests: Seq<ActiveRequest>, id: H256) -> Seq<ActiveRequest> {
    requests.filter(|request: ActiveRequest| request.id != id)
}

/// What is in a filtered sequence: the elements of the sequence that meet the
/// predicate.
pub proof fn lemma_filter_members<A>(s: Seq<A>, pred: spec_fn(A) -> bool)
    ensures
        forall|a: A| #[trigger] s.filter(pred).contains(a) <==> s.contains(a) && pred(a),
{
    assert forall|a: A| #[trigger] s.filter(pred).contains(a) implies s.contains(a) && pred(
        a,
    ) by {
        s.lemma_filter_contains_rev(pred, a);
    }
    assert forall|a: A| s.contains(a) && pred(a) implies #[trigger] s.filter(pred).contains(a) by {
        let i = choose|i: int| 0 <= i < s.len() && s[i] == a;
        s.lemma_filter_contains(pred, i);
    }
}

/// A request at the end of a list goes to the expired or to the unexpired
/// requests of the list, behind those that stand before it.
proof fn lemma_expiry_of_last(
    requests: Seq<ActiveRequest>,
    last: ActiveRequest,
    parachain_height: u32,
    bitcoin_height: u32,
)
    ensures
        last.has_expired(parachain_height, bitcoin_height) ==> expired_requests(
            requests.push(last),
            parachain_height,
            bitcoin_height,
        ) == expired_requests(requests, parachain_height, bitcoin_height).push(last)
            && unexpired_requests(requests.push(last), parachain_height, bitcoin_height)
            == unexpired_requests(requests, parachain_height, bitcoin_height),
        !last.has_expired(parachain_height, bitcoin_height) ==> expired_requests(
            requests.push(last),
            parachain_height,
            bitcoin_height,
        ) == expired_requests(requests, parachain_height, bitcoin_height) && unexpired_requests(
            requests.push(last),
            parachain_height,
            bitcoin_height,
        ) == unexpired_requests(requests, parachain_height, bitcoin_height).push(last),
{
    reveal(Seq::filter);
    assert(requests.push(last).drop_last() =~= requests);
}

/// A request at the end of a list stays in the list without `id` unless it
/// has that identifier.
proof fn lemma_last_without(requests: Seq<ActiveRequest>, last: ActiveRequest, id: H256)
    ensures
        requests_without(requests.push(last), id) == if last.id != id {
            requests_without(requests, id).push(last)
        } else {
            requests_without(requests, id)
        },
{
    reveal(Seq::filter);
    assert(requests.push(last).drop_last() =~= requests);
}

/// Takes out of `requests` every request that has expired at the given
/// heights, and returns those in the order in which they stood.
pub fn drain_expired(
    requests: &mut Vec<ActiveRequest>,
    current_height: u32,
    bitcoin_height: u32,
) -> (expired: Vec<ActiveRequest>)
    ensures
        final(requests)@ == unexpired_requests(old(requests)@, current_height, bitcoin_height),
        expired@ == expired_requests(old(requests)@, current_height, bitcoin_height),
        forall|request: ActiveRequest|
            #[trigger] final(requests)@.contains(request) <==> old(requests)@.contains(request)
                && !request.has_expired(current_height, bitcoin_height),
        forall|request: ActiveRequest|
            #[trigger] expired@.contains(request) <==> old(requests)@.contains(request)
                && request.has_expired(current_height, bitcoin_height),
{
    let ghost before = requests@;
    let ghost mut seen: int = 0;
    let mut expired: Vec<ActiveRequest> = Vec::new();
    let mut i: usize = 0;
    proof {
        reveal(Seq::filter);
    }
    while i != requests.len()
        invariant
            0 <= seen <= before.len(),
            i == unexpired_requests(before.take(seen), current_height, bitcoin_height).len(),
            requests@ == unexpired_requests(before.take(seen), current_height, bitcoin_height)
                + before.skip(seen),
            expired@ == expired_requests(before.take(seen), current_height, bitcoin_height),
        decreases requests.len() - i,
    {
        proof {
            assert(before.take(seen + 1) =~= before.take(seen).push(before[seen]));
            lemma_expiry_of_last(before.take(seen), before[seen], current_height, bitcoin_height);
        }
        if current_height > requests[i].parachain_deadline_height && bitcoin_height
            > requests[i].bitcoin_deadline_height {
            let request = requests.remove(i);
            expired.push(request);
        } else {
            i += 1;
        }
        proof {
            seen = seen + 1;
        }
    }
    proof {
        lemma_filter_members(
            before,
            |request: ActiveRequest| request.has_expired(current_height, bitcoin_height),
        );
        lemma_filter_members(
            before,
            |request: ActiveRequest| !request.has_expired(current_height, bitcoin_height),
        );
    }
    expired
}

/// The list without the first request that equals `request`, every other
/// request at its place; the list as it is where none equals it.
pub open spec fn without_first(
    requests: Seq<ActiveRequest>,
    request: ActiveRequest,
) -> Seq<ActiveRequest>
    decreases requests.len(),
{
    if requests.len() == 0 {
        requests
    } else if requests[0] == request {
        requests.skip(1)
    } else {
        seq![requests[0]] + without_first(requests.skip(1), request)
    }
}

/// The list without the first `count` of its expired requests, every other
/// request at its place.
pub open spec fn without_first_expired(
    requests: Seq<ActiveRequest>,
    count: nat,
    parachain_height: u32,
    bitcoin_height: u32,
) -> Seq<ActiveRequest>
    decreases requests.len(),
{
    if count == 0 || requests.len() == 0 {
        requests
    } else if requests[0].has_expired(parachain_height, bitcoin_height) {
        without_first_expired(
            requests.skip(1),
            (count - 1) as nat,
            parachain_height,
            bitcoin_height,
        )
    } else {
        seq![requests[0]] + without_first_expired(
            requests.skip(1),
            count,
            parachain_height,
            bitcoin_height,
        )
    }
}

/// Where the first request that equals `request` stands at `i`, the list
/// without it is the list with the place `i` taken out.
proof fn lemma_without_first_at(requests: Seq<ActiveRequest>, request: ActiveRequest, i: int)
    requires
        0 <= i < requests.len(),
        requests[i] == request,
        forall|j: int| 0 <= j < i ==> requests[j] != request,
    ensures
        without_first(requests, request) == requests.remove(i),
    decreases i,
{
    if i > 0 {
        lemma_without_first_at(requests.skip(1), request, i - 1);
    }
}

/// A list that does not hold `request` is left as it is.
proof fn lemma_without_first_absent(requests: Seq<ActiveRequest>, request: ActiveRequest)
    requires
        forall|j: int| 0 <= j < requests.len() ==> requests[j] != request,
    ensures
        without_first(requests, request) == requests,
    decreases requests.len(),
{
    if requests.len() > 0 {
        lemma_without_first_absent(requests.skip(1), request);
    }
}

/// The first request of a list goes to the head of the expired or of the
/// unexpired requests of the list.
pub proof fn lemma_expiry_of_first(
    requests: Seq<ActiveRequest>,
    parachain_height: u32,
    bitcoin_height: u32,
)
    requires
        requests.len() > 0,
    ensures
        requests[0].has_expired(parachain_height, bitcoin_height) ==> expired_requests(
            requests,
            parachain_height,
            bitcoin_height,
        ) == seq![requests[0]] + expired_requests(
            requests.skip(1),
            parachain_height,
            bitcoin_height,
        ) && unexpired_requests(requests, parachain_height, bitcoin_height)
            == unexpired_requests(requests.skip(1), parachain_height, bitcoin_height),
        !requests[0].has_expired(parachain_height, bitcoin_height) ==> expired_requests(
            requests,
            parachain_height,
            bitcoin_height,
        ) == expired_requests(requests.skip(1), parachain_height, bitcoin_height)
            && unexpired_requests(requests, parachain_height, bitcoin_height)
            == seq![requests[0]] + unexpired_requests(
            requests.skip(1),
            parachain_height,
            bitcoin_height,
        ),
{
    let first = seq![requests[0]];
    let is_expired = |request: ActiveRequest| request.has_expired(parachain_height, bitcoin_height);
    let not_expired = |request: ActiveRequest|
        !request.has_expired(parachain_height, bitcoin_height);
    assert(first + requests.skip(1) =~= requests);
    Seq::filter_distributes_over_add(first, requests.skip(1), is_expired);
    Seq::filter_distributes_over_add(first, requests.skip(1), not_expired);
    reveal_with_fuel(Seq::filter, 2);
}

/// Taking the first expired request out of a list, as a cancellation that
/// succeeded does, leaves the unexpired requests and the other expired
/// requests, each kind in its order.
pub proof fn lemma_first_cancelled(
    requests: Seq<ActiveRequest>,
    parachain_height: u32,
    bitcoin_height: u32,
)
    requires
        expired_requests(requests, parachain_height, bitcoin_height).len() > 0,
    ensures
        ({
            let expired = expired_requests(requests, parachain_height, bitcoin_height);
            let left = without_first_expired(requests, 1, parachain_height, bitcoin_height);
            &&& without_first(requests, expired[0]) == left
            &&& expired_requests(left, parachain_height, bitcoin_height) == expired.skip(1)
            &&& unexpired_requests(left, parachain_height, bitcoin_height) == unexpired_requests(
                requests,
                parachain_height,
                bitcoin_height,
            )
        }),
    decreases requests.len(),
{
    reveal_with_fuel(without_first_expired, 2);
    if requests.len() == 0 {
        reveal(Seq::filter);
    } else {
        let rest = requests.skip(1);
        lemma_expiry_of_first(requests, parachain_height, bitcoin_height);
        if !requests[0].has_expired(parachain_height, bitcoin_height) {
            lemma_first_cancelled(rest, parachain_height, bitcoin_height);
            requests.lemma_filter_pred(
                |request: ActiveRequest| request.has_expired(parachain_height, bitcoin_height),
                0,
            );
            let left = without_first_expired(requests, 1, parachain_height, bitcoin_height);
            assert(left.skip(1) =~= without_first_expired(
                rest,
                1,
                parachain_height,
                bitcoin_height,
            ));
            lemma_expiry_of_first(left, parachain_height, bitcoin_height);
        }
    }
}

/// Taking the first `count + 1` expired requests out of a list is taking
/// out the first of them and then `count` more.
pub proof fn lemma_next_cancelled(
    requests: Seq<ActiveRequest>,
    count: nat,
    parachain_height: u32,
    bitcoin_height: u32,
)
    ensures
        without_first_expired(requests, count + 1, parachain_height, bitcoin_height)
            == without_first_expired(
            without_first_expired(requests, 1, parachain_height, bitcoin_height),
            count,
            parachain_height,
            bitcoin_height,
        ),
    decreases requests.len(),
{
    reveal_with_fuel(without_first_expired, 2);
    if requests.len() > 0 && !requests[0].has_expired(parachain_height, bitcoin_height) {
        let rest = requests.skip(1);
        let left = without_first_expired(rest, 1, parachain_height, bitcoin_height);
        lemma_next_cancelled(rest, count, parachain_height, bitcoin_height);
        assert((seq![requests[0]] + left).skip(1) =~= left);
    }
}

/// Once as many expired requests are taken out as the list holds, what is
/// left is the unexpired requests of the list.
pub proof fn lemma_all_cancelled(
    requests: Seq<ActiveRequest>,
    count: nat,
    parachain_height: u32,
    bitcoin_height: u32,
)
    requires
        count >= expired_requests(requests, parachain_height, bitcoin_height).len(),
    ensures
        without_first_expired(requests, count, parachain_height, bitcoin_height)
            == unexpired_requests(requests, parachain_height, bitcoin_height),
    decreases requests.len(),
{
    if requests.len() == 0 {
        reveal(Seq::filter);
    } else {
        let rest = requests.skip(1);
        lemma_expiry_of_first(requests, parachain_height, bitcoin_height);
        if requests[0].has_expired(parachain_height, bitcoin_height) {
            lemma_all_cancelled(rest, (count - 1) as nat, parachain_height, bitcoin_height);
        } else {
            lemma_all_cancelled(rest, count, parachain_height, bitcoin_height);
        }
    }
}

/// With the first `count` expired requests taken out, the list holds its
/// unexpired requests as before and the expired requests behind those that
/// were taken out, each kind in its order.
pub proof fn lemma_cancelled_leave_the_rest(
    requests: Seq<ActiveRequest>,
    count: nat,
    parachain_height: u32,
    bitcoin_height: u32,
)
    requires
        count <= expired_requests(requests, parachain_height, bitcoin_height).len(),
    ensures
        ({
            let left = without_first_expired(requests, count, parachain_height, bitcoin_height);
            &&& unexpired_requests(left, parachain_height, bitcoin_height) == unexpired_requests(
                requests,
                parachain_height,
                bitcoin_height,
            )
            &&& expired_requests(left, parachain_height, bitcoin_height) == expired_requests(
                requests,
                parachain_height,
                bitcoin_height,
            ).skip(count as int)
        }),
    decreases count,
{
    if count > 0 {
        let first = without_first_expired(requests, 1, parachain_height, bitcoin_height);
        lemma_first_cancelled(requests, parachain_height, bitcoin_height);
        lemma_next_cancelled(requests, (count - 1) as nat, parachain_height, bitcoin_height);
        lemma_cancelled_leave_the_rest(
            first,
            (count - 1) as nat,
            parachain_height,
            bitcoin_height,
        );
    }
}

/// Taking expired requests out of a list brings no request into it.
pub proof fn lemma_cancelled_bring_nothing(
    requests: Seq<ActiveRequest>,
    count: nat,
    parachain_height: u32,
    bitcoin_height: u32,
)
    ensures
        forall|request: ActiveRequest| #[trigger]
            without_first_expired(
                requests,
                count,
                parachain_height,
                bitcoin_height,
            ).contains(request) ==> requests.contains(request),
    decreases requests.len(),
{
    let left = without_first_expired(requests, count, parachain_height, bitcoin_height);
    if count > 0 && requests.len() > 0 {
        let rest = requests.skip(1);
        let expired_first = requests[0].has_expired(parachain_height, bitcoin_height);
        let taken = if expired_first {
            (count - 1) as nat
        } else {
            count
        };
        let inner = without_first_expired(rest, taken, parachain_height, bitcoin_height);
        lemma_cancelled_bring_nothing(rest, taken, parachain_height, bitcoin_height);
        assert forall|request: ActiveRequest| #[trigger] left.contains(request) implies
            requests.contains(request) by {
            let i = choose|i: int| 0 <= i < left.len() && left[i] == request;
            if expired_first || i > 0 {
                let at = if expired_first {
                    i
                } else {
                    i - 1
                };
                assert(inner[at] == request);
                assert(inner.contains(request));
                let j = choose|j: int| 0 <= j < rest.len() && rest[j] == request;
                assert(requests[j + 1] == request);
            }
        }
    }
}

/// Takes out of `requests` the first request that equals `request`.
pub fn remove_cancelled(requests: &mut Vec<ActiveRequest>, request: &ActiveRequest)
    ensures
        final(requests)@ == without_first(old(requests)@, *request),
{
    let mut i: usize = 0;
    while i < requests.len()
        invariant
            i <= requests.len(),
            requests@ == old(requests)@,
            forall|j: int| 0 <= j < i ==> requests@[j] != *request,
        decreases requests.len() - i,
    {
        let entry = &requests[i];
        if entry.id == request.id && entry.parachain_deadline_height
            == request.parachain_deadline_height && entry.bitcoin_deadline_height
            == request.bitcoin_deadline_height {
            proof {
                lemma_without_first_at(requests@, *request, i as int);
            }
            requests.remove(i);
            return;
        }
        i += 1;
    }
    proof {
        lemma_without_first_absent(requests@, *request);
    }
}

/// Takes out of `requests` every request with the identifier `id`.
pub fn remove_executed(requests: &mut Vec<ActiveRequest>, id: &H256)
    ensures
        final(requests)@ == requests_without(old(requests)@, *id),
        forall|request: ActiveRequest|
            #[trigger] final(requests)@.contains(request) <==> old(requests)@.contains(request)
                && request.id != *id,
{
    let ghost before = requests@;
    let mut kept: Vec<ActiveRequest> = Vec::new();
    let mut i: usize = 0;
    proof {
        reveal(Seq::filter);
    }
    while i < requests.len()
        invariant
            i <= requests.len(),
            requests@ == before,
            kept@ == requests_without(before.take(i as int), *id),
        decreases requests.len() - i,
    {
        proof {
            assert(before.take(i + 1) =~= before.take(i as int).push(before[i as int]));
            lemma_last_without(before.take(i as int), before[i as int], *id);
        }
        if requests[i].id != *id {
            kept.push(requests[i]);
        }
        i += 1;
    }
    proof {
        assert(before.take(before.len() as int) =~= before);
        lemma_filter_members(before, |request: ActiveRequest| request.id != *id);
    }
    *requests = kept;
}

} // verus!
