//! The two kinds of request that a vault has cancelled, issue and replace,
//! and what each reads of the chain's records.

use crate::primitives::H256;
use crate::requests::UnconvertedOpenTime;
use vstd::prelude::*;

verus! {

/// Where an issue request stands on the chain.
#[derive(Clone, Copy, Debug, Default, PartialEq, Eq, Structural)]
pub enum IssueRequestStatus {
    #[default]
    Pending,
    Completed,
    Cancelled,
}

/// Where a replace request stands on the chain.
#[derive(Clone, Copy, Debug, Default, PartialEq, Eq, Structural)]
pub enum ReplaceRequestStatus {
    #[default]
    Pending,
    Completed,
    Cancelled,
}

/// What the scheduler reads of the chain's record of an issue request.
#[derive(Clone, Copy, Debug, Default, PartialEq, Eq, Structural)]
pub struct InterBtcIssueRequest {
    /// Parachain height at which the issue was requested.
    pub opentime: u32,
    /// Bitcoin height at which the issue was requested.
    pub btc_height: u32,
    pub status: IssueRequestStatus,
}

/// What the scheduler reads of the chain's record of a replace request.
#[derive(Clone, Copy, Debug, Default, PartialEq, Eq, Structural)]
pub struct InterBtcReplaceRequest {
    /// Parachain height at which the replace was accepted.
    pub accept_time: u32,
    /// Bitcoin height at which the replace was accepted.
    pub btc_height: u32,
    pub status: ReplaceRequestStatus,
}

/// A kind of request that a vault may have cancelled once it has timed out.
/// The scheduler is written once over this trait and serves both kinds.
pub trait Canceller: Sized {
    /// The chain's record of one request of this kind.
    type Request;

    /// The open time of a request, where the chain reports it as pending;
    /// nothing for a request that was completed or cancelled.
    spec fn open_time(id: H256, request: Self::Request) -> Option<UnconvertedOpenTime>;

    /// The open times of the pending requests among `requests`, in the order
    /// of the records.
    open spec fn open_times(requests: Seq<(H256, Self::Request)>) -> Seq<UnconvertedOpenTime> {
        requests.filter_map(|entry: (H256, Self::Request)| Self::open_time(entry.0, entry.1))
    }

    /// The name of the kind, for diagnostics.
    const TYPE_NAME: &'static str;

    /// Picks the pending requests out of the records that the chain holds for
    /// a vault, each with the heights at which it was opened.
    fn get_open_requests(requests: &Vec<(H256, Self::Request)>) -> (open: Vec<UnconvertedOpenTime>)
        ensures
            open@ == Self::open_times(requests@),
    ;
}

/// Cancellation of issue requests.
pub struct IssueCanceller;

/// Cancellation of replace requests.
pub struct ReplaceCanceller;

impl Canceller for IssueCanceller {
    type Request = InterBtcIssueRequest;

    open spec fn open_time(id: H256, request: InterBtcIssueRequest) -> Option<UnconvertedOpenTime> {
        if request.status == IssueRequestStatus::Pending {
            Some(
                UnconvertedOpenTime {
                    id,
                    parachain_open_height: request.opentime,
                    bitcoin_open_height: request.btc_height,
                },
            )
        } else {
            None
        }
    }

    const TYPE_NAME: &'static str = "issue";

    fn get_open_requests(requests: &Vec<(H256, InterBtcIssueRequest)>) -> (open: Vec<
        UnconvertedOpenTime,
    >) {
        let ghost open_time = |entry: (H256, InterBtcIssueRequest)|
            Self::open_time(entry.0, entry.1);
        let mut open: Vec<UnconvertedOpenTime> = Vec::new();
        let mut i: usize = 0;
        while i < requests.len()
            invariant
                i <= requests.len(),
                open@ == requests@.subrange(0, i as int).filter_map(open_time),
                open_time == |entry: (H256, InterBtcIssueRequest)|
                    Self::open_time(entry.0, entry.1),
            decreases requests.len() - i,
        {
            assert(requests@.subrange(0, i + 1).drop_last() =~= requests@.subrange(0, i as int));
            let (id, issue) = requests[i];
            if issue.status == IssueRequestStatus::Pending {
                open.push(
                    UnconvertedOpenTime {
                        id,
                        parachain_open_height: issue.opentime,
                        bitcoin_open_height: issue.btc_height,
                    },
                );
            }
            i += 1;
        }
        assert(requests@.subrange(0, requests@.len() as int) =~= requests@);
        open
    }
}

impl Canceller for ReplaceCanceller {
    type Request = InterBtcReplaceRequest;

    open spec fn open_time(id: H256, request: InterBtcReplaceRequest) -> Option<
        UnconvertedOpenTime,
    > {
        if request.status == ReplaceRequestStatus::Pending {
            Some(
                UnconvertedOpenTime {
                    id,
                    parachain_open_height: request.accept_time,
                    bitcoin_open_height: request.btc_height,
                },
            )
        } else {
            None
        }
    }

    const TYPE_NAME: &'static str = "replace";

    fn get_open_requests(requests: &Vec<(H256, InterBtcReplaceRequest)>) -> (open: Vec<
        UnconvertedOpenTime,
    >) {
        let ghost open_time = |entry: (H256, InterBtcReplaceRequest)|
            Self::open_time(entry.0, entry.1);
        let mut open: Vec<UnconvertedOpenTime> = Vec::new();
        let mut i: usize = 0;
        while i < requests.len()
            invariant
                i <= requests.len(),
                open@ == requests@.subrange(0, i as int).filter_map(open_time),
                open_time == |entry: (H256, InterBtcReplaceRequest)|
                    Self::open_time(entry.0, entry.1),
            decreases requests.len() - i,
        {
            assert(requests@.subrange(0, i + 1).drop_last() =~= requests@.subrange(0, i as int));
            let (id, replace) = requests[i];
            if replace.status == ReplaceRequestStatus::Pending {
                open.push(
                    UnconvertedOpenTime {
                        id,
                        parachain_open_height: replace.accept_time,
                        bitcoin_open_height: replace.btc_height,
                    },
                );
            }
            i += 1;
        }
        assert(requests@.subrange(0, requests@.len() as int) =~= requests@);
        open
    }
}

} // verus!
