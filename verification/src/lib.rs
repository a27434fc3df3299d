//! Verified core of the bridge clients.
//!
//! The vault's part is the cross-chain cancellation scheduler. A vault's
//! issue and replace requests must be executed within a period that is
//! counted in blocks of the parachain and, converted, in blocks of Bitcoin
//! ([`conversion`]). The scheduler ([`scheduler`]) keeps the list of open
//! requests with their deadlines on both chains ([`requests`]), takes one
//! event at a time, and has a request cancelled once both chains are past
//! its deadline. It serves both kinds of request through one trait
//! ([`canceller`]).
//!
//! The scheduler makes no call itself. `CancellationScheduler::process_event`
//! returns a `Step`: a call to make on the chain, whose answer goes back to
//! the scheduler, or the result of the event. The caller owns the chain
//! client and the event queue. What an event comes to under every possible
//! sequence of answers is stated and proved in [`run`].
//!
//! The faucet's part ([`faucet`]) is its policy: the amount paid to users and
//! to vaults, the cooldown between two payments to one account, and the
//! hexadecimal form of what crosses its RPC.
pub mod canceller;
pub mod conversion;
pub mod error;
pub mod faucet;
pub mod primitives;
pub mod requests;
pub mod run;
pub mod scheduler;
