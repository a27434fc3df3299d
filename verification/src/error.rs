//! Errors of the vault's scheduler.

use vstd::prelude::*;

verus! {

/// Failures that the vault's scheduler reports to its caller.
#[derive(Clone, Copy, Debug, PartialEq, Eq, Structural)]
pub enum Error {
    /// A block count or a deadline does not fit the integer width.
    ArithmeticOverflow,
    /// A division by a block interval of zero.
    ArithmeticUnderflow,
    /// The event queue was closed by its sender.
    ChannelClosed,
}

} // verus!
