//! Conversion of a number of blocks from one chain's clock to another's.

use crate::error::Error;
use vstd::prelude::*;

verus! {

/// Nominal time between two parachain blocks, in milliseconds.
pub const MILLISECS_PER_BLOCK: u64 = 6_000;

/// Nominal time between two Bitcoin blocks, in milliseconds.
pub const BITCOIN_BLOCK_INTERVAL_MILLIS: u64 = 600_000;

/// The least number of blocks of `to_interval` milliseconds each that last at
/// least as long as `blocks` blocks of `from_interval` milliseconds each.
pub open spec fn ceil_blocks(blocks: nat, from_interval: nat, to_interval: nat) -> nat
    recommends
        to_interval > 0,
{
    ((blocks * from_interval + to_interval - 1) / (to_interval as int)) as nat
}

/// What the conversion of a duration between two block clocks returns: the
/// rounded-up block count, or the error of the step that does not fit.
pub open spec fn blocks_rounded_up_spec(
    blocks: u32,
    from_interval: u64,
    to_interval: u64,
) -> Result<u32, Error> {
    if blocks * from_interval > u64::MAX {
        Err(Error::ArithmeticOverflow)
    } else if to_interval == 0 {
        Err(Error::ArithmeticUnderflow)
    } else if ceil_blocks(blocks as nat, from_interval as nat, to_interval as nat) > u32::MAX {
        Err(Error::ArithmeticOverflow)
    } else {
        Ok(ceil_blocks(blocks as nat, from_interval as nat, to_interval as nat) as u32)
    }
}

/// `ceil_blocks` is the ceiling of the quotient: it covers the whole duration,
/// and one block less would not.
pub proof fn lemma_ceil_blocks_is_least_cover(blocks: nat, from_interval: nat, to_interval: nat)
    requires
        to_interval > 0,
    ensures
        ceil_blocks(blocks, from_interval, to_interval) * to_interval >= blocks * from_interval,
        (ceil_blocks(blocks, from_interval, to_interval) - 1) * to_interval < blocks
            * from_interval,
{
    let duration = blocks * from_interval;
    let d = to_interval as int;
    let n = (duration + d - 1) / d;
    assert(0 <= duration) by (nonlinear_arith)
        requires
            duration == blocks * from_interval,
    ;
    assert(n * d <= duration + d - 1 < n * d + d && n >= 0) by (nonlinear_arith)
        requires
            d > 0,
            duration >= 0,
            n == (duration + d - 1) / d,
    ;
    assert((n - 1) * d == n * d - d) by (nonlinear_arith);
}

/// For every period and every pair of block intervals, a conversion that
/// succeeds never under-estimates: the converted period, counted in blocks of
/// the target chain, lasts at least as long as the period that was converted.
pub proof fn lemma_conversion_never_underestimates(
    blocks: u32,
    from_interval: u64,
    to_interval: u64,
)
    ensures
        blocks_rounded_up_spec(blocks, from_interval, to_interval) matches Ok(converted)
            ==> converted * to_interval >= blocks * from_interval,
{
    if blocks_rounded_up_spec(blocks, from_interval, to_interval) is Ok {
        lemma_ceil_blocks_is_least_cover(blocks as nat, from_interval as nat, to_interval as nat);
    }
}

/// Converts a duration of `blocks` blocks on a chain with one block every
/// `from_interval` milliseconds into blocks of a chain with one block every
/// `to_interval` milliseconds, rounding up.
pub fn blocks_rounded_up(blocks: u32, from_interval: u64, to_interval: u64) -> (converted:
    Result<u32, Error>)
    ensures
        converted == blocks_rounded_up_spec(blocks, from_interval, to_interval),
        converted matches Ok(n) ==> n * to_interval >= blocks * from_interval && (n - 1)
            * to_interval < blocks * from_interval,
{
    let millis = match (blocks as u64).checked_mul(from_interval) {
        Some(millis) => millis,
        None => {
            return Err(Error::ArithmeticOverflow);
        },
    };
    if to_interval == 0 {
        return Err(Error::ArithmeticUnderflow);
    }
    let denominator = to_interval as u128;
    let num_blocks: u128 = (millis as u128 + denominator - 1) / denominator;
    proof {
        lemma_ceil_blocks_is_least_cover(blocks as nat, from_interval as nat, to_interval as nat);
    }
    if num_blocks > u32::MAX as u128 {
        return Err(Error::ArithmeticOverflow);
    }
    Ok(num_blocks as u32)
}

/// What `parachain_blocks_to_bitcoin_blocks_rounded_up` returns: one Bitcoin
/// block for every hundred parachain blocks or part of them.
pub open spec fn bitcoin_blocks_rounded_up(parachain_blocks: u32) -> u32 {
    ((parachain_blocks + 99) / 100) as u32
}

/// At the nominal intervals the conversion never fails, its result is
/// `bitcoin_blocks_rounded_up`, and that many Bitcoin blocks last at least as
/// long as the parachain blocks.
pub proof fn lemma_bitcoin_blocks_rounded_up(parachain_blocks: u32)
    ensures
        blocks_rounded_up_spec(parachain_blocks, MILLISECS_PER_BLOCK, BITCOIN_BLOCK_INTERVAL_MILLIS)
            == Ok::<u32, Error>(bitcoin_blocks_rounded_up(parachain_blocks)),
        bitcoin_blocks_rounded_up(parachain_blocks) * BITCOIN_BLOCK_INTERVAL_MILLIS
            >= parachain_blocks * MILLISECS_PER_BLOCK,
{
}

/// Converts a number of parachain blocks into the number of Bitcoin blocks
/// that take at least as long, at the two chains' nominal block intervals.
pub fn parachain_blocks_to_bitcoin_blocks_rounded_up(parachain_blocks: u32) -> (bitcoin_blocks:
    Result<u32, Error>)
    ensures
        bitcoin_blocks == blocks_rounded_up_spec(
            parachain_blocks,
            MILLISECS_PER_BLOCK,
            BITCOIN_BLOCK_INTERVAL_MILLIS,
        ),
        bitcoin_blocks == Ok::<u32, Error>(bitcoin_blocks_rounded_up(parachain_blocks)),
{
    blocks_rounded_up(parachain_blocks, MILLISECS_PER_BLOCK, BITCOIN_BLOCK_INTERVAL_MILLIS)
}

} // verus!
