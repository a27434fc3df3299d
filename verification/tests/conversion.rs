use interbtc_clients::conversion::{
    blocks_rounded_up, parachain_blocks_to_bitcoin_blocks_rounded_up, BITCOIN_BLOCK_INTERVAL_MILLIS,
    MILLISECS_PER_BLOCK,
};
use interbtc_clients::error::Error;

#[test]
fn a_thousand_parachain_blocks_are_ten_bitcoin_blocks() {
    assert_eq!(parachain_blocks_to_bitcoin_blocks_rounded_up(1_000), Ok(10));
}

#[test]
fn conversion_rounds_up() {
    assert_eq!(parachain_blocks_to_bitcoin_blocks_rounded_up(0), Ok(0));
    assert_eq!(parachain_blocks_to_bitcoin_blocks_rounded_up(1), Ok(1));
    assert_eq!(parachain_blocks_to_bitcoin_blocks_rounded_up(99), Ok(1));
    assert_eq!(parachain_blocks_to_bitcoin_blocks_rounded_up(100), Ok(1));
    assert_eq!(parachain_blocks_to_bitcoin_blocks_rounded_up(101), Ok(2));
    assert_eq!(parachain_blocks_to_bitcoin_blocks_rounded_up(u32::MAX), Ok(42_949_673));
}

#[test]
fn conversion_at_other_rates() {
    assert_eq!(blocks_rounded_up(7, 3, 2), Ok(11));
    assert_eq!(blocks_rounded_up(7, 2, 7), Ok(2));
    assert_eq!(blocks_rounded_up(7, 0, 5), Ok(0));
    assert_eq!(blocks_rounded_up(0, 9, 5), Ok(0));
    assert_eq!(blocks_rounded_up(5, 12_000, 600_000), Ok(1));
    assert_eq!(blocks_rounded_up(u32::MAX, 1, 1), Ok(u32::MAX));
}

#[test]
fn conversion_never_underestimates() {
    for (blocks, from, to) in [
        (1_000u32, MILLISECS_PER_BLOCK, BITCOIN_BLOCK_INTERVAL_MILLIS),
        (1, 1, 1_000_000),
        (17, 13, 5),
        (123_456, 6_000, 7),
        (u32::MAX, 4_000_000_000, u64::MAX),
    ] {
        let converted = blocks_rounded_up(blocks, from, to).unwrap();
        let covered = converted as u128 * to as u128;
        let needed = blocks as u128 * from as u128;
        assert!(covered >= needed);
        // and it is the least such count
        assert!(converted == 0 || (converted as u128 - 1) * (to as u128) < needed);
    }
}

#[test]
fn conversion_reports_what_does_not_fit() {
    // the duration in milliseconds does not fit
    assert_eq!(blocks_rounded_up(3, u64::MAX / 2, 1_000), Err(Error::ArithmeticOverflow));
    assert_eq!(blocks_rounded_up(3, u64::MAX / 2, 0), Err(Error::ArithmeticOverflow));
    // no blocks of no length
    assert_eq!(blocks_rounded_up(3, 5, 0), Err(Error::ArithmeticUnderflow));
    assert_eq!(blocks_rounded_up(0, 0, 0), Err(Error::ArithmeticUnderflow));
    // the number of blocks does not fit
    assert_eq!(blocks_rounded_up(u32::MAX, 2, 1), Err(Error::ArithmeticOverflow));
    assert_eq!(blocks_rounded_up(u32::MAX, 1_000, 999), Err(Error::ArithmeticOverflow));
    assert_eq!(blocks_rounded_up(3, u64::MAX / 3, u64::MAX), Ok(1));
}
