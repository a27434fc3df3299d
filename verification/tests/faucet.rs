use chrono::{DateTime, Duration, Utc};
use interbtc_clients::faucet::{
    check_cooldown, filter_requests_older_than_cooldown, get_faucet_amount, hex_response,
    hex_to_buffer, recent_timestamp, FaucetError, HexError, Timestamp, DOT_TO_PLANCK,
    FAUCET_COOLDOWN_HOURS,
};
use std::collections::HashMap;

fn timestamp(datetime: DateTime<Utc>) -> Timestamp {
    Timestamp { secs: datetime.timestamp(), nanos: datetime.timestamp_subsec_nanos() }
}

/// A faucet whose store, balances and vault registry are kept in memory.
#[derive(Default)]
struct Faucet {
    store: HashMap<String, Vec<String>>,
    balances: HashMap<String, u128>,
    vaults: Vec<String>,
}

impl Faucet {
    fn free_balance(&self, account: &str) -> u128 {
        *self.balances.get(account).unwrap_or(&0)
    }

    fn fund_account(
        &mut self,
        account: &str,
        user_allowance: u128,
        vault_allowance: u128,
    ) -> Result<(), FaucetError> {
        let requests = self.store.get(account).cloned().unwrap_or_default();
        let now = Utc::now();
        check_cooldown(&requests, timestamp(now))?;
        self.store.insert(account.to_string(), vec![Utc::now().to_rfc2822()]);
        let is_vault = self.vaults.iter().any(|vault| vault == account);
        let amount = get_faucet_amount(is_vault, user_allowance, vault_allowance)?;
        *self.balances.entry(account.to_string()).or_insert(0) += amount;
        Ok(())
    }
}

#[test]
fn test_fund_user_once_succeeds() {
    let mut faucet = Faucet::default();
    let dot_to_planck = 10000000000;
    let user_allowance: u128 = 1;
    let vault_allowance: u128 = 500;
    let expected_amount: u128 = user_allowance.checked_mul(dot_to_planck).unwrap();

    let bob_funds_before = faucet.free_balance("bob");
    faucet
        .fund_account("bob", user_allowance, vault_allowance)
        .expect("Funding the account failed");
    let bob_funds_after = faucet.free_balance("bob");

    assert_eq!(bob_funds_before + expected_amount, bob_funds_after);
}

#[test]
fn test_fund_user_after_cooldown_succeeds() {
    let mut faucet = Faucet::default();
    let dot_to_planck = 10000000000;
    let user_allowance: u128 = 1;
    let vault_allowance: u128 = 500;
    let expected_amount: u128 = user_allowance.checked_mul(dot_to_planck).unwrap();

    // Add a request older than the cooldown length to the store, so it will be filtered out
    let filter_datetime = Utc::now().checked_sub_signed(Duration::hours(7)).unwrap();
    let requests = vec![filter_datetime.to_rfc2822()];
    faucet.store.insert("bob".to_string(), requests);

    let bob_funds_before = faucet.free_balance("bob");
    faucet
        .fund_account("bob", user_allowance, vault_allowance)
        .expect("Funding the account failed");
    let bob_funds_after = faucet.free_balance("bob");

    assert_eq!(bob_funds_before + expected_amount, bob_funds_after);
}

#[test]
fn test_fund_user_twice_in_a_row_fails() {
    let mut faucet = Faucet::default();
    let dot_to_planck = 10000000000;
    let user_allowance: u128 = 1;
    let vault_allowance: u128 = 500;
    let expected_amount: u128 = user_allowance.checked_mul(dot_to_planck).unwrap();

    let bob_funds_before = faucet.free_balance("bob");
    faucet
        .fund_account("bob", user_allowance, vault_allowance)
        .expect("Funding the account failed");
    let bob_funds_after = faucet.free_balance("bob");
    assert_eq!(bob_funds_before + expected_amount, bob_funds_after);

    assert_eq!(
        faucet.fund_account("bob", user_allowance, vault_allowance),
        Err(FaucetError::FaucetOveruseError)
    );
    assert_eq!(faucet.free_balance("bob"), bob_funds_after);
}

#[test]
fn test_fund_vault_once_succeeds() {
    let mut faucet = Faucet::default();
    let dot_to_planck = 10000000000;
    let user_allowance: u128 = 1;
    let vault_allowance: u128 = 500;
    let expected_amount: u128 = vault_allowance.checked_mul(dot_to_planck).unwrap();

    faucet.vaults.push("bob".to_string());
    faucet.balances.insert("bob".to_string(), 100);

    let bob_funds_before = faucet.free_balance("bob");
    faucet
        .fund_account("bob", user_allowance, vault_allowance)
        .expect("Funding the account failed");
    let bob_funds_after = faucet.free_balance("bob");

    assert_eq!(bob_funds_before + expected_amount, bob_funds_after);
}

#[test]
fn test_fund_vault_twice_in_a_row_fails() {
    let mut faucet = Faucet::default();
    let dot_to_planck = 10000000000;
    let user_allowance: u128 = 1;
    let vault_allowance: u128 = 500;
    let expected_amount: u128 = vault_allowance.checked_mul(dot_to_planck).unwrap();

    faucet.vaults.push("bob".to_string());
    faucet.balances.insert("bob".to_string(), 100);

    let bob_funds_before = faucet.free_balance("bob");
    faucet
        .fund_account("bob", user_allowance, vault_allowance)
        .expect("Funding the account failed");
    let bob_funds_after = faucet.free_balance("bob");

    assert_eq!(bob_funds_before + expected_amount, bob_funds_after);

    assert_eq!(
        faucet.fund_account("bob", user_allowance, vault_allowance),
        Err(FaucetError::FaucetOveruseError)
    );
}

#[test]
fn allowances_are_paid_in_planck() {
    assert_eq!(DOT_TO_PLANCK, 10_000_000_000);
    assert_eq!(get_faucet_amount(false, 1, 500), Ok(10_000_000_000));
    assert_eq!(get_faucet_amount(true, 1, 500), Ok(5_000_000_000_000));
    assert_eq!(get_faucet_amount(true, 0, 0), Ok(0));
}

#[test]
fn an_allowance_that_does_not_fit_is_a_math_error() {
    let largest = u128::MAX / DOT_TO_PLANCK;
    assert_eq!(get_faucet_amount(false, largest, 1), Ok(largest * DOT_TO_PLANCK));
    // either allowance is checked, whichever is paid out
    assert_eq!(get_faucet_amount(false, 1, largest + 1), Err(FaucetError::MathError));
    assert_eq!(get_faucet_amount(true, largest + 1, 1), Err(FaucetError::MathError));
    assert_eq!(get_faucet_amount(true, u128::MAX, u128::MAX), Err(FaucetError::MathError));
}

#[test]
fn request_times_are_read_as_rfc2822() {
    // 2015-02-18 23:16:09 UTC
    let requested = "Wed, 18 Feb 2015 23:16:09 GMT".to_string();
    let now = Timestamp { secs: 1_424_301_369 + 100, nanos: 0 };
    assert_eq!(
        filter_requests_older_than_cooldown(&vec![requested.clone()], now),
        vec![Timestamp { secs: 1_424_301_369, nanos: 0 }]
    );
    // the zone of the request does not matter, the instant does
    let same_instant = "Thu, 19 Feb 2015 01:16:09 +0200".to_string();
    assert_eq!(
        filter_requests_older_than_cooldown(&vec![same_instant], now),
        vec![Timestamp { secs: 1_424_301_369, nanos: 0 }]
    );
    assert_eq!(check_cooldown(&vec![requested], now), Err(FaucetError::FaucetOveruseError));
}

#[test]
fn cooldown_lasts_six_hours() {
    assert_eq!(FAUCET_COOLDOWN_HOURS, 6);
    let requested = "Wed, 18 Feb 2015 23:16:09 GMT".to_string();
    let requests = vec![requested];
    let at = |secs: i64, nanos: u32| Timestamp { secs: 1_424_301_369 + secs, nanos };
    // exactly six hours later the request still counts
    assert_eq!(check_cooldown(&requests, at(21_600, 0)), Err(FaucetError::FaucetOveruseError));
    // a nanosecond later it does not
    assert_eq!(check_cooldown(&requests, at(21_600, 1)), Ok(()));
    assert_eq!(check_cooldown(&requests, at(21_601, 0)), Ok(()));
    assert_eq!(check_cooldown(&requests, at(0, 0)), Err(FaucetError::FaucetOveruseError));
    // a request from the future counts too
    assert_eq!(check_cooldown(&requests, at(-500, 0)), Err(FaucetError::FaucetOveruseError));
    assert_eq!(check_cooldown(&vec![], at(0, 0)), Ok(()));
}

#[test]
fn entries_that_are_no_dates_are_passed_over() {
    let now = timestamp(Utc::now());
    let recent = Utc::now().checked_sub_signed(Duration::hours(5)).unwrap();
    let old = Utc::now().checked_sub_signed(Duration::hours(7)).unwrap();
    let requests = vec![
        "yesterday".to_string(),
        old.to_rfc2822(),
        String::new(),
        recent.to_rfc2822(),
        "2015-02-18T23:16:09Z".to_string(),
    ];
    assert_eq!(
        filter_requests_older_than_cooldown(&requests, now),
        vec![Timestamp { secs: recent.timestamp(), nanos: 0 }]
    );
    assert_eq!(check_cooldown(&requests, now), Err(FaucetError::FaucetOveruseError));
    assert_eq!(check_cooldown(&requests[..3].to_vec(), now), Ok(()));
}

#[test]
fn cooldown_compares_seconds_then_nanoseconds() {
    let now = Timestamp { secs: 100_000, nanos: 500 };
    let start = 100_000 - 21_600;
    let kept = |secs: i64, nanos: u32| recent_timestamp(Some((secs, nanos)), now).is_some();
    assert!(kept(start, 500));
    assert!(!kept(start, 499));
    assert!(kept(start + 1, 0));
    assert!(!kept(start - 1, 999_999_999));
    assert!(kept(i64::MAX, 0));
    assert!(!kept(i64::MIN, u32::MAX));
    assert_eq!(recent_timestamp(None, now), None);
    assert_eq!(
        recent_timestamp(Some((start, 500)), now),
        Some(Timestamp { secs: start, nanos: 500 })
    );
    // a leap second at `now` counts as the second after it
    let leap = Timestamp { secs: 100_000, nanos: 1_000_000_500 };
    assert!(Timestamp { secs: start + 1, nanos: 500 }.is_within_cooldown(&leap));
    assert!(!Timestamp { secs: start + 1, nanos: 499 }.is_within_cooldown(&leap));
    assert!(!Timestamp { secs: start, nanos: 1_999_999_999 }.is_within_cooldown(&leap));
    // at the ends of the range nothing overflows
    let first = Timestamp { secs: i64::MIN, nanos: 0 };
    assert!(first.is_within_cooldown(&first));
    assert!(!first.is_within_cooldown(&Timestamp { secs: i64::MAX, nanos: u32::MAX }));
}

#[test]
fn the_cooldown_start_agrees_with_chrono() {
    let now = DateTime::from_timestamp(1_424_301_419, 1_250_000_000).unwrap();
    let start = now.checked_sub_signed(Duration::hours(6)).unwrap();
    let now = timestamp(now);
    assert_eq!(now.nanos, 1_250_000_000);
    assert!(timestamp(start).is_within_cooldown(&now));
    let before = start.checked_sub_signed(Duration::nanoseconds(1)).unwrap();
    assert!(!timestamp(before).is_within_cooldown(&now));
}

#[test]
fn buffers_are_read_from_hex() {
    assert_eq!(hex_to_buffer("0x0102ff"), Ok(vec![1, 2, 255]));
    assert_eq!(hex_to_buffer("0xABcdEf09"), Ok(vec![0xab, 0xcd, 0xef, 0x09]));
    assert_eq!(hex_to_buffer("0x"), Ok(vec![]));
    // the first two bytes are skipped, whatever they are
    assert_eq!(hex_to_buffer("zz10"), Ok(vec![16]));
    assert_eq!(hex_to_buffer("0012"), Ok(vec![0x12]));
}

#[test]
fn what_is_no_hex_is_refused() {
    assert_eq!(hex_to_buffer("0x123"), Err(HexError::OddLength));
    assert_eq!(hex_to_buffer("0x12zz"), Err(HexError::InvalidHexCharacter { c: 'z', index: 2 }));
    assert_eq!(hex_to_buffer("0x1g"), Err(HexError::InvalidHexCharacter { c: 'g', index: 1 }));
    assert_eq!(hex_to_buffer("0x 1"), Err(HexError::InvalidHexCharacter { c: ' ', index: 0 }));
    // an odd length is found before a character that is no digit
    assert_eq!(hex_to_buffer("0xz"), Err(HexError::OddLength));
    // a character of two bytes is two bytes that are no digits
    assert_eq!(
        hex_to_buffer("0x\u{e9}"),
        Err(HexError::InvalidHexCharacter { c: '\u{c3}', index: 0 })
    );
}

#[test]
fn responses_are_written_as_hex() {
    assert_eq!(hex_response(&[1, 2, 255]), "0x0102ff");
    assert_eq!(hex_response(&[]), "0x");
    assert_eq!(hex_response(&[0x00, 0x9a, 0xbc, 0xde, 0xf0]), "0x009abcdef0");
    assert_eq!(hex_to_buffer(&hex_response(&[7, 70, 170])), Ok(vec![7, 70, 170]));
}
