//! The faucet's rules: who is paid how much, how long an account waits
//! between two payments, and how buffers cross its RPC in hexadecimal.

use vstd::prelude::*;
use vstd::string::*;
use vstd::utf8::is_char_boundary;

verus! {

/// Hours for which an account that was funded is not funded again.
pub const FAUCET_COOLDOWN_HOURS: i64 = 6;

/// Planck in one DOT.
pub const DOT_TO_PLANCK: u128 = 10_000_000_000;

/// Why the faucet turns a request down.
#[derive(Clone, Copy, Debug, PartialEq, Eq, Structural)]
pub enum FaucetError {
    /// An allowance in Planck does not fit the balance's integer width.
    MathError,
    /// The account was funded within the cooldown.
    FaucetOveruseError,
}

/// Why a string is not the hexadecimal form of a byte buffer.
#[derive(Clone, Copy, Debug, PartialEq, Eq, Structural)]
pub enum HexError {
    /// The byte `c` at `index` is no hexadecimal digit.
    InvalidHexCharacter { c: char, index: usize },
    /// The digits do not pair up to bytes.
    OddLength,
    /// The digits do not fill a buffer of fixed length.
    InvalidStringLength,
}

/// An instant in UTC: whole seconds since the Unix epoch, and nanoseconds
/// since the last second boundary. Within a leap second the nanoseconds
/// exceed 999,999,999.
#[derive(Clone, Copy, Debug, PartialEq, Eq, Structural)]
pub struct Timestamp {
    pub secs: i64,
    pub nanos: u32,
}

/// The start of the cooldown that ends at `now`, in seconds since the epoch
/// and nanoseconds. A leap second at `now` counts as the second after it.
pub open spec fn cooldown_start(now: Timestamp) -> (int, int) {
    if now.nanos >= 1_000_000_000 {
        (now.secs + 1 - FAUCET_COOLDOWN_HOURS * 3_600, now.nanos - 1_000_000_000)
    } else {
        (now.secs - FAUCET_COOLDOWN_HOURS * 3_600, now.nanos as int)
    }
}

impl Timestamp {
    /// Whether this instant is no earlier than the start of the cooldown
    /// that ends at `now`. Instants are ordered by their seconds, then by
    /// their nanoseconds.
    pub open spec fn within_cooldown(self, now: Timestamp) -> bool {
        let start = cooldown_start(now);
        self.secs > start.0 || (self.secs == start.0 && self.nanos >= start.1)
    }

    /// Tells whether a request made at this instant still blocks a request
    /// made at `now`.
    pub fn is_within_cooldown(&self, now: &Timestamp) -> (recent: bool)
        ensures
            recent == self.within_cooldown(*now),
    {
        let leap = now.nanos >= 1_000_000_000;
        let start_secs: i128 = if leap {
            now.secs as i128 + 1 - FAUCET_COOLDOWN_HOURS as i128 * 3_600
        } else {
            now.secs as i128 - FAUCET_COOLDOWN_HOURS as i128 * 3_600
        };
        let start_nanos: u32 = if leap {
            now.nanos - 1_000_000_000
        } else {
            now.nanos
        };
        let secs = self.secs as i128;
        secs > start_secs || (secs == start_secs && self.nanos >= start_nanos)
    }
}

/// The instant that chrono reads from a string in the date format of
/// RFC 2822, as seconds since the epoch and nanoseconds, or nothing where it
/// rejects the string.
pub uninterp spec fn rfc2822_timestamp(s: Seq<char>) -> Option<(i64, u32)>;

/// Calls `chrono::DateTime::parse_from_rfc2822` and reads the instant off
/// the date it returns, with `timestamp` and `timestamp_subsec_nanos`. The
/// parser looks at nothing but the string, so the same string gives the same
/// result; what that result is on a given string is not stated.
#[verifier::external_body]
fn parse_from_rfc2822(s: &str) -> (parsed: Option<(i64, u32)>)
    ensures
        parsed == rfc2822_timestamp(s@),
{
    match chrono::DateTime::parse_from_rfc2822(s) {
        Ok(datetime) => Some((datetime.timestamp(), datetime.timestamp_subsec_nanos())),
        Err(_) => None,
    }
}

/// What a parsed request time counts for at `now`: its instant if it lies
/// within the cooldown, nothing if it is older or was not a date.
pub open spec fn recent_timestamp_spec(
    parsed: Option<(i64, u32)>,
    now: Timestamp,
) -> Option<Timestamp> {
    match parsed {
        Some((secs, nanos)) => if (Timestamp { secs, nanos }).within_cooldown(now) {
            Some(Timestamp { secs, nanos })
        } else {
            None
        },
        None => None,
    }
}

/// Keeps the instant of a parsed request time if it lies within the cooldown
/// that ends at `now`.
pub fn recent_timestamp(parsed: Option<(i64, u32)>, now: Timestamp) -> (recent: Option<Timestamp>)
    ensures
        recent == recent_timestamp_spec(parsed, now),
{
    match parsed {
        Some((secs, nanos)) => {
            let requested = Timestamp { secs, nanos };
            if requested.is_within_cooldown(&now) {
                Some(requested)
            } else {
                None
            }
        },
        None => None,
    }
}

/// The request times of an account that lie within the cooldown ending at
/// `now`, in the order in which they are stored. Entries that are no dates
/// are passed over.
pub open spec fn recent_requests(requests: Seq<String>, now: Timestamp) -> Seq<Timestamp> {
    requests.filter_map(
        |request: String| recent_timestamp_spec(rfc2822_timestamp(request@), now),
    )
}

/// Reads the stored request times of an account and keeps those that are not
/// older than the cooldown.
pub fn filter_requests_older_than_cooldown(requests: &Vec<String>, now: Timestamp) -> (recent:
    Vec<Timestamp>)
    ensures
        recent@ == recent_requests(requests@, now),
{
    let ghost keep = |request: String| recent_timestamp_spec(rfc2822_timestamp(request@), now);
    let mut recent: Vec<Timestamp> = Vec::new();
    let mut i: usize = 0;
    while i < requests.len()
        invariant
            i <= requests.len(),
            recent@ == requests@.subrange(0, i as int).filter_map(keep),
            keep == |request: String| recent_timestamp_spec(rfc2822_timestamp(request@), now),
        decreases requests.len() - i,
    {
        assert(requests@.subrange(0, i + 1).drop_last() =~= requests@.subrange(0, i as int));
        let parsed = parse_from_rfc2822(requests[i].as_str());
        match recent_timestamp(parsed, now) {
            Some(requested) => {
                recent.push(requested);
            },
            None => {},
        }
        i += 1;
    }
    assert(requests@.subrange(0, requests@.len() as int) =~= requests@);
    recent
}

/// Decides whether an account with these stored request times may be funded
/// at `now`: it may unless one of them lies within the cooldown.
pub fn check_cooldown(requests: &Vec<String>, now: Timestamp) -> (admitted: Result<(), FaucetError>)
    ensures
        recent_requests(requests@, now).len() == 0 ==> admitted == Ok::<(), FaucetError>(()),
        recent_requests(requests@, now).len() > 0 ==> admitted == Err::<(), FaucetError>(
            FaucetError::FaucetOveruseError,
        ),
{
    let filtered_requests = filter_requests_older_than_cooldown(requests, now);
    if filtered_requests.len() > 0 {
        return Err(FaucetError::FaucetOveruseError);
    }
    Ok(())
}

/// The amount that the faucet pays out, in Planck: the vault allowance to a
/// registered vault, the user allowance to any other account. Both
/// allowances must fit the width in Planck, whichever is paid.
pub open spec fn faucet_amount(
    is_vault: bool,
    user_allowance_dot: u128,
    vault_allowance_dot: u128,
) -> Result<u128, FaucetError> {
    if vault_allowance_dot * DOT_TO_PLANCK > u128::MAX || user_allowance_dot * DOT_TO_PLANCK
        > u128::MAX {
        Err(FaucetError::MathError)
    } else if is_vault {
        Ok((vault_allowance_dot * DOT_TO_PLANCK) as u128)
    } else {
        Ok((user_allowance_dot * DOT_TO_PLANCK) as u128)
    }
}

/// Computes the amount to pay out to an account, given whether the chain
/// knows it as a vault.
pub fn get_faucet_amount(
    is_vault: bool,
    user_allowance_dot: u128,
    vault_allowance_dot: u128,
) -> (amount: Result<u128, FaucetError>)
    ensures
        amount == faucet_amount(is_vault, user_allowance_dot, vault_allowance_dot),
{
    let vault_allowance_planck = match vault_allowance_dot.checked_mul(DOT_TO_PLANCK) {
        Some(planck) => planck,
        None => {
            return Err(FaucetError::MathError);
        },
    };
    let user_allowance_planck = match user_allowance_dot.checked_mul(DOT_TO_PLANCK) {
        Some(planck) => planck,
        None => {
            return Err(FaucetError::MathError);
        },
    };
    if is_vault {
        Ok(vault_allowance_planck)
    } else {
        Ok(user_allowance_planck)
    }
}

/// The value of a hexadecimal digit in ASCII, of either case.
pub open spec fn hex_digit_value(c: u8) -> Option<u8> {
    if 0x30 <= c <= 0x39 {
        Some((c - 0x30) as u8)
    } else if 0x41 <= c <= 0x46 {
        Some((c - 0x41 + 10) as u8)
    } else if 0x61 <= c <= 0x66 {
        Some((c - 0x61 + 10) as u8)
    } else {
        None
    }
}

/// Whether `index` is the place of the first byte that is no hexadecimal
/// digit.
pub open spec fn is_first_invalid(data: Seq<u8>, index: int) -> bool {
    &&& 0 <= index < data.len()
    &&& hex_digit_value(data[index]) is None
    &&& forall|j: int| 0 <= j < index ==> hex_digit_value(#[trigger] data[j]) is Some
}

/// The bytes that a string of hexadecimal digits stands for: one for each
/// pair of digits, the first digit of a pair being the higher.
pub open spec fn hex_decoded(data: Seq<u8>) -> Seq<u8> {
    Seq::new(
        data.len() / 2,
        |i: int|
            (hex_digit_value(data[2 * i])->0 * 16 + hex_digit_value(data[2 * i + 1])->0) as u8,
    )
}

/// Whether decoding `data` from hexadecimal gives `decoded`: the bytes, or
/// the error for an odd number of digits, or else the first byte that is no
/// digit.
pub open spec fn is_hex_decoding(data: Seq<u8>, decoded: Result<Seq<u8>, HexError>) -> bool {
    if data.len() % 2 != 0 {
        decoded == Err::<Seq<u8>, HexError>(HexError::OddLength)
    } else {
        match decoded {
            Ok(bytes) => bytes == hex_decoded(data) && forall|i: int|
                0 <= i < data.len() ==> hex_digit_value(#[trigger] data[i]) is Some,
            Err(HexError::InvalidHexCharacter { c, index }) => is_first_invalid(data, index as int)
                && c == data[index as int] as char,
            Err(_) => false,
        }
    }
}

/// Calls `hex::decode`. As its source has it: a string of odd length is
/// refused as such; else each pair of digits gives a byte, and the first
/// byte that is no digit is reported with its place.
#[verifier::external_body]
fn hex_decode(data: &[u8]) -> (decoded: Result<Vec<u8>, HexError>)
    ensures
        is_hex_decoding(
            data@,
            match decoded {
                Ok(bytes) => Ok(bytes@),
                Err(e) => Err(e),
            },
        ),
{
    match hex::decode(data) {
        Ok(bytes) => Ok(bytes),
        Err(hex::FromHexError::InvalidHexCharacter { c, index }) => Err(
            HexError::InvalidHexCharacter { c, index },
        ),
        Err(hex::FromHexError::OddLength) => Err(HexError::OddLength),
        Err(hex::FromHexError::InvalidStringLength) => Err(HexError::InvalidStringLength),
    }
}

/// Reads a byte buffer from its hexadecimal form behind a prefix of two
/// bytes, such as `0x`. The prefix is skipped, whatever it holds.
pub fn hex_to_buffer(string: &str) -> (buffer: Result<Vec<u8>, HexError>)
    requires
        is_char_boundary(string.spec_bytes(), 2),
    ensures
        is_hex_decoding(
            string.spec_bytes().skip(2),
            match buffer {
                Ok(bytes) => Ok(bytes@),
                Err(e) => Err(e),
            },
        ),
{
    let (_, digits) = string.split_at(2);
    hex_decode(digits.as_bytes())
}

/// The lower-case hexadecimal digit of a value below sixteen.
pub open spec fn hex_digit(value: int) -> char {
    if value < 10 {
        (0x30 + value) as char
    } else {
        (0x61 + value - 10) as char
    }
}

/// The hexadecimal form of a byte buffer: two lower-case digits for each
/// byte, the higher first.
pub open spec fn hex_encoded(data: Seq<u8>) -> Seq<char> {
    Seq::new(
        2 * data.len(),
        |i: int|
            if i % 2 == 0 {
                hex_digit(data[i / 2] as int / 16)
            } else {
                hex_digit(data[i / 2] as int % 16)
            },
    )
}

/// Calls `hex::encode`, which writes each byte as two lower-case digits.
#[verifier::external_body]
fn hex_encode(data: &[u8]) -> (encoded: String)
    ensures
        encoded@ == hex_encoded(data@),
{
    hex::encode(data)
}

/// The response that carries `data`: its hexadecimal form behind `0x`.
pub fn hex_response(data: &[u8]) -> (response: String)
    ensures
        response@ == seq!['0', 'x'] + hex_encoded(data@),
{
    let mut response = String::from_str("0x");
    let encoded = hex_encode(data);
    response.append(encoded.as_str());
    proof {
        reveal_strlit("0x");
    }
    response
}

} // verus!
