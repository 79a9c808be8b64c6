//! Time (from the system clock), random identifiers and random bytes (from
//! the outside crates that provide them).

use vstd::prelude::*;
use std::time::{Duration, SystemTime, SystemTimeError, UNIX_EPOCH};

verus! {

/// Exclusive upper bound on any timestamp that `now_millis` returns (about 285 000
/// years after the epoch).
pub const TIMESTAMP_BOUND: i64 = 9_000_000_000_000_000;

#[verifier::external_type_specification]
#[verifier::external_body]
pub struct ExSystemTime(std::time::SystemTime);

#[verifier::external_type_specification]
#[verifier::external_body]
pub struct ExSystemTimeError(std::time::SystemTimeError);

/// The system clock's current reading (`SystemTime::now`); nothing is said of it.
#[verifier::external_body]
fn system_now() -> (t: SystemTime) {
    SystemTime::now()
}

/// How long after the Unix epoch `t` lies (`SystemTime::duration_since`
/// applied to `UNIX_EPOCH`); an error when `t` lies before the epoch.
#[verifier::external_body]
fn since_epoch(t: &SystemTime) -> (r: Result<Duration, SystemTimeError>) {
    t.duration_since(UNIX_EPOCH)
}

/// The whole milliseconds of `d` (`Duration::as_millis`); nothing is said of
/// the value.
#[verifier::external_body]
fn whole_millis(d: &Duration) -> (m: u128) {
    d.as_millis()
}

/// The current time in milliseconds since the Unix epoch, read from the system
/// clock. A clock set before the epoch reads as the epoch (0), and a reading
/// at or past `TIMESTAMP_BOUND` reads as the last millisecond before it, so the
/// result is always in `0..TIMESTAMP_BOUND` and reading the clock never fails.
pub(crate) fn now_millis() -> (t: i64)
    ensures
        0 <= t < TIMESTAMP_BOUND,
{
    let now = system_now();
    match since_epoch(&now) {
        Ok(d) => {
            let m = whole_millis(&d);
            if m < 9_000_000_000_000_000u128 {
                m as i64
            } else {
                TIMESTAMP_BOUND - 1
            }
        },
        Err(_) => 0,
    }
}

/// A random (version 4) UUID as a 128-bit integer, from
/// `uuid::Uuid::new_v4().as_u128()`; nothing is said of its value.
#[verifier::external_body]
pub(crate) fn new_uuid() -> (u: u128) {
    uuid::Uuid::new_v4().as_u128()
}

/// Thirty-two random bytes, from `rand::random::<[u8; 32]>()`; nothing is said
/// of their value.
#[verifier::external_body]
pub(crate) fn random_bytes() -> (b: [u8; 32]) {
    rand::random::<[u8; 32]>()
}

/// The lower-case hexadecimal digit for `n` in `0..16`.
pub open spec fn hex_digit(n: int) -> char {
    if n < 10 {
        ((('0' as int) + n) as u32) as char
    } else {
        ((('a' as int) + n - 10) as u32) as char
    }
}

/// The `k`-th hexadecimal digit of `u`, the most significant first (`k` in `0..32`).
pub open spec fn nibble(u: u128, k: int) -> int {
    ((u as int) / vstd::arithmetic::power::pow(16, (31 - k) as nat)) % 16
}

/// The hyphenated text of a UUID: its 32 hexadecimal digits, most significant
/// first, in lower case, grouped 8-4-4-4-12 by hyphens.
pub open spec fn uuid_text(u: u128) -> Seq<char> {
    Seq::new(
        36,
        |i: int|
            if i == 8 || i == 13 || i == 18 || i == 23 {
                '-'
            } else {
                hex_digit(
                    nibble(
                        u,
                        if i < 8 {
                            i
                        } else if i < 13 {
                            i - 1
                        } else if i < 18 {
                            i - 2
                        } else if i < 23 {
                            i - 3
                        } else {
                            i - 4
                        },
                    ),
                )
            },
    )
}

/// The text of the UUID `u`, as uuid's `Debug` (and `Display`) writes it: the
/// hyphenated lower-case form.
#[verifier::external_body]
pub(crate) fn uuid_to_string(u: u128) -> (s: String)
    ensures
        s@ == uuid_text(u),
{
    format!("{:?}", uuid::Uuid::from_u128(u))
}

} // verus!
