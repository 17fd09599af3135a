//! The wall clock that stamps chat messages.

use std::time::{Duration, SystemTime, SystemTimeError};
use vstd::prelude::*;
use crate::json::EncodeError;
use crate::protocol::{chat_envelope_json, chat_message_at};

verus! {

#[verifier::external_type_specification]
#[verifier::external_body]
pub struct ExSystemTime(SystemTime);

#[verifier::external_type_specification]
#[verifier::external_body]
pub struct ExSystemTimeError(SystemTimeError);

/// `SystemTime::now`: the current time of the machine's clock, of which
/// nothing can be promised.
#[verifier::external_body]
fn system_time_now() -> SystemTime {
    SystemTime::now()
}

/// `SystemTime::duration_since` the Unix epoch; it fails when the clock
/// stands before the epoch. Which of the two happens depends on the clock.
#[verifier::external_body]
fn since_unix_epoch(t: &SystemTime) -> Result<Duration, SystemTimeError> {
    t.duration_since(std::time::UNIX_EPOCH)
}

/// `Duration::as_secs`: the whole seconds of a duration. A duration is
/// opaque here, so nothing is said of the number.
#[verifier::external_body]
fn whole_secs(d: &Duration) -> u64 {
    d.as_secs()
}

/// `Duration::subsec_nanos`: the nanoseconds of a duration beyond its whole
/// seconds, which std documents to be less than one billion.
#[verifier::external_body]
fn subsec_nanos(d: &Duration) -> (r: u32)
    ensures
        r < 1_000_000_000,
{
    d.subsec_nanos()
}

/// The whole milliseconds of a clock reading given as (seconds, nanoseconds
/// beyond them) since the Unix epoch, truncated; 0 for no reading (a clock
/// that stands before the epoch).
pub open spec fn millis_since_epoch(reading: Option<(u64, u32)>) -> nat {
    match reading {
        None => 0,
        Some((secs, nanos)) => (secs * 1000 + nanos / 1_000_000) as nat,
    }
}

/// A clock reading as std can give it: the nanoseconds beyond the whole
/// seconds are less than one billion.
pub open spec fn is_reading(reading: Option<(u64, u32)>) -> bool {
    reading matches Some((_, nanos)) ==> nanos < 1_000_000_000
}

/// The milliseconds of a reading are its time truncated to whole
/// milliseconds: they cover no more than the reading, and one millisecond
/// more would cover more. No reading gives 0.
pub proof fn lemma_millis_truncate(secs: u64, nanos: u32)
    requires
        nanos < 1_000_000_000,
    ensures
        millis_since_epoch(None) == 0,
        millis_since_epoch(Some((secs, nanos))) * 1_000_000 <= secs * 1_000_000_000 + nanos,
        secs * 1_000_000_000 + nanos < (millis_since_epoch(Some((secs, nanos))) + 1) * 1_000_000,
{
    let m = millis_since_epoch(Some((secs, nanos)));
    let q = nanos / 1_000_000;
    assert(m == secs * 1000 + q);
    assert(q * 1_000_000 <= nanos < (q + 1) * 1_000_000) by (nonlinear_arith)
        requires
            q == nanos / 1_000_000,
            nanos >= 0,
    ;
    assert(m * 1_000_000 == secs * 1_000_000_000 + q * 1_000_000) by (nonlinear_arith)
        requires
            m == secs * 1000 + q,
    ;
}

/// The whole milliseconds of a clock reading (seconds, nanoseconds beyond
/// them) since the Unix epoch, or 0 where there is no reading.
pub fn millis_of(reading: Option<(u64, u32)>) -> (m: u128)
    ensures
        m == millis_since_epoch(reading),
        reading is None ==> m == 0,
        forall|secs: u64, nanos: u32|
            reading == Some((secs, nanos)) && nanos < 1_000_000_000 ==> m * 1_000_000 <= secs
                * 1_000_000_000 + nanos < (m + 1) * 1_000_000,
{
    proof {
        if let Some((secs, nanos)) = reading {
            if nanos < 1_000_000_000 {
                lemma_millis_truncate(secs, nanos);
            }
        }
    }
    match reading {
        None => 0,
        Some((secs, nanos)) => (secs as u128) * 1000 + (nanos / 1_000_000) as u128,
    }
}

/// Milliseconds since the Unix epoch by the machine's clock, truncated, or
/// 0 when the clock stands before the epoch.
pub fn now_millis() -> (r: u128)
    ensures
        exists|reading: Option<(u64, u32)>| is_reading(reading) && r == millis_since_epoch(reading),
{
    let now = system_time_now();
    let reading = match since_unix_epoch(&now) {
        Ok(d) => Some((whole_secs(&d), subsec_nanos(&d))),
        Err(_) => None,
    };
    let r = millis_of(reading);
    assert(is_reading(reading));
    r
}

/// The envelope that carries a chat message from `from` saying `message`,
/// stamped with the current time.
pub fn chat_message(from: String, message: String) -> (r: Result<String, EncodeError>)
    ensures
        r is Ok,
        exists|t: u128| r->Ok_0@ == chat_envelope_json(from@, message@, t as nat),
{
    let t = now_millis();
    chat_message_at(from, message, t)
}

} // verus!
