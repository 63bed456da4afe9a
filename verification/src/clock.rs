//! The time of this computer.

use crate::error::DisplayMuxError;
use vstd::prelude::*;

verus! {

/// A point in time, carried through unread.
#[verifier::external_type_specification]
#[verifier::external_body]
pub struct ExSystemTime(std::time::SystemTime);

/// That a point in time lies before another, carried through unread.
#[verifier::external_type_specification]
#[verifier::external_body]
pub struct ExSystemTimeError(std::time::SystemTimeError);

/// `SystemTime::now` reads the clock; nothing is known of what it shows.
pub assume_specification[ std::time::SystemTime::now ]() -> std::time::SystemTime
;

/// `Duration::as_secs` gives the whole seconds of a length of time.
pub assume_specification[ std::time::Duration::as_secs ](elapsed: &std::time::Duration) -> u64
;

/// `Duration::as_millis` gives the whole milliseconds of a length of time.
pub assume_specification[ std::time::Duration::as_millis ](elapsed: &std::time::Duration) -> u128
;

/// `SystemTime::duration_since` the Unix epoch; fails where the clock shows a
/// time before it, and nothing else is known of it.
#[verifier::external_body]
fn since_epoch(now: std::time::SystemTime) -> Result<
    std::time::Duration,
    std::time::SystemTimeError,
> {
    now.duration_since(std::time::UNIX_EPOCH)
}

/// What `SystemTimeError` says of itself; nothing is known of the words.
#[verifier::external_body]
fn time_error_text(error: &std::time::SystemTimeError) -> String {
    error.to_string()
}

/// The seconds that passed since the Unix epoch, or a backend error with the
/// words of a clock that stands before it.
pub fn seconds_since_epoch(elapsed: Result<u64, String>) -> (result: Result<u64, DisplayMuxError>)
    ensures
        match elapsed {
            Ok(seconds) => result == Ok::<u64, DisplayMuxError>(seconds),
            Err(words) => result == Err::<u64, DisplayMuxError>(DisplayMuxError::Backend(words)),
        },
{
    match elapsed {
        Ok(seconds) => Ok(seconds),
        Err(words) => Err(DisplayMuxError::Backend(words)),
    }
}

/// Seconds since the Unix epoch, as this computer's clock shows them. Fails
/// with a backend error where the clock stands before the epoch. Nothing else
/// is known of the time.
pub fn unix_time() -> (result: Result<u64, DisplayMuxError>)
    ensures
        result matches Err(error) ==> error is Backend,
{
    let elapsed = match since_epoch(std::time::SystemTime::now()) {
        Ok(elapsed) => Ok(elapsed.as_secs()),
        Err(error) => Err(time_error_text(&error)),
    };
    seconds_since_epoch(elapsed)
}

/// A number of milliseconds as a stamp: 0 where there is none, and the largest
/// stamp where they are too many.
pub open spec fn stamp_of(millis: Option<u128>) -> u64 {
    match millis {
        None => 0,
        Some(count) => if count > u64::MAX {
            u64::MAX
        } else {
            count as u64
        },
    }
}

/// The stamp for the milliseconds that passed since the Unix epoch, or for a
/// clock that stands before it.
pub fn millis_stamp(millis: Option<u128>) -> (stamp: u64)
    ensures
        stamp == stamp_of(millis),
{
    match millis {
        None => 0,
        Some(count) => if count > u64::MAX as u128 {
            u64::MAX
        } else {
            count as u64
        },
    }
}

/// Later times never get earlier stamps.
pub proof fn stamps_never_go_back(earlier: Option<u128>, later: Option<u128>)
    requires
        earlier is None || (later is Some && earlier->0 <= later->0),
    ensures
        stamp_of(earlier) <= stamp_of(later),
{
}

/// A number of milliseconds that fits is its own stamp.
pub proof fn a_stamp_is_the_time(count: u128)
    ensures
        count <= u64::MAX ==> stamp_of(Some(count)) == count,
        count > u64::MAX ==> stamp_of(Some(count)) == u64::MAX,
        stamp_of(None) == 0,
{
}

/// Milliseconds since the Unix epoch, as this computer's clock shows them: 0
/// where the clock stands before the epoch, and the largest number where they
/// are too many. Nothing else is known of the time.
pub fn unix_time_ms() -> (stamp: u64)
    ensures
        exists|millis: Option<u128>| stamp == #[trigger] stamp_of(millis),
{
    match since_epoch(std::time::SystemTime::now()) {
        Ok(elapsed) => millis_stamp(Some(elapsed.as_millis())),
        Err(_) => millis_stamp(None),
    }
}

} // verus!
