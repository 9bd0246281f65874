//! The clock: the one thing that a run learns from outside.

use vstd::prelude::*;
use std::time::{Duration, SystemTime, UNIX_EPOCH};

verus! {

/// `SystemTime` of std: a point in time, of which nothing is known here.
#[verifier::external_type_specification]
#[verifier::external_body]
pub struct ExSystemTime(SystemTime);

/// Calls `SystemTime::now` of std. Nothing is promised of the time it
/// gives.
#[verifier::external_body]
fn system_now() -> SystemTime {
    SystemTime::now()
}

/// Calls `SystemTime::duration_since` of std with the epoch; `None` where
/// the time lies before it. Nothing is promised of the span.
#[verifier::external_body]
fn since_epoch(time: SystemTime) -> Option<Duration> {
    match time.duration_since(UNIX_EPOCH) {
        Ok(span) => Some(span),
        Err(_) => None,
    }
}

/// Calls `Duration::as_millis` of std. Nothing is promised of the number.
#[verifier::external_body]
fn whole_millis(span: Duration) -> u128 {
    span.as_millis()
}

/// The milliseconds since the epoch, as the system clock gives them now;
/// zero before the epoch, and the largest number that fits where they do
/// not. Two readings may be any two numbers.
pub(crate) fn read_millis() -> u64 {
    match since_epoch(system_now()) {
        Some(span) => reading_of(Some(whole_millis(span))),
        None => reading_of(None),
    }
}

/// The reading that a count of milliseconds since the epoch stands for:
/// the count itself, the largest reading where it does not fit, and zero
/// where the time lies before the epoch and there is no count.
pub open spec fn millis_reading(since: Option<u128>) -> u64 {
    match since {
        Some(millis) => if millis > 0xffff_ffff_ffff_ffff {
            0xffff_ffff_ffff_ffffu64
        } else {
            millis as u64
        },
        None => 0,
    }
}

/// Turns what the system clock gave into a reading.
pub fn reading_of(since: Option<u128>) -> (reading: u64)
    ensures
        reading == millis_reading(since),
{
    match since {
        Some(millis) => if millis > 0xffff_ffff_ffff_ffff {
            0xffff_ffff_ffff_ffff
        } else {
            millis as u64
        },
        None => 0,
    }
}

/// Whether the readings in `log` are the first of `clock`.
#[verifier::opaque]
pub open spec fn agrees(clock: Seq<u64>, log: Seq<u64>) -> bool {
    log.len() <= clock.len() && forall|i: int| 0 <= i < log.len() ==> clock[i] == log[i]
}

pub broadcast proof fn lemma_agrees_shorter(clock: Seq<u64>, shorter: Seq<u64>, longer: Seq<u64>)
    requires
        #[trigger] agrees(clock, longer),
        #[trigger] agrees(longer, shorter),
    ensures
        agrees(clock, shorter),
{
    reveal(agrees);
}

pub broadcast proof fn lemma_agrees_self(clock: Seq<u64>, log: Seq<u64>)
    requires
        clock == log,
    ensures
        #[trigger] agrees(clock, log),
{
    reveal(agrees);
}

pub broadcast proof fn lemma_agrees_reading(clock: Seq<u64>, log: Seq<u64>, t: u64)
    ensures
        #[trigger] agrees(clock, log.push(t)) ==> log.len() < clock.len() && clock[log.len() as int]
            == t,
{
    reveal(agrees);
    if agrees(clock, log.push(t)) {
        assert(log.push(t)[log.len() as int] == t);
    }
}

pub broadcast proof fn lemma_agrees_pushed(log: Seq<u64>, t: u64)
    ensures
        #[trigger] agrees(log.push(t), log),
{
    reveal(agrees);
}

pub broadcast group group_clock {
    lemma_agrees_shorter,
    lemma_agrees_self,
    lemma_agrees_reading,
    lemma_agrees_pushed,
}

} // verus!
