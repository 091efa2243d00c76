//! The wall clock, in whole units since the Unix epoch.
use std::time::{Duration, SystemTime};
use vstd::prelude::*;

verus! {

/// A reading of the wall clock.
#[verifier::external_type_specification]
#[verifier::external_body]
pub struct ExSystemTime(std::time::SystemTime);

/// The whole nanoseconds of a span.
pub uninterp spec fn span_nanos(d: Duration) -> u128;

/// The span from the Unix epoch up to a reading, or none where the reading lies
/// before the epoch.
pub uninterp spec fn epoch_span(t: SystemTime) -> Option<Duration>;

/// `SystemTime::now` reads the wall clock. Nothing is promised of the reading.
#[verifier::external_body]
pub(crate) fn read_clock() -> (r: SystemTime) {
    SystemTime::now()
}

/// `SystemTime::duration_since` the Unix epoch: the span up to the reading, or
/// none where the reading lies before the epoch. Both follow from the reading
/// alone.
#[verifier::external_body]
pub(crate) fn since_epoch(t: SystemTime) -> (r: Option<Duration>)
    ensures
        r == epoch_span(t),
{
    t.duration_since(SystemTime::UNIX_EPOCH).ok()
}

/// `Duration::as_millis` gives the whole milliseconds of a span.
#[verifier::external_body]
pub(crate) fn whole_millis(d: Duration) -> (r: u128)
    ensures
        r == span_nanos(d) / 1_000_000,
{
    d.as_millis()
}

/// `Duration::as_micros` gives the whole microseconds of a span.
#[verifier::external_body]
pub(crate) fn whole_micros(d: Duration) -> (r: u128)
    ensures
        r == span_nanos(d) / 1_000,
{
    d.as_micros()
}

/// `Duration::as_secs` gives the whole seconds of a span.
#[verifier::external_body]
pub(crate) fn whole_secs(d: Duration) -> (r: u64)
    ensures
        r == span_nanos(d) / 1_000_000_000,
{
    d.as_secs()
}

/// `Duration::as_nanos` gives the nanoseconds of a span.
#[verifier::external_body]
pub(crate) fn whole_nanos(d: Duration) -> (r: u128)
    ensures
        r == span_nanos(d),
{
    d.as_nanos()
}

/// Whole milliseconds of a span since the epoch; 0 for a clock before it.
pub open spec fn epoch_millis(elapsed: Option<Duration>) -> u64 {
    match elapsed {
        Some(d) => (span_nanos(d) / 1_000_000) as u64,
        None => 0,
    }
}

/// Whole microseconds of a span since the epoch; 0 for a clock before it.
pub open spec fn epoch_micros(elapsed: Option<Duration>) -> i64 {
    match elapsed {
        Some(d) => (span_nanos(d) / 1_000) as i64,
        None => 0,
    }
}

/// Whole seconds of a span since the epoch; 0 for a clock before it.
pub open spec fn epoch_secs(elapsed: Option<Duration>) -> i64 {
    match elapsed {
        Some(d) => (span_nanos(d) / 1_000_000_000) as u64 as i64,
        None => 0,
    }
}

/// Nanoseconds of a span since the epoch; none for a clock before it.
pub open spec fn epoch_nanos(elapsed: Option<Duration>) -> Option<u128> {
    match elapsed {
        Some(d) => Some(span_nanos(d)),
        None => None,
    }
}

/// Whether these are the seconds of a reading of the clock.
pub open spec fn read_secs(secs: i64) -> bool {
    exists|t: SystemTime| secs == epoch_secs(#[trigger] epoch_span(t))
}

/// Whether these are the milliseconds of a reading of the clock.
pub open spec fn read_millis(millis: u64) -> bool {
    exists|t: SystemTime| millis == epoch_millis(#[trigger] epoch_span(t))
}

/// Whether these are the microseconds of a reading of the clock.
pub open spec fn read_micros(micros: i64) -> bool {
    exists|t: SystemTime| micros == epoch_micros(#[trigger] epoch_span(t))
}

/// Seconds since the epoch; 0 for a clock before it.
pub fn secs_since_epoch(elapsed: Option<Duration>) -> (r: i64)
    ensures
        r == epoch_secs(elapsed),
{
    match elapsed {
        Some(d) => whole_secs(d) as i64,
        None => 0,
    }
}

/// The wall clock in seconds since the Unix epoch.
pub fn now_secs() -> (r: i64)
    ensures
        read_secs(r),
{
    secs_since_epoch(since_epoch(read_clock()))
}

/// Nanoseconds since the epoch; none for a clock before it.
pub fn nanos_since_epoch(elapsed: Option<Duration>) -> (r: Option<u128>)
    ensures
        r == epoch_nanos(elapsed),
{
    match elapsed {
        Some(d) => Some(whole_nanos(d)),
        None => None,
    }
}

/// The wall clock in nanoseconds since the Unix epoch, or none for a clock
/// before it: what a reading of the clock gives.
pub fn ts_nanos() -> (r: Option<u128>)
    ensures
        exists|t: SystemTime| r == epoch_nanos(#[trigger] epoch_span(t)),
{
    nanos_since_epoch(since_epoch(read_clock()))
}

/// Milliseconds since the epoch; 0 for a clock before it.
pub fn millis_since_epoch(elapsed: Option<Duration>) -> (r: u64)
    ensures
        r == epoch_millis(elapsed),
{
    match elapsed {
        Some(d) => whole_millis(d) as u64,
        None => 0,
    }
}

/// Microseconds since the epoch; 0 for a clock before it.
pub fn micros_since_epoch(elapsed: Option<Duration>) -> (r: i64)
    ensures
        r == epoch_micros(elapsed),
{
    match elapsed {
        Some(d) => whole_micros(d) as i64,
        None => 0,
    }
}

/// The wall clock in milliseconds since the Unix epoch.
pub fn now_ms() -> (r: u64)
    ensures
        read_millis(r),
{
    millis_since_epoch(since_epoch(read_clock()))
}

/// The wall clock in microseconds since the Unix epoch.
pub fn current_micros() -> (r: i64)
    ensures
        read_micros(r),
{
    micros_since_epoch(since_epoch(read_clock()))
}

// ------------------------------------------------------------------ laws
/// Each unit of a span is the whole number of it that the span holds, as far as it
/// fits; a clock before the epoch stands at zero.
pub proof fn law_units_of_a_span(d: Duration)
    ensures
        span_nanos(d) < 0x1_0000_0000_0000_0000 ==> epoch_millis(Some(d)) * 1_000_000 <= span_nanos(
            d,
        ) < (epoch_millis(Some(d)) + 1) * 1_000_000,
        span_nanos(d) < 0x8000_0000_0000_0000 ==> epoch_micros(Some(d)) * 1_000 <= span_nanos(d) < (
        epoch_micros(Some(d)) + 1) * 1_000,
        span_nanos(d) < 0x8000_0000_0000_0000 ==> epoch_secs(Some(d)) * 1_000_000_000
            <= span_nanos(d) < (epoch_secs(Some(d)) + 1) * 1_000_000_000,
        epoch_nanos(Some(d)) == Some(span_nanos(d)),
        epoch_millis(None) == 0 && epoch_micros(None) == 0 && epoch_secs(None) == 0,
        epoch_nanos(None) is None,
{
}
/// A reading of the clock is the time since the epoch at some moment, in its unit,
/// and nothing where the clock stands before the epoch.
pub proof fn law_readings_are_of_a_moment(secs: i64, millis: u64, micros: i64)
    ensures
        read_millis(millis) ==> exists|t: SystemTime|
            match #[trigger] epoch_span(t) {
                Some(d) => millis == (span_nanos(d) / 1_000_000) as u64,
                None => millis == 0,
            },
        read_micros(micros) ==> exists|t: SystemTime|
            match #[trigger] epoch_span(t) {
                Some(d) => micros == (span_nanos(d) / 1_000) as i64,
                None => micros == 0,
            },
        read_secs(secs) ==> exists|t: SystemTime|
            match #[trigger] epoch_span(t) {
                Some(d) => secs == (span_nanos(d) / 1_000_000_000) as u64 as i64,
                None => secs == 0,
            },
{
    if read_millis(millis) {
        let t = choose|t: SystemTime| millis == epoch_millis(#[trigger] epoch_span(t));
        assert(millis == epoch_millis(epoch_span(t)));
    }
    if read_micros(micros) {
        let t = choose|t: SystemTime| micros == epoch_micros(#[trigger] epoch_span(t));
        assert(micros == epoch_micros(epoch_span(t)));
    }
    if read_secs(secs) {
        let t = choose|t: SystemTime| secs == epoch_secs(#[trigger] epoch_span(t));
        assert(secs == epoch_secs(epoch_span(t)));
    }
}

} // verus!
