//! The time of day.
use std::time::{Duration, SystemTime};
use vstd::prelude::*;

verus! {

/// `std::time::SystemTime`, carried without looking inside.
#[verifier::external_type_specification]
#[verifier::external_body]
pub struct ExSystemTime(std::time::SystemTime);

/// The nanoseconds in a `Duration`, as `Duration::as_nanos` counts them.
pub uninterp spec fn nanos_in(d: Duration) -> nat;

/// The nanoseconds from the start of 1970 to a time, as `SystemTime::duration_since` measures
/// them; none for an earlier time.
pub uninterp spec fn nanos_at(t: SystemTime) -> Option<nat>;

/// `SystemTime::now`: nothing is claimed of what the clock shows.
pub assume_specification[ SystemTime::now ]() -> (r: SystemTime)
;

/// `SystemTime::duration_since` with `UNIX_EPOCH`: the result is named; it fails for a time before
/// that.
#[verifier::external_body]
fn since_epoch(t: &SystemTime) -> (r: Option<Duration>)
    ensures
        match r {
            Some(d) => nanos_at(*t) == Some(nanos_in(d)),
            None => nanos_at(*t) == None::<nat>,
        },
{
    t.duration_since(std::time::UNIX_EPOCH).ok()
}

/// `Duration::as_secs`: the whole seconds.
pub assume_specification[ Duration::as_secs ](d: &Duration) -> (r: u64)
    ensures
        r as nat == nanos_in(*d) / 1_000_000_000,
;

/// `Duration::as_millis`: the whole milliseconds.
pub assume_specification[ Duration::as_millis ](d: &Duration) -> (r: u128)
    ensures
        r as nat == nanos_in(*d) / 1_000_000,
;

/// `Duration::as_nanos`: the nanoseconds.
pub assume_specification[ Duration::as_nanos ](d: &Duration) -> (r: u128)
    ensures
        r as nat == nanos_in(*d),
;

/// The nanoseconds from the start of 1970 to a time; 0 for an earlier time.
pub open spec fn nanos_or_zero(t: SystemTime) -> nat {
    match nanos_at(t) {
        Some(n) => n,
        None => 0,
    }
}

/// The whole seconds from the start of 1970 to a time; 0 for an earlier time.
pub fn secs_at(t: &SystemTime) -> (r: u64)
    ensures
        r as nat == nanos_or_zero(*t) / 1_000_000_000,
{
    match since_epoch(t) {
        Some(d) => d.as_secs(),
        None => 0,
    }
}

/// The whole milliseconds from the start of 1970 to a time, modulo the range of the result; 0 for
/// an earlier time.
pub fn millis_at(t: &SystemTime) -> (r: u64)
    ensures
        r == (nanos_or_zero(*t) / 1_000_000) as u64,
{
    match since_epoch(t) {
        Some(d) => d.as_millis() as u64,
        None => 0,
    }
}

/// The nanoseconds from the start of 1970 to a time; 0 for an earlier time.
pub fn nanos_of(t: &SystemTime) -> (r: u128)
    ensures
        r as nat == nanos_or_zero(*t),
{
    match since_epoch(t) {
        Some(d) => d.as_nanos(),
        None => 0,
    }
}

/// The whole seconds from the start of 1970 to the present time, whatever the clock shows.
pub fn now_secs() -> (r: u64)
    ensures
        exists|t: SystemTime| r as nat == #[trigger] nanos_or_zero(t) / 1_000_000_000,
{
    let t = SystemTime::now();
    secs_at(&t)
}

/// The whole milliseconds from the start of 1970 to the present time, whatever the clock shows.
pub fn now_ms() -> (r: u64)
    ensures
        exists|t: SystemTime| r == (#[trigger] nanos_or_zero(t) / 1_000_000) as u64,
{
    let t = SystemTime::now();
    millis_at(&t)
}

/// The nanoseconds from the start of 1970 to the present time, whatever the clock shows.
pub fn now_nanos() -> (r: u128)
    ensures
        exists|t: SystemTime| r as nat == #[trigger] nanos_or_zero(t),
{
    let t = SystemTime::now();
    nanos_of(&t)
}

} // verus!
