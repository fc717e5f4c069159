use chrono::{Datelike, Timelike};
use vstd::prelude::*;

verus! {

/// The New York wall clock (weekday numbered from Monday = 1, hour, minute) at a
/// Unix time in milliseconds, or `None` where chrono cannot represent that instant.
pub uninterp spec fn new_york_wall_clock(unix_ms: int) -> Option<(u32, u32, u32)>;

/// Relies on chrono's `DateTime::from_timestamp_millis`, chrono-tz's
/// `America::New_York` conversion and the `Datelike` / `Timelike` accessors: the
/// local weekday and time of an instant depend on that instant alone.
#[verifier::external_body]
pub(crate) fn new_york_time(unix_ms: i64) -> (r: Option<(u32, u32, u32)>)
    ensures
        r == new_york_wall_clock(unix_ms as int),
        r matches Some((w, h, m)) ==> 1 <= w <= 7 && h < 24 && m < 60,
{
    chrono::DateTime::from_timestamp_millis(unix_ms).map(|utc| {
        let local = utc.with_timezone(&chrono_tz::America::New_York);
        (local.weekday().number_from_monday(), local.hour(), local.minute())
    })
}

/// Relies on chrono's `Utc::now` and `timestamp_millis`: the current Unix time in
/// milliseconds. Nothing is known of the value.
#[verifier::external_body]
pub(crate) fn now_unix_ms() -> (r: i64) {
    chrono::Utc::now().timestamp_millis()
}

/// Relies on uuid's `Uuid::new_v4` and its hyphenated `Display` form: a fresh random
/// identifier of 36 characters.
#[verifier::external_body]
pub(crate) fn fresh_id() -> (r: String)
    ensures
        r@.len() == 36,
{
    uuid::Uuid::new_v4().to_string()
}

/// Relies on rand's `random::<u64>`: a uniformly drawn integer. Nothing is known of it.
#[verifier::external_body]
pub(crate) fn random_u64() -> (r: u64) {
    rand::random::<u64>()
}

} // verus!
