//! The one place the library reads the wall clock.

use vstd::prelude::*;

use crate::models::Date;
use crate::models::Timestamp;

verus! {

/// Relies on chrono's `Local::now` read through `Datelike` and
/// `Timelike`: the month is 1-12, the day of month 1-31, and the
/// second of day below 86400. Nothing else can be promised of the
/// machine's clock.
#[verifier::external_body]
pub(crate) fn current_timestamp() -> (t: Timestamp)
    ensures
        1 <= t.date.month <= 12,
        1 <= t.date.day <= 31,
        t.seconds < 86400,
{
    let now = chrono::Local::now();
    Timestamp {
        date: Date {
            year: chrono::Datelike::year(&now),
            month: chrono::Datelike::month(&now),
            day: chrono::Datelike::day(&now),
        },
        seconds: chrono::Timelike::num_seconds_from_midnight(&now),
    }
}

} // verus!
